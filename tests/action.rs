use nrf70::action::{Action, ActionState, Item};
use nrf70::commands::MessageDomain;
use nrf70::Error;

#[test]
fn second_issue_is_busy_while_pending_or_sent() {
    let mut s = ActionState::new();
    assert_eq!(s.issue(Action::Get(Item::UmacInfo, 16)), Ok(()));
    assert_eq!(s.issue(Action::Get(Item::UmacInfo, 16)), Err(Error::Busy));
    assert!(s.wait_pending().is_some());
    assert_eq!(s.issue(Action::Get(Item::UmacInfo, 16)), Err(Error::Busy));
    assert_eq!(s.wait_complete(), None);
}

#[test]
fn respond_when_idle_changes_nothing() {
    let mut s = ActionState::new();
    s.respond(Err(Error::Timeout));
    assert_eq!(s.wait_complete(), Some(Ok(None)));
    assert_eq!(s.issue(Action::Command(MessageDomain::Umac, true, vec![1, 2], None)), Ok(()));
}

#[test]
fn cycle_returns_the_answer() {
    let mut s = ActionState::new();
    s.issue(Action::Command(MessageDomain::System, true, vec![0; 4], Some(8))).unwrap();
    match s.wait_pending() {
        Some(Action::Command(MessageDomain::System, true, payload, Some(8))) => assert_eq!(payload, vec![0; 4]),
        _ => panic!("unexpected action"),
    }
    s.respond(Ok(Some(&[5, 6, 7])));
    assert_eq!(s.wait_complete(), Some(Ok(Some(3))));
    assert_eq!(s.response(), &[5, 6, 7]);
}

#[test]
fn cycle_returns_an_error() {
    let mut s = ActionState::new();
    s.issue(Action::Command(MessageDomain::Umac, true, vec![], None)).unwrap();
    s.wait_pending().unwrap();
    s.respond(Err(Error::Code(-5)));
    assert_eq!(s.wait_complete(), Some(Err(Error::Code(-5))));
}

#[test]
fn too_small_response_buffer() {
    let mut s = ActionState::new();
    s.issue(Action::Get(Item::UmacInfo, 2)).unwrap();
    s.wait_pending().unwrap();
    s.respond(Ok(Some(&[1, 2, 3])));
    assert_eq!(s.wait_complete(), Some(Err(Error::BufferTooSmall)));
    assert!(s.response().is_empty());
}

#[test]
fn cancel_returns_to_idle() {
    let mut s = ActionState::new();
    s.issue(Action::Get(Item::UmacInfo, 2)).unwrap();
    s.cancel();
    assert_eq!(s.wait_complete(), Some(Ok(None)));
    assert!(s.wait_pending().is_none());
}
