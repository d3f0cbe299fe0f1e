//! The single-slot mailbox between the control side, which issues one action
//! at a time, and the runner, which executes it and answers.
//!
//! The methods here never block: the caller waits for the state it needs (a
//! pending action, a completed one) and calls them again when woken.
use vstd::prelude::*;
use vstd::slice::slice_to_vec;

use crate::commands::MessageDomain;
use crate::Error;

verus! {

/// An item of driver state that the control side can fetch.
#[derive(Debug, Clone, Copy, PartialEq, Eq, Structural)]
pub enum Item {
    /// The UMAC information block (identity and OTP calibration data).
    UmacInfo,
}

/// A unit of work for the runner.
#[derive(Debug)]
pub enum Action<'a> {
    /// Parse the firmware blob and boot the co-processor with it.
    Boot(&'a [u8]),
    /// Send a serialized command to a message domain: whether to wait for the
    /// co-processor's completion event, the payload, and the size of the
    /// response buffer, if a response is wanted.
    Command(MessageDomain, bool, Vec<u8>, Option<usize>),
    /// Fetch an item, into a response buffer of the given size.
    Get(Item, usize),
}

/// The state of the mailbox.
#[derive(Debug)]
pub enum ActionStateInner<'a> {
    /// An action waits for the runner.
    Pending(Action<'a>),
    /// The runner took the action; the size of the response buffer is kept.
    Sent { response_capacity: Option<usize> },
    /// No action is in flight; the result of the last one.
    Done { result: Result<Option<usize>, Error> },
}

/// The mailbox as a value: its state and the response bytes of the last answer.
pub struct ActionView<'a> {
    pub state: ActionStateInner<'a>,
    pub response: Seq<u8>,
}

/// The size of the response buffer that the runner keeps for an action.
pub open spec fn response_capacity_spec(a: Action) -> Option<usize> {
    match a {
        Action::Boot(_) => None,
        Action::Command(_, _, _, cap) => cap,
        Action::Get(_, cap) => Some(cap),
    }
}

/// Issuing `a`: accepted only when no action is in flight.
pub open spec fn issue_spec<'a>(v: ActionView<'a>, a: Action<'a>) -> (ActionView<'a>, Result<(), Error>) {
    match v.state {
        ActionStateInner::Done { .. } => (ActionView { state: ActionStateInner::Pending(a), response: Seq::empty() }, Ok(())),
        _ => (v, Err(Error::Busy)),
    }
}

/// The runner taking the pending action, if there is one.
pub open spec fn wait_pending_spec<'a>(v: ActionView<'a>) -> (ActionView<'a>, Option<Action<'a>>) {
    match v.state {
        ActionStateInner::Pending(a) => (
            ActionView { state: ActionStateInner::Sent { response_capacity: response_capacity_spec(a) }, response: v.response },
            Some(a),
        ),
        _ => (v, None),
    }
}

/// The result the control side sees for an answer, given the response buffer.
pub open spec fn respond_result_spec(r: Result<Option<Seq<u8>>, Error>, cap: Option<usize>) -> Result<Option<usize>, Error> {
    match r {
        Ok(Some(d)) => match cap {
            Some(c) => if (c as int) < d.len() {
                Err(Error::BufferTooSmall)
            } else {
                Ok(Some(d.len() as usize))
            },
            None => Ok(None),
        },
        Ok(None) => Ok(None),
        Err(e) => Err(e),
    }
}

/// The bytes copied to the response buffer for an answer.
pub open spec fn respond_data_spec(r: Result<Option<Seq<u8>>, Error>, cap: Option<usize>) -> Seq<u8> {
    match (r, cap) {
        (Ok(Some(d)), Some(c)) => if (c as int) < d.len() {
            Seq::empty()
        } else {
            d
        },
        _ => Seq::empty(),
    }
}

/// The runner answering: completes a sent action, and is ignored otherwise.
pub open spec fn respond_spec<'a>(v: ActionView<'a>, r: Result<Option<Seq<u8>>, Error>) -> ActionView<'a> {
    match v.state {
        ActionStateInner::Sent { response_capacity } => ActionView {
            state: ActionStateInner::Done { result: respond_result_spec(r, response_capacity) },
            response: respond_data_spec(r, response_capacity),
        },
        _ => v,
    }
}

/// The result of the last action, once none is in flight.
pub open spec fn complete_spec(v: ActionView) -> Option<Result<Option<usize>, Error>> {
    match v.state {
        ActionStateInner::Done { result } => Some(result),
        _ => None,
    }
}

/// An answer as plain bytes.
pub open spec fn answer_view(r: Result<Option<&[u8]>, Error>) -> Result<Option<Seq<u8>>, Error> {
    match r {
        Ok(Some(d)) => Ok(Some(d@)),
        Ok(None) => Ok(None),
        Err(e) => Err(e),
    }
}

/// The mailbox shared by the control side and the runner.
pub struct ActionState<'a> {
    state: ActionStateInner<'a>,
    response: Vec<u8>,
}

impl<'a> View for ActionState<'a> {
    type V = ActionView<'a>;

    closed spec fn view(&self) -> ActionView<'a> {
        ActionView { state: self.state, response: self.response@ }
    }
}

impl<'a> ActionState<'a> {
    /// An idle mailbox whose last result is `Ok(None)`.
    pub fn new() -> (r: ActionState<'a>)
        ensures
            r@.state == (ActionStateInner::Done { result: Ok(None) }),
            r@.response == Seq::<u8>::empty(),
    {
        ActionState { state: ActionStateInner::Done { result: Ok(None) }, response: Vec::new() }
    }

    /// The result of the last action, if none is in flight; the control side
    /// waits until this is `Some`.
    pub fn wait_complete(&self) -> (r: Option<Result<Option<usize>, Error>>)
        ensures
            r == complete_spec(self@),
    {
        match &self.state {
            ActionStateInner::Done { result } => Some(*result),
            _ => None,
        }
    }

    /// Takes the pending action for the runner, remembering the size of the
    /// response buffer a command or an item fetch carries; `None`, changing
    /// nothing, when no action is pending.
    pub fn wait_pending(&mut self) -> (r: Option<Action<'a>>)
        ensures
            (final(self)@, r) == wait_pending_spec(old(self)@),
    {
        let mut current = ActionStateInner::Done { result: Ok(None) };
        std::mem::swap(&mut self.state, &mut current);
        match current {
            ActionStateInner::Pending(pending) => {
                let response_capacity = match &pending {
                    Action::Boot(_) => None,
                    Action::Command(_, _, _, cap) => *cap,
                    Action::Get(_, cap) => Some(*cap),
                };
                self.state = ActionStateInner::Sent { response_capacity };
                Some(pending)
            },
            other => {
                self.state = other;
                None
            },
        }
    }

    /// Forces the mailbox back to idle with the result `Ok(None)`.
    pub fn cancel(&mut self)
        ensures
            final(self)@.state == (ActionStateInner::Done { result: Ok(None) }),
            final(self)@.response == old(self)@.response,
    {
        self.state = ActionStateInner::Done { result: Ok(None) };
    }

    /// Hands an action to the runner. Fails with `Busy`, changing nothing,
    /// while another action is pending or sent.
    pub fn issue(&mut self, action: Action<'a>) -> (r: Result<(), Error>)
        ensures
            (final(self)@, r) == issue_spec(old(self)@, action),
    {
        match &self.state {
            ActionStateInner::Done { .. } => {},
            _ => {
                return Err(Error::Busy);
            },
        }
        self.state = ActionStateInner::Pending(action);
        self.response = Vec::new();
        Ok(())
    }

    /// Answers the sent action. Data is copied to the response buffer when
    /// there is one and it is large enough; when it is too small the result is
    /// `BufferTooSmall`. Without a sent action the answer is ignored.
    pub fn respond(&mut self, result: Result<Option<&[u8]>, Error>)
        ensures
            final(self)@ == respond_spec(old(self)@, answer_view(result)),
    {
        let capacity = match &self.state {
            ActionStateInner::Sent { response_capacity } => *response_capacity,
            _ => {
                return;
            },
        };
        match result {
            Ok(Some(data)) => match capacity {
                Some(c) => {
                    if c < data.len() {
                        self.state = ActionStateInner::Done { result: Err(Error::BufferTooSmall) };
                        self.response = Vec::new();
                    } else {
                        self.state = ActionStateInner::Done { result: Ok(Some(data.len())) };
                        self.response = slice_to_vec(data);
                    }
                },
                None => {
                    self.state = ActionStateInner::Done { result: Ok(None) };
                    self.response = Vec::new();
                },
            },
            Ok(None) => {
                self.state = ActionStateInner::Done { result: Ok(None) };
                self.response = Vec::new();
            },
            Err(e) => {
                self.state = ActionStateInner::Done { result: Err(e) };
                self.response = Vec::new();
            },
        }
    }

    /// The bytes of the last answer that were copied to the response buffer.
    pub fn response(&self) -> (r: &[u8])
        ensures
            r@ == self@.response,
    {
        self.response.as_slice()
    }
}

/// While an action is pending or sent, issuing another fails with `Busy` and
/// leaves the mailbox as it was.
pub proof fn lemma_issue_busy<'a>(v: ActionView<'a>, a: Action<'a>)
    requires
        !(v.state is Done),
    ensures
        issue_spec(v, a) == (v, Err::<(), Error>(Error::Busy)),
{
}

/// An answer while no action is in flight changes nothing.
pub proof fn lemma_respond_when_done<'a>(v: ActionView<'a>, r: Result<Option<Seq<u8>>, Error>)
    requires
        v.state is Done,
    ensures
        respond_spec(v, r) == v,
{
}

/// A full cycle from idle (issue, the runner takes the action, the runner
/// answers) ends idle with exactly the answer given: its error, `Ok(None)`, or
/// the length of its data with the data in the response buffer, when the
/// action has a response buffer large enough for it.
pub proof fn lemma_rendezvous<'a>(v: ActionView<'a>, a: Action<'a>, r: Result<Option<Seq<u8>>, Error>)
    requires
        v.state is Done,
    ensures
        ({
            let (v1, issued) = issue_spec(v, a);
            let (v2, taken) = wait_pending_spec(v1);
            let v3 = respond_spec(v2, r);
            &&& issued is Ok
            &&& taken == Some(a)
            &&& complete_spec(v3) == Some(respond_result_spec(r, response_capacity_spec(a)))
            &&& (r matches Err(e) ==> complete_spec(v3) == Some(Err::<Option<usize>, Error>(e)))
            &&& (r is Ok && r->Ok_0 is None ==> complete_spec(v3) == Some(Ok::<Option<usize>, Error>(None)))
            &&& (r matches Ok(Some(d)) ==> response_capacity_spec(a) matches Some(c) ==> d.len() <= c ==>
                complete_spec(v3) == Some(Ok::<Option<usize>, Error>(Some(d.len() as usize))) && v3.response == d)
        }),
{
}

} // verus!
