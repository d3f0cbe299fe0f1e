use nrf70::action::{Action, ActionState, Item};
use nrf70::events::{decode_data_event, decode_system_event, decode_umac_event, parse_rx_buffer, DataEvent, EventAnswer};
use nrf70::rpu::Rpu;
use nrf70::bus::Bus;
use nrf70::Error;

fn umac_event(event: u32, tail: &[u32]) -> Vec<u8> {
    let mut p = vec![0u8; 36];
    p[8..12].copy_from_slice(&event.to_le_bytes());
    for w in tail {
        p.extend_from_slice(&w.to_le_bytes());
    }
    p
}

#[test]
fn system_events() {
    assert_eq!(decode_system_event(&[1, 0, 0, 0, 8, 0, 0, 0]), EventAnswer::Done);
    assert_eq!(decode_system_event(&[2, 0, 0, 0, 8, 0, 0, 0]), EventAnswer::Data);
    assert_eq!(decode_system_event(&[7, 0, 0, 0, 8, 0, 0, 0]), EventAnswer::NoAnswer);
    assert_eq!(decode_system_event(&[1, 0]), EventAnswer::NoAnswer);
}

#[test]
fn umac_events() {
    assert_eq!(decode_umac_event(&umac_event(292, &[52, 0])), EventAnswer::Done);
    assert_eq!(decode_umac_event(&umac_event(292, &[52, 0xFFFF_FFFE])), EventAnswer::Failed(Error::Code(-2)));
    assert_eq!(decode_umac_event(&umac_event(275, &[5])), EventAnswer::Failed(Error::Code(5)));
    assert_eq!(decode_umac_event(&umac_event(257, &[0, 0])), EventAnswer::NoAnswer);
}

#[test]
fn data_events() {
    assert_eq!(decode_data_event(&[4, 0, 0, 0, 0, 0, 0, 0]), Ok(DataEvent::CarrierOn));
    assert_eq!(decode_data_event(&[3, 0, 0, 0, 0, 0, 0, 0]), Ok(DataEvent::RxBuffer));
    assert_eq!(decode_data_event(&[9, 0, 0, 0, 0, 0, 0, 0]), Err(Error::NotHandled(9)));
    assert_eq!(decode_data_event(&[4]), Err(Error::BufferTooSmall));
}

#[test]
fn rx_summary_and_descriptors() {
    let mut p = vec![0u8; 18];
    p[11] = 2;
    p[13] = 24;
    p[14..16].copy_from_slice(&2412u16.to_le_bytes());
    p.extend_from_slice(&[3, 0, 100, 0, 0]);
    p.extend_from_slice(&[4, 0, 60, 0, 2]);
    let (s, infos) = parse_rx_buffer(&p).unwrap();
    assert_eq!((s.rx_pkt_cnt, s.mac_header_len, s.frequency), (2, 24, 2412));
    assert_eq!((infos[1].descriptor_id, infos[1].rx_pkt_len, infos[1].pkt_type), (4, 60, 2));
    assert_eq!(parse_rx_buffer(&p[..25]).err(), Some(Error::BufferTooSmall));
}

struct NullBus;

impl Bus for NullBus {
    fn read(&mut self, _addr: u32, words: usize) -> Vec<u32> {
        vec![0; words]
    }
    fn write(&mut self, _addr: u32, _buf: &[u32]) {}
    fn read_sr0(&mut self) -> u8 {
        0
    }
    fn read_sr1(&mut self) -> u8 {
        0
    }
    fn read_sr2(&mut self) -> u8 {
        0
    }
    fn write_sr2(&mut self, _val: u8) {}
    fn delay_ms(&mut self, _ms: u32) {}
}

#[test]
fn stats_event_answers_with_payload() {
    let mut rpu = Rpu::new(NullBus);
    let mut actions = ActionState::new();
    actions.issue(Action::Get(Item::UmacInfo, 64)).unwrap();
    actions.wait_pending().unwrap();
    let payload = [2u8, 0, 0, 0, 12, 0, 0, 0, 7, 7, 7, 7];
    let mut frames = Vec::new();
    rpu.handle_event(0, &payload, &mut actions, &mut frames).unwrap();
    assert!(frames.is_empty());
    assert_eq!(actions.wait_complete(), Some(Ok(Some(12))));
    assert_eq!(actions.response(), &payload);
}

#[test]
fn unknown_domain_is_dropped() {
    let mut rpu = Rpu::new(NullBus);
    let mut actions = ActionState::new();
    actions.issue(Action::Get(Item::UmacInfo, 64)).unwrap();
    actions.wait_pending().unwrap();
    let mut frames = Vec::new();
    rpu.handle_event(9, &[1, 0, 0, 0, 0, 0, 0, 0], &mut actions, &mut frames).unwrap();
    assert!(frames.is_empty());
    assert_eq!(actions.wait_complete(), None);
}

#[test]
fn hexdump_renders_offset_hex_and_ascii() {
    let out = nrf70::hexdump(b"AB\x00");
    let mut expected = String::from("00000000: 41 42 00 ");
    expected.push_str(&"   ".repeat(13));
    expected.push_str(" |AB.|\n");
    assert_eq!(String::from_utf8(out).unwrap(), expected);
}

#[test]
fn hexdump_second_line_offset() {
    let data: Vec<u8> = (0u8..17).collect();
    let out = String::from_utf8(nrf70::hexdump(&data)).unwrap();
    let lines: Vec<&str> = out.lines().collect();
    assert_eq!(lines.len(), 2);
    assert!(lines[1].starts_with("00000010: 10 "));
    assert!(nrf70::hexdump(&[]).is_empty());
}
