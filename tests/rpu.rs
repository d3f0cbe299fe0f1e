use std::collections::HashMap;

use nrf70::action::{Action, ActionState};
use nrf70::bus::Bus;
use nrf70::commands::MessageDomain;
use nrf70::firmware::PATCH_SIGNATURE;
use nrf70::rpu::{HostportQueue, Rpu};
use nrf70::{Error, FirmwareParseError};

/// A bus over a word map: a read returns the addressed word as the last of
/// the requested words; every access is recorded.
#[derive(Default)]
struct MockBus {
    mem: HashMap<u32, u32>,
    reads: Vec<(u32, usize)>,
    writes: Vec<(u32, Vec<u32>)>,
    sr_writes: Vec<u8>,
    sr1: u8,
    sr2: u8,
}

impl Bus for MockBus {
    fn read(&mut self, addr: u32, words: usize) -> Vec<u32> {
        self.reads.push((addr, words));
        let mut v = vec![0u32; words];
        if words > 0 {
            v[words - 1] = *self.mem.get(&addr).unwrap_or(&0);
        }
        v
    }
    fn write(&mut self, addr: u32, buf: &[u32]) {
        self.writes.push((addr, buf.to_vec()));
        for (i, w) in buf.iter().enumerate() {
            self.mem.insert(addr + 4 * i as u32, *w);
        }
    }
    fn read_sr0(&mut self) -> u8 {
        0
    }
    fn read_sr1(&mut self) -> u8 {
        self.sr1
    }
    fn read_sr2(&mut self) -> u8 {
        self.sr2
    }
    fn write_sr2(&mut self, val: u8) {
        self.sr_writes.push(val);
    }
    fn delay_ms(&mut self, _ms: u32) {}
}

// 0xB000_0100 lies in packet RAM (bus 0x0C_0000, no dummy words).
const DEQUEUE: u32 = 0xB000_0100;
const DEQUEUE_BUS: u32 = 0x0C_0100;

fn queue() -> HostportQueue {
    HostportQueue { enqueue_addr: 0xB000_0104, dequeue_addr: DEQUEUE }
}

#[test]
fn dequeue_zero_is_empty() {
    let mut rpu = Rpu::new(MockBus::default());
    assert_eq!(rpu.hostport_queue_dequeue(queue()), Ok(None));
    assert!(rpu.bus().writes.is_empty());
}

#[test]
fn dequeue_sentinel_is_empty() {
    let mut bus = MockBus::default();
    bus.mem.insert(DEQUEUE_BUS, 0xAAAA_AAAA);
    let mut rpu = Rpu::new(bus);
    assert_eq!(rpu.hostport_queue_dequeue(queue()), Ok(None));
    assert!(rpu.bus().writes.is_empty());
}

#[test]
fn dequeue_value_is_written_back_once() {
    let mut bus = MockBus::default();
    bus.mem.insert(DEQUEUE_BUS, 0x1234);
    let mut rpu = Rpu::new(bus);
    assert_eq!(rpu.hostport_queue_dequeue(queue()), Ok(Some(0x1234)));
    assert_eq!(rpu.bus().writes, vec![(DEQUEUE_BUS, vec![0x1234])]);
}

#[test]
fn read_skips_dummy_words() {
    let mut bus = MockBus::default();
    bus.mem.insert(0x00_0004, 77);
    let mut rpu = Rpu::new(bus);
    // System bus window: one dummy word.
    assert_eq!(rpu.read_u32(0xA400_0004, None), Ok(77));
    assert_eq!(rpu.bus().reads, vec![(0x00_0004, 2)]);
}

#[test]
fn unmapped_read_fails() {
    let mut rpu = Rpu::new(MockBus::default());
    assert_eq!(rpu.read_u32(0x1234_5678, None), Err(Error::InvalidAddress));
    assert!(rpu.bus().reads.is_empty());
}

#[test]
fn boot_with_bad_signature_touches_no_bus() {
    let mut blob = vec![0u8; 64];
    blob[0..4].copy_from_slice(&0xBAD0_BAD0u32.to_le_bytes());
    blob[4..8].copy_from_slice(&4u32.to_le_bytes());
    let mut rpu = Rpu::new(MockBus::default());
    assert_eq!(rpu.boot_firmware(&blob), Err(Error::FirmwareParseError(FirmwareParseError::InvalidSignature)));
    assert!(rpu.bus().writes.is_empty());
    assert!(rpu.bus().reads.is_empty());
    assert!(rpu.bus().sr_writes.is_empty());
}

#[test]
fn init_action_with_bad_signature_reports_parse_error() {
    let mut blob = vec![0u8; 64];
    blob[0..4].copy_from_slice(&(PATCH_SIGNATURE ^ 1).to_le_bytes());
    let mut rpu = Rpu::new(MockBus::default());
    let mut actions = ActionState::new();
    actions.issue(Action::Boot(&blob)).unwrap();
    let action = actions.wait_pending().unwrap();
    let r = rpu.execute_action(action, &mut actions);
    assert_eq!(r, Err(Error::FirmwareParseError(FirmwareParseError::InvalidSignature)));
    assert_eq!(actions.wait_complete(), Some(Err(Error::FirmwareParseError(FirmwareParseError::InvalidSignature))));
    assert!(rpu.bus().writes.is_empty());
}

#[test]
fn command_before_boot_is_not_initialized() {
    let mut rpu = Rpu::new(MockBus::default());
    assert_eq!(rpu.send_command_raw(MessageDomain::Umac, &[0u8; 40]), Err(Error::NotInitialized));
    assert_eq!(rpu.send_command_raw(MessageDomain::Umac, &[0u8; 1013]), Err(Error::BufferOverflow));
}

#[test]
fn read_event_before_boot_is_not_initialized() {
    let mut rpu = Rpu::new(MockBus::default());
    assert_eq!(rpu.read_event().err(), Some(Error::NotInitialized));
}

#[test]
fn cached_buffers_by_descriptor() {
    let rpu = Rpu::new(MockBus::default());
    assert_eq!(rpu.get_cached_receive_buffer_slice(14).unwrap().len(), 1600);
    assert_eq!(rpu.get_cached_receive_buffer_slice(15).err(), Some(Error::NotFound));
    assert_eq!(rpu.descriptor_idenitfier_to_indicies(7), Ok(7));
}

#[test]
fn update_cached_buffer_reads_from_its_address() {
    let mut bus = MockBus::default();
    // Buffer 0 lies at 0xB002_B204; its data one word further, in packet RAM.
    bus.mem.insert(0x0C_0000 + 0x2_B208, 0x0403_0201);
    let mut rpu = Rpu::new(bus);
    assert_eq!(rpu.update_cached_receive_buffer(0, 3), Ok(()));
    assert_eq!(&rpu.get_cached_receive_buffer_slice(0).unwrap()[..5], &[1, 2, 3, 4, 0]);
    assert_eq!(rpu.update_cached_receive_buffer(0, 1601), Err(Error::BufferOverflow));
    assert_eq!(rpu.update_cached_receive_buffer(99, 4), Err(Error::NotFound));
}

#[test]
fn wake_up_without_acknowledgement() {
    let mut rpu = Rpu::new(MockBus::default());
    assert_eq!(rpu.wake_up(), Err(Error::NoAcknowledgement));
    assert_eq!(rpu.bus().sr_writes, vec![1]);
}

#[test]
fn wake_up_never_awake_times_out() {
    let mut rpu = Rpu::new(MockBus { sr2: 1, ..MockBus::default() });
    assert_eq!(rpu.wake_up(), Err(Error::Timeout));
    let mut rpu = Rpu::new(MockBus { sr2: 1, sr1: 2, ..MockBus::default() });
    assert_eq!(rpu.wake_up(), Ok(()));
    assert_eq!(rpu.wait_until_ready(), Err(Error::Timeout));
}
