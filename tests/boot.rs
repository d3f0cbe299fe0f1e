use std::cell::RefCell;
use std::collections::HashMap;
use std::rc::Rc;

use nrf70::action::{Action, ActionState};
use nrf70::bus::Bus;
use nrf70::commands::MessageDomain;
use nrf70::control::{scan_command, ScanOptions, ScanType};
use nrf70::firmware::PATCH_SIGNATURE;
use nrf70::rpu::Rpu;

/// Packet RAM: co-processor 0xB000_0000 is bus 0x0C_0000.
fn pkt(addr: u32) -> u32 {
    0x0C_0000 + (addr - 0xB000_0000)
}

const CMD_SLOT: u32 = 0xB000_2000;
const EVENT: u32 = 0xB000_8000;
const CMD_AVL_DEQUEUE: u32 = 0xB000_101C;
const CMD_BUSY_ENQUEUE: u32 = 0xB000_1010;

/// A co-processor that acknowledges every handshake at once.
struct Sim {
    mem: HashMap<u32, u32>,
    fixed: HashMap<u32, u32>,
    writes: Vec<(u32, Vec<u32>)>,
}

/// The bus the driver owns; the test keeps a second handle on the same state.
struct SimBus(Rc<RefCell<Sim>>);

impl Sim {
    fn new() -> Self {
        let mut fixed = HashMap::new();
        fixed.insert(0x00_0000, 0); // LMAC control: out of reset
        fixed.insert(0x00_0100, 0); // UMAC control: out of reset
        fixed.insert(0x00_0018, 1); // LMAC boot exception: ready
        fixed.insert(0x00_0118, 1); // UMAC boot exception: ready
        fixed.insert(0x08_0D50, 0x5A5A_5A5A); // LMAC boot signature
        fixed.insert(pkt(0xB000_0000), 0x5A5A_5A5A); // UMAC boot signature
        fixed.insert(pkt(0xB000_0004), 0x0102_0304); // version
        fixed.insert(0x08_0D58, 0xB700_1000); // receive command base
        // Queue descriptors.
        let queues = [
            0xB000_1000u32, 0xB000_1004, 0xB000_1008, 0xB000_100C, 0xB000_1010, 0xB000_1014, 0xB000_1018,
            0xB000_101C, 0xB000_1020, 0xB000_1024, 0xB000_1028, 0xB000_102C, 0xB000_1030, 0xB000_1034,
        ];
        for (i, q) in queues.iter().enumerate() {
            fixed.insert(pkt(0xB000_0024) + 4 * i as u32, *q);
        }
        fixed.insert(pkt(CMD_AVL_DEQUEUE), CMD_SLOT); // the first free command slot
        Sim { mem: HashMap::new(), fixed, writes: Vec::new() }
    }

    fn word(&self, addr: u32) -> u32 {
        *self.fixed.get(&addr).or(self.mem.get(&addr)).unwrap_or(&0)
    }

    /// The command slots posted as busy, in order.
    fn posted(&self) -> Vec<u32> {
        self.writes.iter().filter(|(a, _)| *a == pkt(CMD_BUSY_ENQUEUE)).map(|(_, w)| w[0]).collect()
    }

    fn bytes_at(&self, addr: u32, len: usize) -> Vec<u8> {
        (0..(len as u32 + 3) / 4).flat_map(|i| self.word(addr + 4 * i).to_le_bytes()).take(len).collect()
    }
}

impl Bus for SimBus {
    fn read(&mut self, addr: u32, words: usize) -> Vec<u32> {
        let mut v = vec![0u32; words];
        if words > 0 {
            v[words - 1] = self.0.borrow().word(addr);
        }
        v
    }
    fn write(&mut self, addr: u32, buf: &[u32]) {
        let mut sim = self.0.borrow_mut();
        sim.writes.push((addr, buf.to_vec()));
        if addr == pkt(CMD_AVL_DEQUEUE) {
            // Taking a slot offers the next one.
            sim.fixed.insert(addr, buf[0] + 0x400);
        }
        for (i, w) in buf.iter().enumerate() {
            sim.mem.insert(addr + 4 * i as u32, *w);
        }
    }
    fn read_sr0(&mut self) -> u8 {
        0
    }
    fn read_sr1(&mut self) -> u8 {
        0x06
    }
    fn read_sr2(&mut self) -> u8 {
        0x01
    }
    fn write_sr2(&mut self, _val: u8) {}
    fn delay_ms(&mut self, _ms: u32) {}
}

fn firmware() -> Vec<u8> {
    let images: [(u32, Vec<u8>); 4] = [(0, vec![1; 64]), (1, vec![2; 32]), (2, vec![3; 16]), (3, vec![4; 8])];
    let payload: u32 = images.iter().map(|(_, d)| 8 + d.len() as u32).sum();
    let mut b = Vec::new();
    for w in [PATCH_SIGNATURE, 4, payload, 1] {
        b.extend_from_slice(&w.to_le_bytes());
    }
    for (k, d) in &images {
        b.extend_from_slice(&k.to_le_bytes());
        b.extend_from_slice(&(d.len() as u32).to_le_bytes());
        b.extend_from_slice(d);
    }
    b
}

#[test]
fn boot_then_scan_then_init_done() {
    let blob = firmware();
    let sim = Rc::new(RefCell::new(Sim::new()));
    let mut rpu = Rpu::new(SimBus(sim.clone()));
    let mut actions = ActionState::new();

    actions.issue(Action::Boot(&blob)).unwrap();
    let action = actions.wait_pending().unwrap();
    assert_eq!(rpu.execute_action(action, &mut actions), Ok(()));
    assert!(rpu.hostport_queues_info().is_some());
    // Awaiting the firmware's "init done".
    assert_eq!(actions.wait_complete(), None);

    // The first LMAC image went to its destination.
    assert!(sim.borrow().writes.iter().any(|(a, w)| *a == 0x14_9000 && w[0] == 0x0303_0303));
    // The initialisation command sits in the command slot: header, then the system command.
    let frame = sim.borrow().bytes_at(pkt(CMD_SLOT), 12 + 340);
    assert_eq!(&frame[0..4], &(12 + 340u32).to_le_bytes());
    assert_eq!(&frame[8..12], &0u32.to_le_bytes());
    assert_eq!(&frame[16..20], &340u32.to_le_bytes());
    // The doorbell rang with the first command number.
    assert!(sim.borrow().writes.iter().any(|(a, w)| *a == 0x480 && w[0] == 0x7FFF_DEAD));

    // The firmware reports "init done" through an event.
    {
        let mut s = sim.borrow_mut();
        s.fixed.insert(pkt(0xB000_1004), EVENT);
        for (i, w) in [8u32, 0, 0, 1, 8].iter().enumerate() {
            s.fixed.insert(pkt(EVENT) + 4 * i as u32, *w);
        }
    }
    assert!(rpu.read_event().is_ok());
    let outcome = rpu.service_interrupt(&mut actions).unwrap();
    assert!(outcome.frames.is_empty());
    assert_eq!(outcome.event_error, None);
    assert_eq!(actions.wait_complete(), Some(Ok(None)));
    sim.borrow_mut().fixed.insert(pkt(0xB000_1004), 0);
    assert_eq!(rpu.read_event().err(), Some(nrf70::Error::NoData));

    // An active scan with a 300 ms dwell time.
    let options = ScanOptions { scan_type: ScanType::Active, dwell_time: Some(300), ..ScanOptions::default() };
    actions.issue(Action::Command(MessageDomain::Umac, true, scan_command(&options), None)).unwrap();
    let action = actions.wait_pending().unwrap();
    assert_eq!(rpu.execute_action(action, &mut actions), Ok(()));
    let posted = sim.borrow().posted();
    assert_eq!(posted.len(), 3);
    // 540 framed bytes go out in two fragments: 400 bytes, then 140.
    let mut frame = sim.borrow().bytes_at(pkt(posted[1]), 400);
    frame.extend(sim.borrow().bytes_at(pkt(posted[2]), 140));
    assert_eq!(&frame[0..4], &(12 + 526u32).to_le_bytes());
    assert_eq!(&frame[8..12], &3u32.to_le_bytes());
    assert_eq!(&frame[12 + 40..12 + 42], &[0, 0]);
    assert_eq!(&frame[12 + 519..12 + 521], &300u16.to_le_bytes());
    assert!(sim.borrow().writes.iter().any(|(a, w)| *a == 0x480 && w[0] == 0x7FFF_DEAE));
    assert!(sim.borrow().writes.iter().any(|(a, w)| *a == 0x480 && w[0] == 0x7FFF_DEAF));
}

#[test]
fn rx_event_keeps_frames_before_a_bad_packet() {
    let blob = firmware();
    let sim = Rc::new(RefCell::new(Sim::new()));
    let mut rpu = Rpu::new(SimBus(sim.clone()));
    let mut actions = ActionState::new();
    actions.issue(Action::Boot(&blob)).unwrap();
    let action = actions.wait_pending().unwrap();
    assert_eq!(rpu.execute_action(action, &mut actions), Ok(()));

    // An MPDU in receive buffer 0: 24-byte 802.11 header (from-DS), LLC/SNAP
    // with EtherType IPv4, four payload bytes.
    let mut mpdu = vec![0u8; 24];
    mpdu[1] = 0x02;
    mpdu[4..10].copy_from_slice(&[0x11; 6]);
    mpdu[16..22].copy_from_slice(&[0x33; 6]);
    mpdu.extend_from_slice(&[0xAA, 0xAA, 0x03, 0x00, 0x00, 0x00, 0x08, 0x00, 1, 2, 3, 4]);
    let data_addr = pkt(0xB002_B204 + 4);
    {
        let mut s = sim.borrow_mut();
        for (i, w) in mpdu.chunks(4).enumerate() {
            let mut b = [0u8; 4];
            b[..w.len()].copy_from_slice(w);
            s.fixed.insert(data_addr + 4 * i as u32, u32::from_le_bytes(b));
        }
    }
    // Received-buffers event: data command, summary, two packets; the second
    // names no buffer of the pool.
    let mut p = vec![0u8; 18];
    p[0] = 3;
    p[11] = 2;
    p[13] = 24;
    p.extend_from_slice(&[0, 0, mpdu.len() as u8, 0, 0]);
    p.extend_from_slice(&[99, 0, 8, 0, 0]);
    p.extend_from_slice(&[0, 0]);
    {
        let mut s = sim.borrow_mut();
        s.fixed.insert(pkt(0xB000_1004), EVENT);
        let header = [p.len() as u32 - 2, 0, 2];
        for (i, w) in header.iter().enumerate() {
            s.fixed.insert(pkt(EVENT) + 4 * i as u32, *w);
        }
        for (i, w) in p.chunks(4).enumerate() {
            let mut b = [0u8; 4];
            b[..w.len()].copy_from_slice(w);
            s.fixed.insert(pkt(EVENT) + 12 + 4 * i as u32, u32::from_le_bytes(b));
        }
    }
    let outcome = rpu.service_interrupt(&mut actions).unwrap();
    assert_eq!(outcome.event_error, Some(nrf70::Error::NotFound));
    assert_eq!(outcome.frames.len(), 1);
    let f = &outcome.frames[0];
    assert_eq!(&f[0..6], &[0x11; 6]);
    assert_eq!(&f[6..12], &[0x33; 6]);
    assert_eq!(&f[12..], &[0x08, 0x00, 1, 2, 3, 4]);
}
