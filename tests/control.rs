use nrf70::commands::{frame_command, MessageDomain};
use nrf70::control::{
    get_scan_results_command, get_stats_command, init_commands, mac_address_from_umac_info, scan_command,
    scan_params, ScanOptions, ScanType,
};

fn u16_at(b: &[u8], o: usize) -> u16 {
    u16::from_le_bytes([b[o], b[o + 1]])
}

fn u32_at(b: &[u8], o: usize) -> u32 {
    u32::from_le_bytes([b[o], b[o + 1], b[o + 2], b[o + 3]])
}

#[test]
fn active_scan_with_dwell_time() {
    let options = ScanOptions { scan_type: ScanType::Active, dwell_time: Some(300), ..ScanOptions::default() };
    let p = scan_params(&options);
    assert_eq!(p.passive_scan, 0);
    assert_eq!(p.dwell_time_active, 300);
    assert_eq!(p.dwell_time_passive, 0);
    let c = scan_command(&options);
    assert_eq!(c.len(), 526);
    assert_eq!(u32_at(&c, 8), 0);
    assert_eq!(u16_at(&c, 40), 0);
    assert_eq!(u16_at(&c, 519), 300);
    assert_eq!(u16_at(&c, 523), 20);
}

#[test]
fn passive_scan_with_bssid() {
    let options = ScanOptions {
        bssid: Some([1, 2, 3, 4, 5, 6]),
        dwell_time: Some(120),
        ..ScanOptions::default()
    };
    let c = scan_command(&options);
    assert_eq!(u16_at(&c, 40), 1);
    assert_eq!(u16_at(&c, 519), 0);
    assert_eq!(u16_at(&c, 521), 120);
    assert_eq!(&c[513..519], &[1, 2, 3, 4, 5, 6]);
}

#[test]
fn frame_has_header_and_padding() {
    let f = frame_command(MessageDomain::Umac, &[9, 9, 9, 9, 9]).unwrap();
    assert_eq!(f.len(), 12 + 8);
    assert_eq!(u32_at(&f, 0), 12 + 5);
    assert_eq!(u32_at(&f, 4), 0);
    assert_eq!(u32_at(&f, 8), 3);
    assert_eq!(&f[12..20], &[9, 9, 9, 9, 9, 0, 0, 0]);
    assert!(frame_command(MessageDomain::System, &[0u8; 1013]).is_err());
}

#[test]
fn stats_and_scan_results_commands() {
    let s = get_stats_command();
    assert_eq!(s.len(), 16);
    assert_eq!(u32_at(&s, 0), 4);
    assert_eq!(u32_at(&s, 4), 16);
    let r = get_scan_results_command();
    assert_eq!(r.len(), 40);
    assert_eq!(u32_at(&r, 8), 1);
}

#[test]
fn init_sequence() {
    let cmds = init_commands([1, 2, 3, 4, 5, 6]);
    let kinds: Vec<u32> = cmds.iter().map(|c| c.kind().unwrap()).collect();
    assert_eq!(kinds, vec![52, 18, 33, 51, 29, 29, 29, 21]);
    let waits: Vec<bool> = cmds.iter().map(|c| c.wait_for_completion).collect();
    assert_eq!(waits, vec![true, true, true, true, false, false, false, true]);
    assert_eq!(&cmds[0].payload[36..], &[1, 2, 3, 4, 5, 6]);
    assert!(cmds.iter().all(|c| c.domain() == MessageDomain::Umac));
}

#[test]
fn mac_from_umac_info() {
    let mut info = vec![0u8; 156];
    info[104..110].copy_from_slice(&[0xF4, 0xCE, 0x36, 0x99, 0x10, 0x20]);
    assert_eq!(mac_address_from_umac_info(&info), Some([0xF4, 0xCE, 0x36, 0, 0x10, 0x20]));
    assert_eq!(mac_address_from_umac_info(&info[..100]), None);
}

#[test]
fn abort_scan_is_header_only() {
    let c = nrf70::control::abort_scan_command();
    assert_eq!(c.len(), 36);
    assert_eq!(u32_at(&c, 8), 50);
    assert_eq!(u32_at(&c, 16), 1);
}

#[test]
fn init_command_bodies() {
    let cmds = init_commands([1, 2, 3, 4, 5, 6]);
    assert_eq!(&cmds[1].payload[36..], &[1, 0, 0, 0, 0, 0, 0, 0]);
    assert_eq!(&cmds[2].payload[36..], &[0, 0, 0, 0]);
    assert_eq!(&cmds[3].payload[36..], &[0, 0, 0, 0, 0x01, 0x00, 0x5e, 0x00, 0x00, 0x01]);
    assert_eq!(&cmds[4].payload[36..44], &[0xD0, 0x00, 2, 0, 0, 0, 0x0a, 0x07]);
    assert_eq!(cmds[7].payload.len(), 36 + 4 + 64);
}
