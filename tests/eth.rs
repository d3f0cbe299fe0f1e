use nrf70::eth::{get_skip_header_bytes, get_type, nrf_wifi_fmac_eth_hdr, nrf_wifi_fmac_ieee80211_hdr};
use nrf70::events::mpdu_to_ethernet;
use nrf70::net::NetworkBuffer;
use nrf70::Error;

fn header(fc: u16) -> nrf_wifi_fmac_ieee80211_hdr {
    nrf_wifi_fmac_ieee80211_hdr {
        fc,
        dur_id: 0,
        addr_1: [1; 6],
        addr_2: [2; 6],
        addr_3: [3; 6],
        seq_ctrl: 0,
        addr_4: [4; 6],
    }
}

#[test]
fn address_mapping_follows_ds_bits() {
    // (to-DS, from-DS) = (1, 1): src addr4, dst addr1
    let h = nrf_wifi_fmac_eth_hdr::new(0, &header(0x0300), 0x0800);
    assert_eq!((h.src, h.dst), ([4; 6], [1; 6]));
    // (0, 1): src addr3, dst addr1
    let h = nrf_wifi_fmac_eth_hdr::new(0, &header(0x0200), 0x0800);
    assert_eq!((h.src, h.dst), ([3; 6], [1; 6]));
    // (1, 0): src addr2, dst addr3
    let h = nrf_wifi_fmac_eth_hdr::new(0, &header(0x0100), 0x0800);
    assert_eq!((h.src, h.dst), ([2; 6], [3; 6]));
    // (0, 0): src addr2, dst addr1
    let h = nrf_wifi_fmac_eth_hdr::new(0, &header(0x0008), 0x0800);
    assert_eq!((h.src, h.dst), ([2; 6], [1; 6]));
}

#[test]
fn type_field_is_swapped_or_length() {
    let h = nrf_wifi_fmac_eth_hdr::new(77, &header(0), 0x0800);
    assert_eq!(h.proto, 0x0008);
    assert_eq!(h.to_bytes()[12..], [0x08, 0x00]);
    let h = nrf_wifi_fmac_eth_hdr::new(77, &header(0), 0x0100);
    assert_eq!(h.proto, 77);
}

#[test]
fn skip_length_by_ether_type() {
    assert_eq!(get_skip_header_bytes(0x0000), 2);
    assert_eq!(get_skip_header_bytes(0x05FF), 2);
    assert_eq!(get_skip_header_bytes(0x80F3), 8);
    assert_eq!(get_skip_header_bytes(0x8137), 8);
    assert_eq!(get_skip_header_bytes(0x0600), 8);
    assert_eq!(get_skip_header_bytes(0x86DD), 8);
}

#[test]
fn type_is_big_endian() {
    assert_eq!(get_type(&[0x08, 0x06]), 0x0806);
}

#[test]
fn header_reads_from_bytes() {
    let mut b = vec![0u8; 30];
    b[0] = 0x08;
    b[1] = 0x02;
    for i in 0..6 {
        b[4 + i] = 0xA0 + i as u8;
        b[24 + i] = 0xD0 + i as u8;
    }
    let h = nrf_wifi_fmac_ieee80211_hdr::from_bytes(&b);
    assert_eq!(h.fc, 0x0208);
    assert_eq!(h.addr_1, [0xA0, 0xA1, 0xA2, 0xA3, 0xA4, 0xA5]);
    assert_eq!(h.addr_4, [0xD0, 0xD1, 0xD2, 0xD3, 0xD4, 0xD5]);
}

#[test]
fn mpdu_becomes_ethernet_frame() {
    // 24-byte 802.11 header (from-DS), LLC/SNAP, EtherType IPv4, payload.
    let mut d = vec![0u8; 30];
    d[1] = 0x02;
    for i in 0..6 {
        d[4 + i] = 0x11;
        d[10 + i] = 0x22;
        d[16 + i] = 0x33;
    }
    d.truncate(24);
    d.extend_from_slice(&[0xAA, 0xAA, 0x03, 0x00, 0x00, 0x00, 0x08, 0x00]);
    d.extend_from_slice(&[9, 8, 7, 6, 5, 4]);
    let f = mpdu_to_ethernet(&d, 24).unwrap();
    assert_eq!(f.len(), 14 + 6);
    assert_eq!(&f[0..6], &[0x11; 6]);
    assert_eq!(&f[6..12], &[0x33; 6]);
    assert_eq!(&f[12..14], &[0x08, 0x00]);
    assert_eq!(&f[14..], &[9, 8, 7, 6, 5, 4]);
}

#[test]
fn short_mpdu_is_rejected() {
    assert_eq!(mpdu_to_ethernet(&[0u8; 20], 24).err(), Some(Error::BufferTooSmall));
}

#[test]
fn network_buffer_moves_head_room() {
    let mut nb = NetworkBuffer::new((0u8..10).collect(), 8);
    assert_eq!(nb.get_data(), &[0, 1, 2, 3, 4, 5, 6, 7]);
    assert_eq!(nb.increase_head_room(3), Ok(()));
    assert_eq!(nb.get_data(), &[3, 4, 5, 6, 7]);
    assert_eq!(nb.get(0), 3);
    assert_eq!(nb.increase_head_room(6), Err(Error::BufferOverflow));
    assert_eq!(nb.increase_data_area(2), Ok(()));
    assert_eq!(nb.get_data(), &[1, 2, 3, 4, 5, 6, 7]);
    assert_eq!(nb.increase_data_area(2), Err(Error::BufferOverflow));
    nb.write_data(1, &[0xEE, 0xFF]);
    assert_eq!(nb.get_data(), &[1, 0xEE, 0xFF, 4, 5, 6, 7]);
}
