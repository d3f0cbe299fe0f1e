//! Rewriting of 802.11 headers of received data frames into Ethernet headers.
use vstd::prelude::*;

verus! {

/// EtherType of AppleTalk ARP, carried behind a bridge-tunnel header.
pub const ETH_P_AARP: u16 = 0x80F3;
/// EtherType of IPX, carried behind a bridge-tunnel header.
pub const ETH_P_IPX: u16 = 0x8137;
/// Smallest value of the type field that is an EtherType rather than a length.
pub const ETH_P_802_3_MIN: u16 = 0x0600;
/// Frame-control bit: the frame goes to the distribution system.
pub const FCTL_TODS: u16 = 0x0100;
/// Frame-control bit: the frame comes from the distribution system.
pub const FCTL_FROMDS: u16 = 0x0200;
/// Size of an Ethernet II header.
pub const ETH_HEADER_SIZE: usize = 14;
/// Size of a four-address 802.11 header.
pub const IEEE80211_HEADER_SIZE: usize = 30;
/// Size of an LLC/SNAP header.
pub const SNAP_HEADER_SIZE: usize = 6;

/// Reads a big-endian 16-bit type field.
pub fn get_type(buffer: &[u8; 2]) -> (r: u16)
    ensures
        r == buffer@[0] as int * 0x100 + buffer@[1] as int,
{
    buffer[0] as u16 * 0x100 + buffer[1] as u16
}

/// The number of bytes that precede the payload after the 802.11 header.
pub open spec fn skip_header_bytes_spec(eth_type: u16) -> usize {
    if eth_type == ETH_P_AARP || eth_type == ETH_P_IPX {
        (2 + SNAP_HEADER_SIZE) as usize
    } else if eth_type >= ETH_P_802_3_MIN {
        (2 + SNAP_HEADER_SIZE) as usize
    } else {
        2
    }
}

/// How many bytes to skip past the 802.11 header to reach the payload: the
/// 2-byte type field, plus the 6-byte bridge-tunnel or LLC/SNAP header that
/// precedes it when the field is an EtherType.
pub fn get_skip_header_bytes(eth_type: u16) -> (r: usize)
    ensures
        r == skip_header_bytes_spec(eth_type),
        eth_type < ETH_P_802_3_MIN ==> r == 2,
        eth_type >= ETH_P_802_3_MIN ==> r == 8,
{
    let mut skip_header_bytes: usize = 2;
    if eth_type == ETH_P_AARP || eth_type == ETH_P_IPX {
        skip_header_bytes = skip_header_bytes + SNAP_HEADER_SIZE;
    } else if eth_type >= ETH_P_802_3_MIN {
        skip_header_bytes = skip_header_bytes + SNAP_HEADER_SIZE;
    }
    skip_header_bytes
}

/// A four-address 802.11 MAC header.
#[allow(non_camel_case_types)]
#[derive(Debug, Clone, Copy, PartialEq, Eq)]
pub struct nrf_wifi_fmac_ieee80211_hdr {
    pub fc: u16,
    pub dur_id: u16,
    pub addr_1: [u8; 6],
    pub addr_2: [u8; 6],
    pub addr_3: [u8; 6],
    pub seq_ctrl: u16,
    pub addr_4: [u8; 6],
}

/// An Ethernet II header.
#[allow(non_camel_case_types)]
#[derive(Debug, Clone, Copy, PartialEq, Eq)]
pub struct nrf_wifi_fmac_eth_hdr {
    pub dst: [u8; 6],
    pub src: [u8; 6],
    pub proto: u16,
}

/// The little-endian 16-bit value at byte offset `o` of `b`.
pub open spec fn le_u16(b: Seq<u8>, o: int) -> u16 {
    (b[o] as int + b[o + 1] as int * 0x100) as u16
}

fn read_le_u16(b: &[u8], o: usize) -> (r: u16)
    requires
        o + 2 <= b@.len(),
    ensures
        r == le_u16(b@, o as int),
{
    b[o] as u16 + b[o + 1] as u16 * 0x100
}

fn read_mac(b: &[u8], o: usize) -> (r: [u8; 6])
    requires
        o + 6 <= b@.len(),
    ensures
        r@ == b@.subrange(o as int, o + 6),
{
    let r = [b[o], b[o + 1], b[o + 2], b[o + 3], b[o + 4], b[o + 5]];
    assert(r@ =~= b@.subrange(o as int, o + 6));
    r
}

impl nrf_wifi_fmac_ieee80211_hdr {
    /// Reads the header from the start of a frame. Offsets: frame control 0,
    /// duration 2, address 1 at 4, address 2 at 10, address 3 at 16, sequence
    /// control 22, address 4 at 24; 16-bit fields little-endian.
    pub fn from_bytes(b: &[u8]) -> (r: nrf_wifi_fmac_ieee80211_hdr)
        requires
            b@.len() >= IEEE80211_HEADER_SIZE,
        ensures
            r.fc == le_u16(b@, 0),
            r.dur_id == le_u16(b@, 2),
            r.addr_1@ == b@.subrange(4, 10),
            r.addr_2@ == b@.subrange(10, 16),
            r.addr_3@ == b@.subrange(16, 22),
            r.seq_ctrl == le_u16(b@, 22),
            r.addr_4@ == b@.subrange(24, 30),
    {
        nrf_wifi_fmac_ieee80211_hdr {
            fc: read_le_u16(b, 0),
            dur_id: read_le_u16(b, 2),
            addr_1: read_mac(b, 4),
            addr_2: read_mac(b, 10),
            addr_3: read_mac(b, 16),
            seq_ctrl: read_le_u16(b, 22),
            addr_4: read_mac(b, 24),
        }
    }
}

/// The type field of the Ethernet header: the EtherType with its two bytes
/// swapped for the wire, or the payload length for an 802.3 frame.
pub open spec fn eth_proto_spec(data_size: u16, eth_type: u16) -> u16 {
    if eth_type >= ETH_P_802_3_MIN {
        ((eth_type % 0x100) * 0x100 + eth_type / 0x100) as u16
    } else {
        data_size
    }
}

/// The (source, destination) addresses an Ethernet header takes from an
/// 802.11 header, by its to-DS and from-DS bits.
pub open spec fn eth_addresses_spec(h: nrf_wifi_fmac_ieee80211_hdr) -> ([u8; 6], [u8; 6]) {
    let to_ds = h.fc & FCTL_TODS != 0;
    let from_ds = h.fc & FCTL_FROMDS != 0;
    if to_ds && from_ds {
        (h.addr_4, h.addr_1)
    } else if from_ds {
        (h.addr_3, h.addr_1)
    } else if to_ds {
        (h.addr_2, h.addr_3)
    } else {
        (h.addr_2, h.addr_1)
    }
}

impl nrf_wifi_fmac_eth_hdr {
    /// Builds the Ethernet header of a received 802.11 data frame.
    pub fn new(data_size: u16, header: &nrf_wifi_fmac_ieee80211_hdr, eth_type: u16) -> (r: nrf_wifi_fmac_eth_hdr)
        ensures
            (r.src, r.dst) == eth_addresses_spec(*header),
            r.proto == eth_proto_spec(data_size, eth_type),
    {
        let proto: u16 = if eth_type >= ETH_P_802_3_MIN {
            (eth_type % 0x100) * 0x100 + eth_type / 0x100
        } else {
            data_size
        };
        let to_ds = header.fc & FCTL_TODS != 0;
        let from_ds = header.fc & FCTL_FROMDS != 0;
        if to_ds && from_ds {
            nrf_wifi_fmac_eth_hdr { src: header.addr_4, dst: header.addr_1, proto }
        } else if from_ds {
            nrf_wifi_fmac_eth_hdr { src: header.addr_3, dst: header.addr_1, proto }
        } else if to_ds {
            nrf_wifi_fmac_eth_hdr { src: header.addr_2, dst: header.addr_3, proto }
        } else {
            nrf_wifi_fmac_eth_hdr { src: header.addr_2, dst: header.addr_1, proto }
        }
    }

    /// The 14 bytes of the header: destination, source, then the type field
    /// as it lies in memory (low byte first).
    pub fn to_bytes(&self) -> (r: Vec<u8>)
        ensures
            r@ == self.dst@ + self.src@ + seq![(self.proto % 0x100) as u8, (self.proto / 0x100) as u8],
    {
        let mut r: Vec<u8> = Vec::new();
        let mut i: usize = 0;
        while i < 6
            invariant
                0 <= i <= 6,
                r@ == self.dst@.subrange(0, i as int),
            decreases 6 - i,
        {
            r.push(self.dst[i]);
            i = i + 1;
            assert(r@ =~= self.dst@.subrange(0, i as int));
        }
        let mut j: usize = 0;
        while j < 6
            invariant
                0 <= j <= 6,
                r@ == self.dst@ + self.src@.subrange(0, j as int),
            decreases 6 - j,
        {
            r.push(self.src[j]);
            j = j + 1;
            assert(r@ =~= self.dst@ + self.src@.subrange(0, j as int));
        }
        r.push((self.proto % 0x100) as u8);
        r.push((self.proto / 0x100) as u8);
        assert(r@ =~= self.dst@ + self.src@ + seq![(self.proto % 0x100) as u8, (self.proto / 0x100) as u8]);
        r
    }
}

} // verus!
