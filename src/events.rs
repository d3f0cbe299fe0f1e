//! Decoding of the events the co-processor posts, and the rewrite of received
//! 802.11 data frames into Ethernet frames.
//!
//! Layouts, all little-endian. System event header: event (0), length (4).
//! UMAC header, 36 bytes: port id (0), sequence (4), event (8), return value
//! (12), index ids (16). Command status: command id (36), status (40).
//! Interface flags status: status (36). Data header: command (0), length (4).
//! Receive summary, 18 bytes: data header, packet type (8, 16 bits), interface
//! (10), packet count (11), reserved (12), MAC header length (13), frequency
//! (14), signal (16); then per packet, 5 bytes: descriptor (0, 16 bits),
//! length (2, 16 bits), packet kind (4).
use vstd::prelude::*;

use crate::eth::{
    eth_proto_spec, get_skip_header_bytes, get_type, le_u16, nrf_wifi_fmac_eth_hdr,
    nrf_wifi_fmac_ieee80211_hdr, skip_header_bytes_spec, ETH_HEADER_SIZE, FCTL_FROMDS, FCTL_TODS,
    IEEE80211_HEADER_SIZE,
};
use crate::firmware::{le_u32, read_le_u32};
use crate::net::NetworkBuffer;
use crate::Error;

verus! {

/// System event: initialisation finished.
pub const EVENT_INIT_DONE: u32 = 1;
/// System event: statistics.
pub const EVENT_STATS: u32 = 2;
/// UMAC event: a scan started.
pub const UMAC_EVENT_TRIGGER_SCAN_START: u32 = 257;
/// UMAC event: interface flags changed.
pub const UMAC_EVENT_IFFLAGS_STATUS: u32 = 275;
/// UMAC event: a command completed.
pub const UMAC_EVENT_CMD_STATUS: u32 = 292;
/// Data command: received buffers.
pub const DATA_CMD_RX_BUFF: u32 = 3;
/// Data command: carrier up.
pub const DATA_CMD_CARRIER_ON: u32 = 4;
/// Data command: carrier down.
pub const DATA_CMD_CARRIER_OFF: u32 = 5;
/// Received packet type: data.
pub const RX_PKT_DATA: u16 = 0;
/// Received packet type: beacon or probe response.
pub const RX_PKT_BCN_PRB_RSP: u16 = 1;
/// Data packet kind: a whole MPDU.
pub const PKT_TYPE_MPDU: u8 = 0;
/// Size of the system event header.
pub const SYS_HEAD_SIZE: usize = 8;
/// Size of the UMAC header.
pub const UMAC_HDR_SIZE: usize = 36;
/// Size of the data header.
pub const DATA_HEAD_SIZE: usize = 8;
/// Size of the receive summary.
pub const RX_SUMMARY_SIZE: usize = 18;
/// Size of one per-packet receive descriptor.
pub const RX_INFO_SIZE: usize = 5;

/// What an event asks of the pending action.
#[derive(Debug, Clone, Copy, PartialEq, Eq, Structural)]
pub enum EventAnswer {
    /// Nothing: the event is informational.
    NoAnswer,
    /// Complete it successfully, with no data.
    Done,
    /// Complete it successfully with the event payload as its data.
    Data,
    /// Complete it with an error.
    Failed(Error),
}

/// The answer to hand to the mailbox for an event with payload `p`.
pub open spec fn answer_spec(a: EventAnswer, p: Seq<u8>) -> Option<Result<Option<Seq<u8>>, Error>> {
    match a {
        EventAnswer::NoAnswer => None,
        EventAnswer::Done => Some(Ok(None)),
        EventAnswer::Data => Some(Ok(Some(p))),
        EventAnswer::Failed(e) => Some(Err(e)),
    }
}

/// The answer a system event gives: initialisation done completes the action,
/// statistics complete it with the payload; other events answer nothing.
pub open spec fn system_event_spec(p: Seq<u8>) -> EventAnswer {
    if p.len() < SYS_HEAD_SIZE {
        EventAnswer::NoAnswer
    } else if le_u32(p, 0) == EVENT_INIT_DONE {
        EventAnswer::Done
    } else if le_u32(p, 0) == EVENT_STATS {
        EventAnswer::Data
    } else {
        EventAnswer::NoAnswer
    }
}

/// The answer a UMAC event gives: command status and interface-flags status
/// complete the action, successfully for status zero and with the status as
/// an error code otherwise; other events answer nothing.
pub open spec fn umac_event_spec(p: Seq<u8>) -> EventAnswer {
    if p.len() < UMAC_HDR_SIZE {
        EventAnswer::NoAnswer
    } else if le_u32(p, 8) == UMAC_EVENT_CMD_STATUS {
        if p.len() < UMAC_HDR_SIZE + 8 {
            EventAnswer::NoAnswer
        } else if le_u32(p, 40) == 0 {
            EventAnswer::Done
        } else {
            EventAnswer::Failed(Error::Code(le_u32(p, 40) as i32))
        }
    } else if le_u32(p, 8) == UMAC_EVENT_IFFLAGS_STATUS {
        if p.len() < UMAC_HDR_SIZE + 4 {
            EventAnswer::NoAnswer
        } else if le_u32(p, 36) == 0 {
            EventAnswer::Done
        } else {
            EventAnswer::Failed(Error::Code(le_u32(p, 36) as i32))
        }
    } else {
        EventAnswer::NoAnswer
    }
}

/// Decodes a system event.
pub fn decode_system_event(p: &[u8]) -> (r: EventAnswer)
    ensures
        r == system_event_spec(p@),
{
    if p.len() < SYS_HEAD_SIZE {
        return EventAnswer::NoAnswer;
    }
    let event = read_le_u32(p, 0);
    if event == EVENT_INIT_DONE {
        EventAnswer::Done
    } else if event == EVENT_STATS {
        EventAnswer::Data
    } else {
        EventAnswer::NoAnswer
    }
}

/// Decodes a UMAC event.
pub fn decode_umac_event(p: &[u8]) -> (r: EventAnswer)
    ensures
        r == umac_event_spec(p@),
{
    if p.len() < UMAC_HDR_SIZE {
        return EventAnswer::NoAnswer;
    }
    let event = read_le_u32(p, 8);
    if event == UMAC_EVENT_CMD_STATUS {
        if p.len() < UMAC_HDR_SIZE + 8 {
            EventAnswer::NoAnswer
        } else {
            let status = read_le_u32(p, 40);
            if status == 0 {
                EventAnswer::Done
            } else {
                EventAnswer::Failed(Error::Code(status as i32))
            }
        }
    } else if event == UMAC_EVENT_IFFLAGS_STATUS {
        if p.len() < UMAC_HDR_SIZE + 4 {
            EventAnswer::NoAnswer
        } else {
            let status = read_le_u32(p, 36);
            if status == 0 {
                EventAnswer::Done
            } else {
                EventAnswer::Failed(Error::Code(status as i32))
            }
        }
    } else {
        EventAnswer::NoAnswer
    }
}

/// The kinds of data-domain events the driver acts on.
#[derive(Debug, Clone, Copy, PartialEq, Eq, Structural)]
pub enum DataEvent {
    CarrierOn,
    CarrierOff,
    RxBuffer,
}

/// What a data-domain event is: too short, one of the handled commands, or
/// `NotHandled` with its command word.
pub open spec fn data_event_spec(p: Seq<u8>) -> Result<DataEvent, Error> {
    if p.len() < DATA_HEAD_SIZE {
        Err(Error::BufferTooSmall)
    } else if le_u32(p, 0) == DATA_CMD_CARRIER_ON {
        Ok(DataEvent::CarrierOn)
    } else if le_u32(p, 0) == DATA_CMD_CARRIER_OFF {
        Ok(DataEvent::CarrierOff)
    } else if le_u32(p, 0) == DATA_CMD_RX_BUFF {
        Ok(DataEvent::RxBuffer)
    } else {
        Err(Error::NotHandled(le_u32(p, 0)))
    }
}

/// Decodes a data-domain event.
pub fn decode_data_event(p: &[u8]) -> (r: Result<DataEvent, Error>)
    ensures
        r == data_event_spec(p@),
{
    if p.len() < DATA_HEAD_SIZE {
        return Err(Error::BufferTooSmall);
    }
    let command = read_le_u32(p, 0);
    if command == DATA_CMD_CARRIER_ON {
        Ok(DataEvent::CarrierOn)
    } else if command == DATA_CMD_CARRIER_OFF {
        Ok(DataEvent::CarrierOff)
    } else if command == DATA_CMD_RX_BUFF {
        Ok(DataEvent::RxBuffer)
    } else {
        Err(Error::NotHandled(command))
    }
}

/// The summary of a received-buffers event.
#[derive(Debug, Clone, Copy, PartialEq, Eq, Structural)]
pub struct RxSummary {
    pub rx_pkt_type: u16,
    pub rx_pkt_cnt: u8,
    pub mac_header_len: u8,
    pub frequency: u16,
}

/// One received packet: its buffer, its length, its kind.
#[derive(Debug, Clone, Copy, PartialEq, Eq, Structural)]
pub struct RxBufferInfo {
    pub descriptor_id: u16,
    pub rx_pkt_len: u16,
    pub pkt_type: u8,
}

/// The per-packet descriptor `i` of a received-buffers event.
pub open spec fn rx_info_spec(p: Seq<u8>, i: int) -> RxBufferInfo {
    let o = RX_SUMMARY_SIZE + RX_INFO_SIZE * i;
    RxBufferInfo { descriptor_id: le_u16(p, o), rx_pkt_len: le_u16(p, o + 2), pkt_type: p[o + 4] }
}

fn read_u16(b: &[u8], o: usize) -> (r: u16)
    requires
        o + 2 <= b@.len(),
    ensures
        r == le_u16(b@, o as int),
{
    b[o] as u16 + b[o + 1] as u16 * 0x100
}

/// Reads the summary and the per-packet descriptors of a received-buffers
/// event. Fails with `BufferTooSmall` when the payload is shorter than the
/// summary and the descriptors it announces.
pub fn parse_rx_buffer(p: &[u8]) -> (r: Result<(RxSummary, Vec<RxBufferInfo>), Error>)
    ensures
        p@.len() < RX_SUMMARY_SIZE ==> r == Err::<(RxSummary, Vec<RxBufferInfo>), Error>(Error::BufferTooSmall),
        p@.len() >= RX_SUMMARY_SIZE ==> {
            let cnt = p@[11] as int;
            &&& (p@.len() < RX_SUMMARY_SIZE + RX_INFO_SIZE * cnt <==> r is Err)
            &&& (r is Err ==> r == Err::<(RxSummary, Vec<RxBufferInfo>), Error>(Error::BufferTooSmall))
            &&& (r matches Ok((s, infos)) ==> {
                &&& s.rx_pkt_type == le_u16(p@, 8)
                &&& s.rx_pkt_cnt == p@[11]
                &&& s.mac_header_len == p@[13]
                &&& s.frequency == le_u16(p@, 14)
                &&& infos@.len() == cnt
                &&& forall|i: int| 0 <= i < cnt ==> #[trigger] infos@[i] == rx_info_spec(p@, i)
            })
        },
{
    if p.len() < RX_SUMMARY_SIZE {
        return Err(Error::BufferTooSmall);
    }
    let summary = RxSummary {
        rx_pkt_type: read_u16(p, 8),
        rx_pkt_cnt: p[11],
        mac_header_len: p[13],
        frequency: read_u16(p, 14),
    };
    let cnt = summary.rx_pkt_cnt as usize;
    if p.len() - RX_SUMMARY_SIZE < RX_INFO_SIZE * cnt {
        return Err(Error::BufferTooSmall);
    }
    let mut infos: Vec<RxBufferInfo> = Vec::new();
    let mut i: usize = 0;
    while i < cnt
        invariant
            0 <= i <= cnt,
            cnt == p@[11] as int,
            RX_SUMMARY_SIZE + RX_INFO_SIZE * cnt <= p@.len(),
            infos@.len() == i,
            forall|k: int| 0 <= k < i ==> #[trigger] infos@[k] == rx_info_spec(p@, k),
        decreases cnt - i,
    {
        let o = RX_SUMMARY_SIZE + RX_INFO_SIZE * i;
        infos.push(RxBufferInfo { descriptor_id: read_u16(p, o), rx_pkt_len: read_u16(p, o + 2), pkt_type: p[o + 4] });
        i = i + 1;
    }
    Ok((summary, infos))
}

/// The source and destination addresses of the Ethernet frame made from the
/// 802.11 frame `d`, by the to-DS and from-DS bits of its frame control.
pub open spec fn frame_addresses_spec(d: Seq<u8>) -> (Seq<u8>, Seq<u8>) {
    let fc = le_u16(d, 0);
    let to_ds = fc & FCTL_TODS != 0;
    let from_ds = fc & FCTL_FROMDS != 0;
    let a1 = d.subrange(4, 10);
    let a2 = d.subrange(10, 16);
    let a3 = d.subrange(16, 22);
    let a4 = d.subrange(24, 30);
    if to_ds && from_ds {
        (a4, a1)
    } else if from_ds {
        (a3, a1)
    } else if to_ds {
        (a2, a3)
    } else {
        (a2, a1)
    }
}

/// The Ethernet frame made from the 802.11 data frame `d` whose MAC header is
/// `mac` bytes long: destination, source, type field, then the payload after
/// the encapsulation header.
pub open spec fn mpdu_frame_spec(d: Seq<u8>, mac: int) -> Result<Seq<u8>, Error> {
    if d.len() < IEEE80211_HEADER_SIZE || d.len() < mac + 8 {
        Err(Error::BufferTooSmall)
    } else {
        let eth_type = (d[mac + 6] as int * 0x100 + d[mac + 7] as int) as u16;
        let header_size = mac + skip_header_bytes_spec(eth_type);
        if header_size < ETH_HEADER_SIZE || header_size > d.len() {
            Err(Error::BufferTooSmall)
        } else {
            let proto = eth_proto_spec((d.len() - header_size) as u16, eth_type);
            let (src, dst) = frame_addresses_spec(d);
            Ok(dst + src + seq![(proto % 0x100) as u8, (proto / 0x100) as u8] + d.subrange(header_size, d.len() as int))
        }
    }
}

/// Rewrites a received 802.11 data frame into an Ethernet frame in place: the
/// head room is moved past the 802.11 header and the encapsulation, and an
/// Ethernet header is written in front of the payload.
pub fn mpdu_to_ethernet(d: &[u8], mac_header_length: usize) -> (r: Result<Vec<u8>, Error>)
    requires
        mac_header_length < 0x100,
    ensures
        match (r, mpdu_frame_spec(d@, mac_header_length as int)) {
            (Ok(f), Ok(g)) => f@ == g,
            (Err(e), Err(g)) => e == g,
            _ => false,
        },
{
    let len = d.len();
    if len < IEEE80211_HEADER_SIZE || len < mac_header_length + 8 {
        return Err(Error::BufferTooSmall);
    }
    let header = nrf_wifi_fmac_ieee80211_hdr::from_bytes(d);
    let eth_type = get_type(&[d[mac_header_length + 6], d[mac_header_length + 7]]);
    let header_size = mac_header_length + get_skip_header_bytes(eth_type);
    if header_size < ETH_HEADER_SIZE || header_size > len {
        return Err(Error::BufferTooSmall);
    }
    let mut network_buffer = NetworkBuffer::new(vstd::slice::slice_to_vec(d), len);
    let moved = network_buffer.increase_head_room(header_size - ETH_HEADER_SIZE);
    if moved.is_err() {
        return Err(Error::BufferOverflow);
    }
    let data_length = (len - header_size) as u16;
    let eth_header = nrf_wifi_fmac_eth_hdr::new(data_length, &header, eth_type);
    let eth_bytes = eth_header.to_bytes();
    network_buffer.write_data(0, eth_bytes.as_slice());
    let frame = vstd::slice::slice_to_vec(network_buffer.get_data());
    proof {
        let (src, dst) = frame_addresses_spec(d@);
        assert(header.addr_1@ =~= d@.subrange(4, 10));
        assert(eth_header.src@ == src && eth_header.dst@ == dst);
        assert(d@.subrange(header_size - ETH_HEADER_SIZE, len as int).subrange(ETH_HEADER_SIZE as int, (len - header_size + ETH_HEADER_SIZE) as int)
            =~= d@.subrange(header_size as int, len as int));
    }
    Ok(frame)
}

} // verus!
