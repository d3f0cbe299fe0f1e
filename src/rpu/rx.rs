//! The receive pipeline and event dispatch of the co-processor handle.
use vstd::prelude::*;
use vstd::slice::slice_subrange;

use super::{
    bus_address_spec, global_access_ok, rx_buffer_address_spec, word_reads, ReceiveBuffer, Rpu, RX_BUFS, RX_BUF_HEADROOM, RX_MAX_DATA_SIZE,
};
use crate::bus::{words_bytes_spec, words_to_bytes, Bus};
use crate::commands::zeros;
use crate::commands::MessageDomain;
use crate::Error;
use crate::action::{respond_spec, ActionState, ActionView};
use crate::eth::le_u16;
use crate::events::{
    answer_spec, mpdu_frame_spec, rx_info_spec, RX_INFO_SIZE, RX_SUMMARY_SIZE, decode_data_event, decode_system_event, decode_umac_event, mpdu_to_ethernet, parse_rx_buffer,
    system_event_spec, umac_event_spec, DataEvent, EventAnswer, PKT_TYPE_MPDU, RX_PKT_BCN_PRB_RSP, RX_PKT_DATA,
};

verus! {

/// The mailbox after an event's answer, if it has one.
pub open spec fn apply_answer<'a>(v: ActionView<'a>, a: EventAnswer, p: Seq<u8>) -> ActionView<'a> {
    match answer_spec(a, p) {
        Some(r) => respond_spec(v, r),
        None => v,
    }
}

/// The word values of the reads logged after the first `n`.
pub open spec fn new_words(reads: Seq<(u32, u32)>, n: nat) -> Seq<u32> {
    reads.subrange(n as int, reads.len() as int).map_values(|x: (u32, u32)| x.1)
}

/// The bytes of packet `i` of a received-buffers event `p`, given the words
/// `w` read for it.
pub open spec fn packet_bytes(p: Seq<u8>, w: Seq<u32>, i: int) -> Seq<u8> {
    words_bytes_spec(w).subrange(0, rx_info_spec(p, i).rx_pkt_len as int)
}

/// The reads made for the first `n` packets of `p`, given the words `ws`
/// read for each: the data of each packet's buffer, after its header word.
pub open spec fn rx_reads(p: Seq<u8>, ws: Seq<Seq<u32>>, n: nat) -> Seq<(u32, u32)>
    decreases n,
{
    if n == 0 {
        Seq::empty()
    } else {
        let i = n - 1;
        rx_reads(p, ws, i as nat) + word_reads(
            bus_address_spec((rx_buffer_address_spec(rx_info_spec(p, i).descriptor_id as int) + RX_BUF_HEADROOM) as u32, None),
            ws[i],
        )
    }
}

/// The Ethernet frames the first `n` packets of `p` yield: one for each
/// MPDU of a data event, rewritten from the packet's bytes.
pub open spec fn rx_frames(p: Seq<u8>, ws: Seq<Seq<u32>>, n: nat) -> Seq<Seq<u8>>
    decreases n,
{
    if n == 0 {
        Seq::empty()
    } else {
        let i = n - 1;
        let prev = rx_frames(p, ws, i as nat);
        if le_u16(p, 8) == RX_PKT_DATA && rx_info_spec(p, i).pkt_type == PKT_TYPE_MPDU {
            prev.push(mpdu_frame_spec(packet_bytes(p, ws[i], i), p[13] as int)->Ok_0)
        } else {
            prev
        }
    }
}

/// Every packet of `p` among the first `n` names a buffer of the pool and
/// fits it, and a data packet's frame rewrite succeeds.
pub open spec fn rx_packets_ok(p: Seq<u8>, ws: Seq<Seq<u32>>, n: nat) -> bool {
    forall|i: int| 0 <= i < n ==> {
        &&& (#[trigger] rx_info_spec(p, i)).descriptor_id < RX_BUFS
        &&& rx_info_spec(p, i).rx_pkt_len <= RX_MAX_DATA_SIZE
        &&& (le_u16(p, 8) == RX_PKT_DATA && rx_info_spec(p, i).pkt_type == PKT_TYPE_MPDU ==> mpdu_frame_spec(
            packet_bytes(p, ws[i], i),
            p[13] as int,
        ) is Ok)
    }
}

proof fn lemma_rx_prefix(p: Seq<u8>, ws: Seq<Seq<u32>>, longer: Seq<Seq<u32>>, n: nat)
    requires
        ws.len() == n,
        longer.len() > n,
        longer.subrange(0, n as int) =~= ws,
    ensures
        rx_reads(p, ws, n) == rx_reads(p, longer, n),
        rx_frames(p, ws, n) == rx_frames(p, longer, n),
        rx_packets_ok(p, ws, n) == rx_packets_ok(p, longer, n),
    decreases n,
{
    if n > 0 {
        lemma_rx_prefix(p, ws.subrange(0, n - 1), longer, (n - 1) as nat);
        lemma_rx_prefix(p, ws.subrange(0, n - 1), ws, (n - 1) as nat);
        assert(ws[n - 1] == longer[n - 1]);
    }
    assert forall|i: int| 0 <= i < n implies ws[i] == longer[i] by {
        assert(longer.subrange(0, n as int)[i] == longer[i]);
    }
}

/// `new` is `old` followed by frames whose bytes are `fr`.
pub open spec fn frames_appended(old: Seq<Vec<u8>>, new: Seq<Vec<u8>>, fr: Seq<Seq<u8>>) -> bool {
    &&& new.len() == old.len() + fr.len()
    &&& forall|j: int| 0 <= j < old.len() ==> #[trigger] new[j] == old[j]
    &&& forall|j: int| 0 <= j < fr.len() ==> (#[trigger] new[old.len() + j])@ == fr[j]
}

/// Where the data of the receive buffer with descriptor `d` starts.
pub open spec fn rx_data_address(d: int) -> u32 {
    (rx_buffer_address_spec(d) + RX_BUF_HEADROOM) as u32
}

/// Packet `i` of `p` cannot be received: its descriptor names no buffer of
/// the pool, its length exceeds a buffer, or its data does not lie inside
/// the bus window of the buffer.
pub open spec fn rx_packet_unfit(p: Seq<u8>, i: int) -> bool {
    let info = rx_info_spec(p, i);
    ||| info.descriptor_id >= RX_BUFS
    ||| info.rx_pkt_len > RX_MAX_DATA_SIZE
    ||| !global_access_ok(rx_data_address(info.descriptor_id as int), None, (info.rx_pkt_len + 3) / 4)
}

/// The reasons a received-buffers event `p` fails, the read log going from
/// `r0` to `r1`: the payload is shorter than its summary and descriptors; the
/// packet type is neither data nor beacon while there are packets; a packet
/// cannot be received; or, after the reads for the packets up to an MPDU,
/// that MPDU's frame rewrite fails.
pub open spec fn rx_failure(p: Seq<u8>, r0: Seq<(u32, u32)>, r1: Seq<(u32, u32)>) -> bool {
    ||| p.len() < RX_SUMMARY_SIZE
    ||| p.len() < RX_SUMMARY_SIZE + RX_INFO_SIZE * p[11]
    ||| (p[11] > 0 && le_u16(p, 8) != RX_PKT_DATA && le_u16(p, 8) != RX_PKT_BCN_PRB_RSP)
    ||| exists|i: int| 0 <= i < p[11] && #[trigger] rx_packet_unfit(p, i)
    ||| exists|ws: Seq<Seq<u32>>|
        #![trigger rx_reads(p, ws, ws.len())]
        {
            let i = ws.len() - 1;
            &&& 0 < ws.len() <= p[11]
            &&& r1 == r0 + rx_reads(p, ws, ws.len())
            &&& le_u16(p, 8) == RX_PKT_DATA
            &&& rx_info_spec(p, i).pkt_type == PKT_TYPE_MPDU
            &&& mpdu_frame_spec(packet_bytes(p, ws[i], i), p[13] as int) is Err
        }
}

/// Hands an event's answer to the mailbox.
pub fn respond_with(actions: &mut ActionState, answer: EventAnswer, payload: &[u8])
    ensures
        final(actions)@ == apply_answer(old(actions)@, answer, payload@),
{
    match answer {
        EventAnswer::NoAnswer => {},
        EventAnswer::Done => actions.respond(Ok(None)),
        EventAnswer::Data => actions.respond(Ok(Some(payload))),
        EventAnswer::Failed(e) => actions.respond(Err(e)),
    }
}

/// The mailbox after an event of domain word `t` with payload `p`: system and
/// UMAC events may answer the pending action; other domains never do.
pub open spec fn event_effect_spec<'a>(v: ActionView<'a>, t: u32, p: Seq<u8>) -> ActionView<'a> {
    if t == 0 {
        apply_answer(v, system_event_spec(p), p)
    } else if t == 3 {
        apply_answer(v, umac_event_spec(p), p)
    } else {
        v
    }
}

impl<B: Bus> Rpu<B> {
    /// The index in the pool of the buffer with descriptor `descriptor_identifier`;
    /// `NotFound` when there is none.
    pub fn descriptor_idenitfier_to_indicies(&self, descriptor_identifier: usize) -> (r: Result<usize, Error>)
        requires
            self.pool_wf(),
        ensures
            descriptor_identifier < RX_BUFS ==> r == Ok::<usize, Error>(descriptor_identifier),
            descriptor_identifier >= RX_BUFS ==> r == Err::<usize, Error>(Error::NotFound),
    {
        let mut i: usize = 0;
        while i < self.receive_buffers.len()
            invariant
                self.pool_wf(),
                0 <= i <= RX_BUFS,
                i <= descriptor_identifier,
            decreases RX_BUFS - i,
        {
            if self.receive_buffers[i].descriptor_identifier == descriptor_identifier {
                return Ok(i);
            }
            i = i + 1;
        }
        Err(Error::NotFound)
    }

    /// The local copy of the receive buffer with descriptor `descriptor_identifier`.
    pub fn get_cached_receive_buffer_slice(&self, descriptor_identifier: usize) -> (r: Result<&[u8], Error>)
        requires
            self.pool_wf(),
        ensures
            descriptor_identifier >= RX_BUFS ==> r == Err::<&[u8], Error>(Error::NotFound),
            descriptor_identifier < RX_BUFS ==> (r matches Ok(d) && d@.len() == RX_MAX_DATA_SIZE
                && d@ == self.buffer_data(descriptor_identifier as int)),
    {
        let i = self.descriptor_idenitfier_to_indicies(descriptor_identifier)?;
        Ok(self.receive_buffers[i].data.as_slice())
    }

    /// Refreshes the local copy of a receive buffer with its first `size`
    /// bytes from co-processor memory; the rest of the copy is cleared. Fails
    /// with `NotFound` for an unknown descriptor and `BufferOverflow` when
    /// `size` exceeds the buffer.
    pub fn update_cached_receive_buffer(&mut self, descriptor_identifier: usize, size: usize) -> (r: Result<(), Error>)
        requires
            old(self).pool_wf(),
        ensures
            final(self).writes() == old(self).writes(),
            final(self).pool_wf(),
            final(self).queues_spec() == old(self).queues_spec(),
            final(self).rx_command_base_spec() == old(self).rx_command_base_spec(),
            final(self).num_commands_spec() == old(self).num_commands_spec(),
            descriptor_identifier >= RX_BUFS ==> r == Err::<(), Error>(Error::NotFound),
            descriptor_identifier < RX_BUFS && size > RX_MAX_DATA_SIZE ==> r == Err::<(), Error>(Error::BufferOverflow),
            r is Err ==> r == Err::<(), Error>(Error::NotFound) || r == Err::<(), Error>(Error::BufferOverflow)
                || r == Err::<(), Error>(Error::InvalidAddress),
            r == Err::<(), Error>(Error::NotFound) ==> descriptor_identifier >= RX_BUFS,
            r == Err::<(), Error>(Error::BufferOverflow) ==> size > RX_MAX_DATA_SIZE,
            r == Err::<(), Error>(Error::InvalidAddress) ==> !global_access_ok(
                rx_data_address(descriptor_identifier as int),
                None,
                (size + 3) / 4,
            ),
            descriptor_identifier < RX_BUFS && size <= RX_MAX_DATA_SIZE && global_access_ok(
                rx_data_address(descriptor_identifier as int),
                None,
                (size + 3) / 4,
            ) ==> r is Ok,
            r is Ok ==> descriptor_identifier < RX_BUFS && size <= RX_MAX_DATA_SIZE && ({
                let w = new_words(final(self).reads(), old(self).reads().len());
                let base = bus_address_spec((rx_buffer_address_spec(descriptor_identifier as int) + RX_BUF_HEADROOM) as u32, None);
                &&& w.len() == (size + 3) / 4
                &&& final(self).reads() == old(self).reads() + word_reads(base, w)
                &&& final(self).buffer_data(descriptor_identifier as int) == words_bytes_spec(w) + zeros(
                    RX_MAX_DATA_SIZE - 4 * w.len(),
                )
                &&& forall|e: int| 0 <= e < RX_BUFS && e != descriptor_identifier ==> #[trigger] final(self).buffer_data(e)
                    == old(self).buffer_data(e)
            }),
    {
        let i = self.descriptor_idenitfier_to_indicies(descriptor_identifier)?;
        if size > RX_MAX_DATA_SIZE {
            return Err(Error::BufferOverflow);
        }
        let rpu_address = self.receive_buffers[i].rpu_address;
        let ghost before = self.reads();
        let words = self.read_buffer(rpu_address + RX_BUF_HEADROOM, None, (size + 3) / 4)?;
        let mut data = words_to_bytes(words.as_slice());
        let fill = RX_MAX_DATA_SIZE - data.len();
        crate::commands::push_zeros(&mut data, fill);
        self.receive_buffers.set(i, ReceiveBuffer { rpu_address, descriptor_identifier, data });
        proof {
            let base = bus_address_spec((rx_buffer_address_spec(descriptor_identifier as int) + RX_BUF_HEADROOM) as u32, None);
            assert(self.reads().subrange(before.len() as int, self.reads().len() as int) =~= word_reads(base, words@));
            assert(new_words(self.reads(), before.len()) =~= words@);
        }
        Ok(())
    }

    /// Handles a received-buffers event: refreshes each announced buffer and
    /// turns each 802.11 data frame among them into an Ethernet frame. Other
    /// data kinds and beacons yield no frame; an unknown packet type fails
    /// with `NotHandled`.
    pub fn handle_rx_buffer(&mut self, payload: &[u8], frames: &mut Vec<Vec<u8>>) -> (r: Result<(), Error>)
        requires
            old(self).pool_wf(),
        ensures
            final(self).writes() == old(self).writes(),
            final(self).pool_wf(),
            final(self).queues_spec() == old(self).queues_spec(),
            final(self).rx_command_base_spec() == old(self).rx_command_base_spec(),
            final(self).num_commands_spec() == old(self).num_commands_spec(),
            payload@.len() < crate::events::RX_SUMMARY_SIZE ==> r == Err::<(), Error>(Error::BufferTooSmall)
                && *final(self) == *old(self) && final(frames)@ == old(frames)@,
            r is Err ==> rx_failure(payload@, old(self).reads(), final(self).reads()),
            r is Err ==> exists|ws: Seq<Seq<u32>>|
                #![trigger rx_frames(payload@, ws, ws.len())]
                frames_appended(old(frames)@, final(frames)@, rx_frames(payload@, ws, ws.len())),
            r == Err::<(), Error>(Error::NotFound) ==> exists|i: int|
                0 <= i < payload@[11] && #[trigger] rx_info_spec(payload@, i).descriptor_id >= RX_BUFS,
            r matches Err(Error::NotHandled(t)) ==> t == le_u16(payload@, 8) && t != RX_PKT_DATA && t != RX_PKT_BCN_PRB_RSP
                && payload@[11] > 0,
            r is Ok ==> exists|ws: Seq<Seq<u32>>|
                #![trigger rx_reads(payload@, ws, payload@[11] as nat)]
                {
                let cnt = payload@[11] as nat;
                &&& ws.len() == cnt
                &&& final(self).reads() == old(self).reads() + rx_reads(payload@, ws, cnt)
                &&& rx_packets_ok(payload@, ws, cnt)
                &&& (cnt > 0 ==> le_u16(payload@, 8) == RX_PKT_DATA || le_u16(payload@, 8) == RX_PKT_BCN_PRB_RSP)
                &&& frames_appended(old(frames)@, final(frames)@, rx_frames(payload@, ws, cnt))
            },
    {
        let (summary, infos) = match parse_rx_buffer(payload) {
            Ok(x) => x,
            Err(e) => {
                let ghost none: Seq<Seq<u32>> = Seq::empty();
                assert(frames_appended(old(frames)@, frames@, rx_frames(payload@, none, none.len())));
                return Err(e);
            },
        };
        let ghost mut ws: Seq<Seq<u32>> = Seq::empty();
        let mut i: usize = 0;
        while i < infos.len()
            invariant
                self.pool_wf(),
                self.hostport_queues_info == old(self).hostport_queues_info,
                self.rx_command_base_address == old(self).rx_command_base_address,
                self.num_commands == old(self).num_commands,
                summary.mac_header_len < 0x100,
                summary.mac_header_len == payload@[13],
                summary.rx_pkt_type == le_u16(payload@, 8),
                payload@.len() >= crate::events::RX_SUMMARY_SIZE,
                self.writes() == old(self).writes(),
                infos@.len() == payload@[11] as int,
                forall|k: int| 0 <= k < infos@.len() ==> #[trigger] infos@[k] == rx_info_spec(payload@, k),
                0 <= i <= infos@.len(),
                ws.len() == i,
                self.reads() == old(self).reads() + rx_reads(payload@, ws, i as nat),
                rx_packets_ok(payload@, ws, i as nat),
                i > 0 ==> summary.rx_pkt_type == RX_PKT_DATA || summary.rx_pkt_type == RX_PKT_BCN_PRB_RSP,
                frames_appended(old(frames)@, frames@, rx_frames(payload@, ws, i as nat)),
            decreases infos@.len() - i,
        {
            let info = infos[i];
            let descriptor = info.descriptor_id as usize;
            let length = info.rx_pkt_len as usize;
            let ghost before = self.reads();
            match self.update_cached_receive_buffer(descriptor, length) {
                Ok(()) => {},
                Err(e) => {
                    proof {
                        if e == Error::NotFound {
                            assert(rx_info_spec(payload@, i as int).descriptor_id >= RX_BUFS);
                        }
                        assert(rx_packet_unfit(payload@, i as int));
                    }
                    return Err(e);
                },
            }
            let ghost w = new_words(self.reads(), before.len());
            let ghost next_ws = ws.push(w);
            proof {
                lemma_rx_prefix(payload@, ws, next_ws, i as nat);
                assert(self.reads() =~= old(self).reads() + rx_reads(payload@, next_ws, (i + 1) as nat));
            }
            let raw = self.get_cached_receive_buffer_slice(descriptor)?;
            let data = slice_subrange(raw, 0, length);
            proof {
                assert(data@ =~= packet_bytes(payload@, w, i as int));
            }
            if summary.rx_pkt_type == RX_PKT_DATA {
                if info.pkt_type == PKT_TYPE_MPDU {
                    let frame = match mpdu_to_ethernet(data, summary.mac_header_len as usize) {
                        Ok(f) => f,
                        Err(e) => {
                            assert(next_ws.len() == i + 1);
                            assert(next_ws[i as int] == w);
                            return Err(e);
                        },
                    };
                    frames.push(frame);
                }
            } else if summary.rx_pkt_type != RX_PKT_BCN_PRB_RSP {
                return Err(Error::NotHandled(summary.rx_pkt_type as u32));
            }
            proof {
                let ghost old_ws = ws;
                ws = next_ws;
                lemma_rx_prefix(payload@, old_ws, ws, i as nat);
                assert(frames_appended(old(frames)@, frames@, rx_frames(payload@, ws, (i + 1) as nat)));
            }
            i = i + 1;
        }
        Ok(())
    }

    /// Acts on an event: system and UMAC events may answer the pending action,
    /// received-buffers events yield Ethernet frames, carrier changes and
    /// supplicant or unknown domains are dropped. A data event the driver does
    /// not handle fails with `NotHandled`.
    pub fn handle_event(
        &mut self,
        message_type: u32,
        payload: &[u8],
        actions: &mut ActionState,
        frames: &mut Vec<Vec<u8>>,
    ) -> (r: Result<(), Error>)
        requires
            old(self).pool_wf(),
        ensures
            final(self).writes() == old(self).writes(),
            final(self).pool_wf(),
            final(self).queues_spec() == old(self).queues_spec(),
            final(self).rx_command_base_spec() == old(self).rx_command_base_spec(),
            final(self).num_commands_spec() == old(self).num_commands_spec(),
            final(actions)@ == event_effect_spec(old(actions)@, message_type, payload@),
            message_type != 2 ==> r is Ok && final(frames)@ == old(frames)@,
            message_type == 2 ==> match crate::events::data_event_spec(payload@) {
                Err(e) => r == Err::<(), Error>(e) && final(frames)@ == old(frames)@,
                Ok(DataEvent::CarrierOn) | Ok(DataEvent::CarrierOff) => r is Ok && final(frames)@ == old(frames)@,
                Ok(DataEvent::RxBuffer) => (r is Err ==> rx_failure(payload@, old(self).reads(), final(self).reads()))
                    && exists|ws: Seq<Seq<u32>>|
                    #![trigger rx_frames(payload@, ws, ws.len())]
                    frames_appended(old(frames)@, final(frames)@, rx_frames(payload@, ws, ws.len())),
            },
    {
        match MessageDomain::try_from_u32(message_type) {
            Some(MessageDomain::System) => {
                let answer = decode_system_event(payload);
                respond_with(actions, answer, payload);
                Ok(())
            },
            Some(MessageDomain::Umac) => {
                let answer = decode_umac_event(payload);
                respond_with(actions, answer, payload);
                Ok(())
            },
            Some(MessageDomain::Data) => match decode_data_event(payload) {
                Ok(DataEvent::RxBuffer) => {
                    let r = self.handle_rx_buffer(payload, frames);
                    proof {
                        if r is Ok {
                            let ws = choose|ws: Seq<Seq<u32>>|
                                #![trigger rx_reads(payload@, ws, payload@[11] as nat)]
                                {
                                    let cnt = payload@[11] as nat;
                                    &&& ws.len() == cnt
                                    &&& self.reads() == old(self).reads() + rx_reads(payload@, ws, cnt)
                                    &&& rx_packets_ok(payload@, ws, cnt)
                                    &&& (cnt > 0 ==> le_u16(payload@, 8) == RX_PKT_DATA || le_u16(payload@, 8)
                                        == RX_PKT_BCN_PRB_RSP)
                                    &&& frames_appended(old(frames)@, frames@, rx_frames(payload@, ws, cnt))
                                };
                            assert(frames_appended(old(frames)@, frames@, rx_frames(payload@, ws, ws.len())));
                        }
                    }
                    r
                },
                Ok(_) => Ok(()),
                Err(e) => Err(e),
            },
            _ => Ok(()),
        }
    }
}

} // verus!
