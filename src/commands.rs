//! Command framing and the message domains of the hostport protocol.
use vstd::prelude::*;

use crate::Error;

verus! {

/// The coarse category of a command or event.
#[derive(Debug, Clone, Copy, PartialEq, Eq, Structural)]
pub enum MessageDomain {
    System,
    Supplicant,
    Data,
    Umac,
}

/// The domain that a message-type word encodes.
pub open spec fn domain_spec(v: u32) -> Option<MessageDomain> {
    if v == 0 {
        Some(MessageDomain::System)
    } else if v == 1 {
        Some(MessageDomain::Supplicant)
    } else if v == 2 {
        Some(MessageDomain::Data)
    } else if v == 3 {
        Some(MessageDomain::Umac)
    } else {
        None
    }
}

/// The message-type word of a domain.
pub open spec fn domain_code_spec(d: MessageDomain) -> u32 {
    match d {
        MessageDomain::System => 0,
        MessageDomain::Supplicant => 1,
        MessageDomain::Data => 2,
        MessageDomain::Umac => 3,
    }
}

impl MessageDomain {
    /// Decodes a message-type word.
    pub fn try_from_u32(v: u32) -> (r: Option<MessageDomain>)
        ensures
            r == domain_spec(v),
    {
        match v {
            0 => Some(MessageDomain::System),
            1 => Some(MessageDomain::Supplicant),
            2 => Some(MessageDomain::Data),
            3 => Some(MessageDomain::Umac),
            _ => None,
        }
    }

    /// The message-type word of this domain.
    pub fn code(&self) -> (r: u32)
        ensures
            r == domain_code_spec(*self),
            domain_spec(r) == Some(*self),
    {
        match self {
            MessageDomain::System => 0,
            MessageDomain::Supplicant => 1,
            MessageDomain::Data => 2,
            MessageDomain::Umac => 3,
        }
    }
}

} // verus!

verus! {

/// Size of the outer message header: total length, resubmit flag, domain.
pub const MSG_HEADER_SIZE: usize = 12;
/// Size of the scratch buffer a framed command is built in.
pub const MAX_CMD_SIZE: usize = 1024;
/// Largest fragment of a command handed to the co-processor at once.
pub const MAX_UMAC_CMD_SIZE: usize = 400;

/// `n` zero bytes.
pub open spec fn zeros(n: int) -> Seq<u8> {
    Seq::new(n as nat, |i: int| 0u8)
}

/// Number of bytes to add to `n` to reach a multiple of four.
pub open spec fn pad_len(n: int) -> int {
    if n % 4 == 0 {
        0
    } else {
        4 - n % 4
    }
}

/// A framed command: the outer header (total framed length, resubmit flag clear,
/// domain word, each little-endian), the payload, then zeros up to a whole word.
pub open spec fn frame_spec(domain: MessageDomain, payload: Seq<u8>) -> Seq<u8> {
    crate::bus::word_bytes_spec((MSG_HEADER_SIZE + payload.len()) as u32) + crate::bus::word_bytes_spec(0) + crate::bus::word_bytes_spec(
        domain_code_spec(domain),
    ) + payload + zeros(pad_len(payload.len() as int))
}

/// Appends the bytes of `w`, least significant first.
pub fn push_u32_le(v: &mut Vec<u8>, w: u32)
    ensures
        final(v)@ == old(v)@ + crate::bus::word_bytes_spec(w),
{
    v.push((w % 0x100) as u8);
    v.push(((w / 0x100) % 0x100) as u8);
    v.push(((w / 0x1_0000) % 0x100) as u8);
    v.push((w / 0x100_0000) as u8);
    assert(final(v)@ =~= old(v)@ + crate::bus::word_bytes_spec(w));
}

/// Appends the bytes of `w`, least significant first.
pub fn push_u16_le(v: &mut Vec<u8>, w: u16)
    ensures
        final(v)@ == old(v)@ + seq![(w % 0x100) as u8, (w / 0x100) as u8],
{
    v.push((w % 0x100) as u8);
    v.push((w / 0x100) as u8);
    assert(final(v)@ =~= old(v)@ + seq![(w % 0x100) as u8, (w / 0x100) as u8]);
}

/// Appends `bytes`.
pub fn push_bytes(v: &mut Vec<u8>, bytes: &[u8])
    ensures
        final(v)@ == old(v)@ + bytes@,
{
    let mut i: usize = 0;
    while i < bytes.len()
        invariant
            0 <= i <= bytes@.len(),
            v@ == old(v)@ + bytes@.subrange(0, i as int),
        decreases bytes@.len() - i,
    {
        v.push(bytes[i]);
        i = i + 1;
        assert(v@ =~= old(v)@ + bytes@.subrange(0, i as int));
    }
    assert(bytes@.subrange(0, bytes@.len() as int) =~= bytes@);
}

/// Appends `n` zero bytes.
pub fn push_zeros(v: &mut Vec<u8>, n: usize)
    ensures
        final(v)@ == old(v)@ + zeros(n as int),
{
    let mut i: usize = 0;
    while i < n
        invariant
            0 <= i <= n,
            v@ == old(v)@ + zeros(i as int),
        decreases n - i,
    {
        v.push(0u8);
        i = i + 1;
        assert(v@ =~= old(v)@ + zeros(i as int));
    }
}

/// Frames a serialized command for a domain. Fails with `BufferOverflow` when
/// header and payload exceed the scratch buffer.
pub fn frame_command(domain: MessageDomain, payload: &[u8]) -> (r: Result<Vec<u8>, Error>)
    ensures
        MSG_HEADER_SIZE + payload@.len() > MAX_CMD_SIZE ==> r == Err::<Vec<u8>, Error>(Error::BufferOverflow),
        MSG_HEADER_SIZE + payload@.len() <= MAX_CMD_SIZE ==> (r matches Ok(v) && v@ == frame_spec(domain, payload@)
            && v@.len() % 4 == 0 && v@.len() <= MAX_CMD_SIZE),
{
    if payload.len() > MAX_CMD_SIZE - MSG_HEADER_SIZE {
        return Err(Error::BufferOverflow);
    }
    let mut v: Vec<u8> = Vec::new();
    push_u32_le(&mut v, (MSG_HEADER_SIZE + payload.len()) as u32);
    push_u32_le(&mut v, 0);
    push_u32_le(&mut v, domain.code());
    push_bytes(&mut v, payload);
    let pad: usize = if payload.len() % 4 == 0 {
        0
    } else {
        4 - payload.len() % 4
    };
    push_zeros(&mut v, pad);
    Ok(v)
}

} // verus!
