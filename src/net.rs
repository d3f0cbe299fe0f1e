//! A buffer split into a free head room and a visible data area.
use vstd::prelude::*;
use vstd::slice::slice_subrange;

use crate::Error;

verus! {

/// The network buffer is structured like this:
///
/// ```text
/// +--------------+
/// |   Head room  |
/// |--------------|
/// |     Data     |
/// +--------------+
/// ```
///
/// The whole space is the raw buffer, but the user of the network buffer only
/// sees the data area. Moving the boundary between the two copies nothing.
pub struct NetworkBuffer {
    raw_buffer: Vec<u8>,
    head_room_size: usize,
    data_size: usize,
}

impl NetworkBuffer {
    /// The head room and the data area fit in the storage.
    pub closed spec fn wf(&self) -> bool {
        self.head_room_size + self.data_size <= self.raw_buffer@.len() <= usize::MAX
    }

    /// The whole underlying storage.
    pub closed spec fn raw(&self) -> Seq<u8> {
        self.raw_buffer@
    }

    /// Size of the head room.
    pub closed spec fn head_room(&self) -> nat {
        self.head_room_size as nat
    }

    /// Size of the data area.
    pub closed spec fn data_len(&self) -> nat {
        self.data_size as nat
    }

    /// The visible data area.
    pub open spec fn data(&self) -> Seq<u8> {
        self.raw().subrange(self.head_room() as int, (self.head_room() + self.data_len()) as int)
    }

    /// A buffer over `raw_buffer` with no head room and `size` bytes of data.
    pub fn new(raw_buffer: Vec<u8>, size: usize) -> (r: NetworkBuffer)
        requires
            size <= raw_buffer@.len(),
        ensures
            r.wf(),
            r.raw() == raw_buffer@,
            r.head_room() == 0,
            r.data_len() == size,
    {
        let n = raw_buffer.len();
        assert(raw_buffer@.len() == n);
        NetworkBuffer { raw_buffer, head_room_size: 0, data_size: size }
    }

    /// The visible data area.
    pub fn get_data(&self) -> (r: &[u8])
        requires
            self.wf(),
        ensures
            r@ == self.data(),
            self.head_room() + self.data_len() <= self.raw().len(),
    {
        slice_subrange(self.raw_buffer.as_slice(), self.head_room_size, self.head_room_size + self.data_size)
    }

    /// The byte at `index` of the data area.
    pub fn get(&self, index: usize) -> (r: u8)
        requires
            self.wf(),
            index < self.data_len(),
        ensures
            r == self.data()[index as int],
    {
        self.raw_buffer[self.head_room_size + index]
    }

    /// Grows the data area at its start by `size` bytes taken from the head
    /// room. Fails with `BufferOverflow`, changing nothing, when the head room
    /// is smaller than `size`.
    pub fn increase_data_area(&mut self, size: usize) -> (r: Result<(), Error>)
        requires
            old(self).wf(),
        ensures
            final(self).wf(),
            final(self).raw() == old(self).raw(),
            size > old(self).head_room() ==> r == Err::<(), Error>(Error::BufferOverflow)
                && final(self).head_room() == old(self).head_room()
                && final(self).data_len() == old(self).data_len(),
            size <= old(self).head_room() ==> r is Ok
                && final(self).head_room() == old(self).head_room() - size
                && final(self).data_len() == old(self).data_len() + size,
    {
        if size > self.head_room_size {
            return Err(Error::BufferOverflow);
        }
        self.head_room_size = self.head_room_size - size;
        self.data_size = self.data_size + size;
        Ok(())
    }

    /// Grows the head room by `size` bytes taken from the start of the data
    /// area. Fails with `BufferOverflow`, changing nothing, when the data area
    /// is smaller than `size`.
    pub fn increase_head_room(&mut self, size: usize) -> (r: Result<(), Error>)
        requires
            old(self).wf(),
        ensures
            final(self).wf(),
            final(self).raw() == old(self).raw(),
            size > old(self).data_len() ==> r == Err::<(), Error>(Error::BufferOverflow)
                && final(self).head_room() == old(self).head_room()
                && final(self).data_len() == old(self).data_len(),
            size <= old(self).data_len() ==> r is Ok
                && final(self).head_room() == old(self).head_room() + size
                && final(self).data_len() == old(self).data_len() - size,
    {
        if size > self.data_size {
            return Err(Error::BufferOverflow);
        }
        self.data_size = self.data_size - size;
        self.head_room_size = self.head_room_size + size;
        Ok(())
    }

    /// Overwrites the data area from `offset` on with `bytes`.
    pub fn write_data(&mut self, offset: usize, bytes: &[u8])
        requires
            old(self).wf(),
            offset + bytes@.len() <= old(self).data_len(),
        ensures
            final(self).wf(),
            final(self).head_room() == old(self).head_room(),
            final(self).data_len() == old(self).data_len(),
            final(self).raw().len() == old(self).raw().len(),
            final(self).data() == old(self).data().subrange(0, offset as int) + bytes@
                + old(self).data().subrange(offset + bytes@.len(), old(self).data_len() as int),
    {
        let base = self.head_room_size + offset;
        let ghost old_raw = self.raw_buffer@;
        let mut k: usize = 0;
        while k < bytes.len()
            invariant
                0 <= k <= bytes@.len(),
                base == old(self).head_room() + offset,
                base + bytes@.len() <= old_raw.len() <= usize::MAX,
                self.raw_buffer@.len() == old_raw.len(),
                self.head_room_size == old(self).head_room(),
                self.data_size == old(self).data_len(),
                old_raw == old(self).raw(),
                forall|q: int| 0 <= q < old_raw.len() ==> #[trigger] self.raw_buffer@[q]
                    == if base <= q < base + k { bytes@[q - base] } else { old_raw[q] },
            decreases bytes@.len() - k,
        {
            self.raw_buffer.set(base + k, bytes[k]);
            k = k + 1;
        }
        assert(self.data() =~= old(self).data().subrange(0, offset as int) + bytes@
            + old(self).data().subrange(offset + bytes@.len(), old(self).data_len() as int));
    }

    /// Gives back the whole storage.
    pub fn into_raw(self) -> (r: Vec<u8>)
        ensures
            r@ == self.raw(),
    {
        self.raw_buffer
    }
}

} // verus!
