//! The co-processor as the driver sees it: memory access through the address
//! map, the hostport queues, and the receive buffer pool.
use vstd::prelude::*;
use vstd::slice::{slice_subrange, slice_to_vec};

use crate::bus::{bytes_to_words, words_to_bytes, Bus};
use crate::commands::{frame_command, frame_spec, MessageDomain, MAX_CMD_SIZE, MAX_UMAC_CMD_SIZE, MSG_HEADER_SIZE};
use crate::memory::{
    region_spec, remap_global_addr_to_region_and_offset, resolve_spec, MemoryRegion, ProcessorType,
    NUM_REGIONS,
};
use crate::Error;

pub mod boot;
pub mod rx;

verus! {

/// Value a dequeue register holds transiently, meaning "nothing yet".
pub const HOSTPORT_SENTINEL: u32 = 0xAAAA_AAAA;
/// Number of receive queues.
pub const MAX_NUM_OF_RX_QUEUES: usize = 3;
/// Number of receive buffers in each queue.
pub const RX_BUFS_PER_QUEUE: usize = 5;
/// Size of the data area of a receive buffer.
pub const RX_MAX_DATA_SIZE: usize = 1600;
/// Size of the header word in front of each receive buffer.
pub const RX_BUF_HEADROOM: u32 = 4;
/// Size of a receive buffer, header included.
pub const RX_BUF_SIZE: usize = 1604;
/// Number of receive buffers.
pub const RX_BUFS: usize = 15;
/// Size of the receive buffer pool.
pub const RX_TOTAL_SIZE: usize = 24060;
/// Start of the packet RAM usable for host communication.
pub const RPU_MEM_PKT_BASE: u32 = 0xB000_5000;
/// Size of the packet RAM usable for host communication.
pub const RPU_PKTRAM_SIZE: u32 = 0x0002_C000;
/// Initial value of the command counter rung with the doorbell.
pub const RPU_CMD_START_MAGIC: u32 = 0xDEAD;

/// Register acknowledging an interrupt to the host.
pub const RPU_REG_INT_FROM_MCU_ACK: u32 = 0xA400_0488;
/// Bit of that register.
pub const RPU_REG_BIT_INT_FROM_MCU_ACK: u32 = 31;
/// Interrupt status register of the cores.
pub const RPU_REG_MIPS_MCU_UCCP_INT_STATUS: u32 = 0xA400_0004;
/// Watchdog bit of the interrupt status register.
pub const RPU_REG_BIT_MIPS_WATCHDOG_INT_STATUS: u32 = 1;
/// Interrupt clear register of the cores.
pub const RPU_REG_MIPS_MCU_UCCP_INT_CLEAR: u32 = 0xA400_000C;
/// Watchdog bit of the interrupt clear register.
pub const RPU_REG_BIT_MIPS_WATCHDOG_INT_CLEAR: u32 = 1;

/// Doorbell register that tells the UMAC core a command was posted.
pub const RPU_REG_INT_TO_MCU_CTRL: u32 = 0xA400_0480;
/// Indirect address register of the LMAC core memory.
pub const RPU_REG_MIPS_MCU_SYS_CORE_MEM_CTRL: u32 = 0xA400_0030;
/// Indirect data register of the LMAC core memory.
pub const RPU_REG_MIPS_MCU_SYS_CORE_MEM_WDATA: u32 = 0xA400_0034;
/// Indirect address register of the UMAC core memory.
pub const RPU_REG_MIPS_MCU2_SYS_CORE_MEM_CTRL: u32 = 0xA400_0130;
/// Indirect data register of the UMAC core memory.
pub const RPU_REG_MIPS_MCU2_SYS_CORE_MEM_WDATA: u32 = 0xA400_0134;
/// Mask of the offset part of a co-processor address.
pub const RPU_ADDR_MASK_OFFSET: u32 = 0x00FF_FFFF;
/// Base of the indirect core memory window.
pub const RPU_MCU_CORE_INDIRECT_BASE: u32 = 0xC000_0000;
/// Size of one receive command slot.
pub const RPU_DATA_CMD_SIZE_MAX_RX: u32 = 8;
/// Tries, one millisecond apart, before a command slot is given up on.
pub const COMMAND_SLOT_RETRIES: u32 = 10;
/// Largest event the driver reads.
pub const MAX_EVENT_POOL_LEN: usize = 1000;

/// An access to a status register and the byte it carried.
#[derive(Debug, Clone, Copy, PartialEq, Eq, Structural)]
pub enum StatusOp {
    ReadSr1(u8),
    ReadSr2(u8),
    WriteSr2(u8),
}

/// A hostport queue: the registers to write a value to, and to take one from.
#[derive(Debug, Clone, Copy, PartialEq, Eq, Structural)]
pub struct HostportQueue {
    pub enqueue_addr: u32,
    pub dequeue_addr: u32,
}

/// The hostport queues the co-processor offers.
#[derive(Debug, Clone, Copy, PartialEq, Eq, Structural)]
pub struct HostportQueuesInfo {
    pub event_busy_queue: HostportQueue,
    pub event_avl_queue: HostportQueue,
    pub cmd_busy_queue: HostportQueue,
    pub cmd_avl_queue: HostportQueue,
    pub rx_buf_busy_queue_0: HostportQueue,
    pub rx_buf_busy_queue_1: HostportQueue,
    pub rx_buf_busy_queue_2: HostportQueue,
}

/// Number of words of the queue descriptor block.
pub const HPQM_INFO_WORDS: usize = 14;

/// The queue descriptor block as the co-processor lays it out: for each queue
/// in field order, the enqueue then the dequeue register.
pub open spec fn hpqm_info_spec(w: Seq<u32>) -> HostportQueuesInfo {
    HostportQueuesInfo {
        event_busy_queue: HostportQueue { enqueue_addr: w[0], dequeue_addr: w[1] },
        event_avl_queue: HostportQueue { enqueue_addr: w[2], dequeue_addr: w[3] },
        cmd_busy_queue: HostportQueue { enqueue_addr: w[4], dequeue_addr: w[5] },
        cmd_avl_queue: HostportQueue { enqueue_addr: w[6], dequeue_addr: w[7] },
        rx_buf_busy_queue_0: HostportQueue { enqueue_addr: w[8], dequeue_addr: w[9] },
        rx_buf_busy_queue_1: HostportQueue { enqueue_addr: w[10], dequeue_addr: w[11] },
        rx_buf_busy_queue_2: HostportQueue { enqueue_addr: w[12], dequeue_addr: w[13] },
    }
}

/// The receive-buffer queue of index `i`.
pub open spec fn rx_queue_spec(info: HostportQueuesInfo, i: int) -> HostportQueue {
    if i == 0 {
        info.rx_buf_busy_queue_0
    } else if i == 1 {
        info.rx_buf_busy_queue_1
    } else {
        info.rx_buf_busy_queue_2
    }
}

impl HostportQueuesInfo {
    /// Decodes the queue descriptor block.
    pub fn from_words(w: &[u32]) -> (r: HostportQueuesInfo)
        requires
            w@.len() >= HPQM_INFO_WORDS,
        ensures
            r == hpqm_info_spec(w@),
    {
        HostportQueuesInfo {
            event_busy_queue: HostportQueue { enqueue_addr: w[0], dequeue_addr: w[1] },
            event_avl_queue: HostportQueue { enqueue_addr: w[2], dequeue_addr: w[3] },
            cmd_busy_queue: HostportQueue { enqueue_addr: w[4], dequeue_addr: w[5] },
            cmd_avl_queue: HostportQueue { enqueue_addr: w[6], dequeue_addr: w[7] },
            rx_buf_busy_queue_0: HostportQueue { enqueue_addr: w[8], dequeue_addr: w[9] },
            rx_buf_busy_queue_1: HostportQueue { enqueue_addr: w[10], dequeue_addr: w[11] },
            rx_buf_busy_queue_2: HostportQueue { enqueue_addr: w[12], dequeue_addr: w[13] },
        }
    }

    /// The receive-buffer queue of index `i`.
    pub fn rx_queue(&self, i: usize) -> (r: HostportQueue)
        requires
            i < MAX_NUM_OF_RX_QUEUES,
        ensures
            r == rx_queue_spec(*self, i as int),
    {
        if i == 0 {
            self.rx_buf_busy_queue_0
        } else if i == 1 {
            self.rx_buf_busy_queue_1
        } else {
            self.rx_buf_busy_queue_2
        }
    }
}

/// What a value read from a dequeue register means: zero and the sentinel
/// mean the queue is empty, anything else is the value taken.
pub open spec fn dequeue_value_spec(value: u32) -> Option<u32> {
    if value == 0 || value == HOSTPORT_SENTINEL {
        None
    } else {
        Some(value)
    }
}

/// Interprets a value read from a dequeue register.
pub fn dequeue_value(value: u32) -> (r: Option<u32>)
    ensures
        r == dequeue_value_spec(value),
{
    if value == 0 || value == HOSTPORT_SENTINEL {
        None
    } else {
        Some(value)
    }
}

/// A receive buffer: where it lies in co-processor memory, its descriptor
/// identifier, and the local copy of its data.
pub struct ReceiveBuffer {
    pub rpu_address: u32,
    pub descriptor_identifier: usize,
    pub data: Vec<u8>,
}

/// The co-processor address of the receive buffer with descriptor `d`.
pub open spec fn rx_buffer_address_spec(d: int) -> int {
    RPU_MEM_PKT_BASE + RPU_PKTRAM_SIZE - RX_TOTAL_SIZE + RX_BUF_SIZE * d
}

/// The bus access of `words` words at `offset` stays inside the window.
pub open spec fn region_access_ok(r: MemoryRegion, offset: u32, words: int) -> bool {
    r.start + offset + 4 * words <= r.end
}

/// The co-processor address `addr` resolves for `processor`, and an access of
/// `words` words there stays inside its window.
pub open spec fn global_access_ok(addr: u32, processor: Option<ProcessorType>, words: int) -> bool {
    match resolve_spec(addr, processor) {
        Some((r, off)) => region_access_ok(r, off, words),
        None => false,
    }
}

/// The last ten reads all polled the command-available queue's dequeue
/// register at bus address `addr` and found it empty.
pub open spec fn no_free_slot(reads: Seq<(u32, u32)>, addr: u32) -> bool {
    &&& reads.len() >= COMMAND_SLOT_RETRIES
    &&& forall|j: int| reads.len() - COMMAND_SLOT_RETRIES <= j < reads.len() ==> (#[trigger] reads[j]).0 == addr
        && dequeue_value_spec(reads[j].1) is None
}

/// Taking an event touched an address no window serves: the dequeue
/// register, the event header, the event-available queue when the slot is
/// given back, or the payload. `n` is where the reads of the event start.
pub open spec fn event_unmapped(info: HostportQueuesInfo, n: int, reads: Seq<(u32, u32)>) -> bool {
    ||| !global_access_ok(info.event_busy_queue.dequeue_addr, None, 1)
    ||| (reads.len() > n && !global_access_ok(reads[n].1, None, 3))
    ||| (reads.len() >= n + 4 && ({
        let a = reads[n].1;
        let len = reads[n + 1].1;
        ||| (reads[n + 2].1 > 0 && !global_access_ok(info.event_avl_queue.enqueue_addr, None, 1))
        ||| a > u32::MAX - MSG_HEADER_SIZE
        ||| !global_access_ok((a + MSG_HEADER_SIZE) as u32, None, (len + 3) / 4)
    }))
}

/// `later` extends `earlier`: the log only grows.
pub open spec fn appends<T>(earlier: Seq<T>, later: Seq<T>) -> bool {
    &&& earlier.len() <= later.len()
    &&& forall|i: int| 0 <= i < earlier.len() ==> #[trigger] later[i] == earlier[i]
}

/// Reads of consecutive words `v` from bus address `base` on.
pub open spec fn word_reads(base: u32, v: Seq<u32>) -> Seq<(u32, u32)> {
    Seq::new(v.len(), |i: int| ((base + 4 * i) as u32, v[i]))
}

/// The bus address that serves co-processor address `addr` for `processor`.
pub open spec fn bus_address_spec(addr: u32, processor: Option<ProcessorType>) -> u32 {
    match resolve_spec(addr, processor) {
        Some((r, off)) => (r.start + off) as u32,
        None => 0,
    }
}

fn access_ok(r: &MemoryRegion, offset: u32, words: usize) -> (b: bool)
    ensures
        b == region_access_ok(*r, offset, words as int),
{
    (r.start as u128) + (offset as u128) + 4 * (words as u128) <= r.end as u128
}

/// The driver's handle on the co-processor.
pub struct Rpu<B: Bus> {
    bus: B,
    hostport_queues_info: Option<HostportQueuesInfo>,
    rx_command_base_address: Option<u32>,
    tx_command_base_address: Option<u32>,
    num_commands: u32,
    number_of_receive_queues: usize,
    receive_buffers: Vec<ReceiveBuffer>,
    /// The word writes issued on the bus so far: bus address and words.
    write_log: Ghost<Seq<(u32, Seq<u32>)>>,
    /// The single-word reads issued on the bus so far: bus address and word.
    read_log: Ghost<Seq<(u32, u32)>>,
    /// The status-register accesses issued so far.
    status_log: Ghost<Seq<StatusOp>>,
}

impl<B: Bus> Rpu<B> {
    /// The bus.
    pub closed spec fn bus_spec(&self) -> B {
        self.bus
    }

    /// The hostport queues, once they are known.
    pub closed spec fn queues_spec(&self) -> Option<HostportQueuesInfo> {
        self.hostport_queues_info
    }

    /// The command counter rung with the doorbell.
    pub closed spec fn num_commands_spec(&self) -> u32 {
        self.num_commands
    }

    /// The base of the receive command area, once it is known.
    pub closed spec fn rx_command_base_spec(&self) -> Option<u32> {
        self.rx_command_base_address
    }

    /// The word writes issued on the bus so far, oldest first: bus address
    /// and the words written.
    pub closed spec fn writes(&self) -> Seq<(u32, Seq<u32>)> {
        self.write_log@
    }

    /// The single-word reads issued on the bus so far, oldest first: bus
    /// address and the word read.
    pub closed spec fn reads(&self) -> Seq<(u32, u32)> {
        self.read_log@
    }

    /// The status-register accesses issued so far, oldest first.
    pub closed spec fn status_ops(&self) -> Seq<StatusOp> {
        self.status_log@
    }

    /// Reads status register 1.
    pub fn read_sr1(&mut self) -> (r: u8)
        ensures
            final(self).same_state(old(self)),
            final(self).writes() == old(self).writes(),
            final(self).reads() == old(self).reads(),
            final(self).status_ops() == old(self).status_ops().push(StatusOp::ReadSr1(r)),
    {
        let r = self.bus.read_sr1();
        self.status_log = Ghost(self.status_log@.push(StatusOp::ReadSr1(r)));
        r
    }

    /// Reads status register 2.
    pub fn read_sr2(&mut self) -> (r: u8)
        ensures
            final(self).same_state(old(self)),
            final(self).writes() == old(self).writes(),
            final(self).reads() == old(self).reads(),
            final(self).status_ops() == old(self).status_ops().push(StatusOp::ReadSr2(r)),
    {
        let r = self.bus.read_sr2();
        self.status_log = Ghost(self.status_log@.push(StatusOp::ReadSr2(r)));
        r
    }

    /// Writes status register 2.
    pub fn write_sr2(&mut self, val: u8)
        ensures
            final(self).same_state(old(self)),
            final(self).writes() == old(self).writes(),
            final(self).reads() == old(self).reads(),
            final(self).status_ops() == old(self).status_ops().push(StatusOp::WriteSr2(val)),
    {
        self.bus.write_sr2(val);
        self.status_log = Ghost(self.status_log@.push(StatusOp::WriteSr2(val)));
    }

    /// Everything but the bus is as in `other`.
    pub closed spec fn same_state(&self, other: &Self) -> bool {
        &&& self.hostport_queues_info == other.hostport_queues_info
        &&& self.rx_command_base_address == other.rx_command_base_address
        &&& self.tx_command_base_address == other.tx_command_base_address
        &&& self.num_commands == other.num_commands
        &&& self.number_of_receive_queues == other.number_of_receive_queues
        &&& self.receive_buffers@ == other.receive_buffers@
    }

    /// Number of receive queues in use.
    pub closed spec fn queue_count(&self) -> nat {
        self.number_of_receive_queues as nat
    }

    /// Number of receive buffers in the pool.
    pub closed spec fn pool_len(&self) -> nat {
        self.receive_buffers@.len()
    }

    /// The descriptor identifier of pool entry `i`.
    pub closed spec fn buffer_descriptor(&self, i: int) -> int {
        self.receive_buffers@[i].descriptor_identifier as int
    }

    /// The co-processor address of pool entry `i`.
    pub closed spec fn buffer_address(&self, i: int) -> int {
        self.receive_buffers@[i].rpu_address as int
    }

    /// The local copy of the data of pool entry `i`.
    pub closed spec fn buffer_data(&self, i: int) -> Seq<u8> {
        self.receive_buffers@[i].data@
    }

    /// The receive buffer pool is laid out as at boot; `pool_layout` spells
    /// it out.
    pub closed spec fn pool_wf(&self) -> bool {
        &&& self.number_of_receive_queues == MAX_NUM_OF_RX_QUEUES
        &&& self.receive_buffers@.len() == RX_BUFS
        &&& forall|d: int| 0 <= d < RX_BUFS ==> {
            let buffer = #[trigger] self.receive_buffers@[d];
            &&& buffer.descriptor_identifier == d
            &&& buffer.rpu_address == rx_buffer_address_spec(d)
            &&& buffer.data@.len() == RX_MAX_DATA_SIZE
        }
    }

    /// The layout of the receive buffer pool: three queues of five buffers;
    /// entry `d` has descriptor identifier `d` (queue `d / 5`, buffer `d % 5`),
    /// lies at `rx_buffer_address_spec(d)`, and has a local copy of the full
    /// data size.
    pub open spec fn pool_layout(&self) -> bool {
        &&& self.queue_count() == MAX_NUM_OF_RX_QUEUES
        &&& self.pool_len() == RX_BUFS
        &&& forall|d: int| 0 <= d < RX_BUFS ==> #[trigger] self.buffer_descriptor(d) == d
        &&& forall|d: int| 0 <= d < RX_BUFS ==> #[trigger] self.buffer_address(d) == rx_buffer_address_spec(d)
        &&& forall|d: int| 0 <= d < RX_BUFS ==> (#[trigger] self.buffer_data(d)).len() == RX_MAX_DATA_SIZE
    }

    /// A well-formed pool has the layout `pool_layout` describes.
    pub proof fn lemma_pool_layout(&self)
        requires
            self.pool_wf(),
        ensures
            self.pool_layout(),
    {
        assert forall|d: int| 0 <= d < RX_BUFS implies #[trigger] self.buffer_descriptor(d) == d by {
            assert(self.receive_buffers@[d].descriptor_identifier == d);
        }
        assert forall|d: int| 0 <= d < RX_BUFS implies #[trigger] self.buffer_address(d) == rx_buffer_address_spec(d) by {
            assert(self.receive_buffers@[d].rpu_address == rx_buffer_address_spec(d));
        }
        assert forall|d: int| 0 <= d < RX_BUFS implies (#[trigger] self.buffer_data(d)).len() == RX_MAX_DATA_SIZE by {
            assert(self.receive_buffers@[d].data@.len() == RX_MAX_DATA_SIZE);
        }
    }

    /// A handle on a co-processor that has not been booted yet.
    pub fn new(bus: B) -> (r: Rpu<B>)
        ensures
            r.bus_spec() == bus,
            r.queues_spec() is None,
            r.rx_command_base_spec() is None,
            r.num_commands_spec() == RPU_CMD_START_MAGIC,
            r.pool_wf(),
            r.writes() == Seq::<(u32, Seq<u32>)>::empty(),
    {
        let mut receive_buffers: Vec<ReceiveBuffer> = Vec::new();
        let mut d: usize = 0;
        while d < RX_BUFS
            invariant
                0 <= d <= RX_BUFS,
                receive_buffers@.len() == d,
                forall|j: int| 0 <= j < d ==> {
                    let buffer = #[trigger] receive_buffers@[j];
                    &&& buffer.descriptor_identifier == j
                    &&& buffer.rpu_address == rx_buffer_address_spec(j)
                    &&& buffer.data@.len() == RX_MAX_DATA_SIZE
                },
            decreases RX_BUFS - d,
        {
            let rpu_address = (RPU_MEM_PKT_BASE + RPU_PKTRAM_SIZE - RX_TOTAL_SIZE as u32) + (RX_BUF_SIZE * d) as u32;
            receive_buffers.push(ReceiveBuffer { rpu_address, descriptor_identifier: d, data: vec![0u8; RX_MAX_DATA_SIZE] });
            d = d + 1;
        }
        Rpu {
            bus,
            hostport_queues_info: None,
            rx_command_base_address: None,
            tx_command_base_address: None,
            num_commands: RPU_CMD_START_MAGIC,
            number_of_receive_queues: MAX_NUM_OF_RX_QUEUES,
            receive_buffers,
            write_log: Ghost(Seq::empty()),
            read_log: Ghost(Seq::empty()),
            status_log: Ghost(Seq::empty()),
        }
    }

    /// The bus.
    pub fn bus(&self) -> (r: &B)
        ensures
            *r == self.bus_spec(),
    {
        &self.bus
    }

    /// The hostport queues, once they are known.
    pub fn hostport_queues_info(&self) -> (r: Option<HostportQueuesInfo>)
        ensures
            r == self.queues_spec(),
    {
        self.hostport_queues_info
    }

    /// Reads one word at `offset` of a window, skipping the window's dummy
    /// words. Fails with `InvalidAddress` when the word lies outside the window.
    pub fn read_u32_from_region(&mut self, memory_region: &MemoryRegion, offset: u32) -> (r: Result<u32, Error>)
        requires
            memory_region.latency < 0x0FFF_FFFF,
        ensures
            r matches Ok(v) ==> final(self).reads() == old(self).reads().push(((memory_region.start + offset) as u32, v)),
            final(self).writes() == old(self).writes(),
            final(self).same_state(old(self)),
            r is Err <==> !region_access_ok(*memory_region, offset, 1),
            r is Err ==> r == Err::<u32, Error>(Error::InvalidAddress) && *final(self) == *old(self),
    {
        if !access_ok(memory_region, offset, 1) {
            return Err(Error::InvalidAddress);
        }
        let lat = memory_region.latency as usize;
        let buf = self.bus.read(memory_region.start + offset, lat + 1);
        self.read_log = Ghost(self.read_log@.push(((memory_region.start + offset) as u32, buf[lat as int])));
        Ok(buf[lat])
    }

    /// Reads `words` words from `offset` of a window, word by word. Fails with
    /// `InvalidAddress` when they do not all lie inside the window.
    pub fn read_buffer_from_region(&mut self, memory_region: &MemoryRegion, offset: u32, words: usize) -> (r: Result<
        Vec<u32>,
        Error,
    >)
        requires
            memory_region.latency < 0x0FFF_FFFF,
        ensures
            final(self).writes() == old(self).writes(),
            final(self).same_state(old(self)),
            r is Err <==> !region_access_ok(*memory_region, offset, words as int),
            r is Err ==> r == Err::<Vec<u32>, Error>(Error::InvalidAddress) && *final(self) == *old(self),
            r matches Ok(v) ==> v@.len() == words && final(self).reads() == old(self).reads() + word_reads(
                (memory_region.start + offset) as u32,
                v@,
            ),
    {
        if !access_ok(memory_region, offset, words) {
            return Err(Error::InvalidAddress);
        }
        let mut out: Vec<u32> = Vec::new();
        let mut i: usize = 0;
        while i < words
            invariant
                0 <= i <= words,
                region_access_ok(*memory_region, offset, words as int),
                memory_region.latency < 0x0FFF_FFFF,
                out@.len() == i,
                self.same_state(old(self)),
                self.writes() == old(self).writes(),
                self.reads() == old(self).reads() + word_reads((memory_region.start + offset) as u32, out@),
            decreases words - i,
        {
            let lat = memory_region.latency as usize;
            let addr = memory_region.start + offset + 4 * (i as u32);
            let buf = self.bus.read(addr, lat + 1);
            self.read_log = Ghost(self.read_log@.push((addr, buf[lat as int])));
            out.push(buf[lat]);
            i = i + 1;
            assert(self.reads() =~= old(self).reads() + word_reads((memory_region.start + offset) as u32, out@));
        }
        Ok(out)
    }

    /// Writes one word at `offset` of a window.
    pub fn write_u32_to_region(&mut self, memory_region: &MemoryRegion, offset: u32, value: u32) -> (r: Result<(), Error>)
        ensures
            final(self).reads() == old(self).reads(),
            r is Ok ==> final(self).writes() == old(self).writes().push(((memory_region.start + offset) as u32, seq![value])),
            final(self).same_state(old(self)),
            r is Err <==> !region_access_ok(*memory_region, offset, 1),
            r is Err ==> r == Err::<(), Error>(Error::InvalidAddress) && *final(self) == *old(self),
    {
        let buf = [value];
        assert(buf@ =~= seq![value]);
        self.write_buffer_to_region(memory_region, offset, &buf)
    }

    /// Writes `buffer` from `offset` of a window. Fails with `InvalidAddress`
    /// when it does not fit inside the window.
    pub fn write_buffer_to_region(&mut self, memory_region: &MemoryRegion, offset: u32, buffer: &[u32]) -> (r: Result<
        (),
        Error,
    >)
        ensures
            final(self).reads() == old(self).reads(),
            r is Ok ==> final(self).writes() == old(self).writes().push(((memory_region.start + offset) as u32, buffer@)),
            final(self).same_state(old(self)),
            r is Err <==> !region_access_ok(*memory_region, offset, buffer@.len() as int),
            r is Err ==> r == Err::<(), Error>(Error::InvalidAddress) && *final(self) == *old(self),
    {
        if !access_ok(memory_region, offset, buffer.len()) {
            return Err(Error::InvalidAddress);
        }
        self.bus.write(memory_region.start + offset, buffer);
        self.write_log = Ghost(self.write_log@.push(((memory_region.start + offset) as u32, buffer@)));
        Ok(())
    }

    /// Reads the word at co-processor address `rpu_address`.
    pub fn read_u32(&mut self, rpu_address: u32, processor: Option<ProcessorType>) -> (r: Result<u32, Error>)
        ensures
            r matches Ok(v) ==> final(self).reads() == old(self).reads().push((bus_address_spec(rpu_address, processor), v)),
            final(self).writes() == old(self).writes(),
            final(self).same_state(old(self)),
            r is Err <==> !global_access_ok(rpu_address, processor, 1),
            r is Err ==> r == Err::<u32, Error>(Error::InvalidAddress) && *final(self) == *old(self),
    {
        match remap_global_addr_to_region_and_offset(rpu_address, processor) {
            Some((memory_region, offset)) => {
                proof {
                    lemma_region_latency(rpu_address, processor);
                }
                self.read_u32_from_region(&memory_region, offset)
            },
            None => Err(Error::InvalidAddress),
        }
    }

    /// Reads `words` words from co-processor address `rpu_address`.
    pub fn read_buffer(&mut self, rpu_address: u32, processor: Option<ProcessorType>, words: usize) -> (r: Result<
        Vec<u32>,
        Error,
    >)
        ensures
            r matches Ok(v) ==> final(self).reads() == old(self).reads() + word_reads(bus_address_spec(rpu_address, processor), v@),
            final(self).writes() == old(self).writes(),
            final(self).same_state(old(self)),
            r is Err <==> !global_access_ok(rpu_address, processor, words as int),
            r is Err ==> r == Err::<Vec<u32>, Error>(Error::InvalidAddress) && *final(self) == *old(self),
            r matches Ok(v) ==> v@.len() == words,
    {
        match remap_global_addr_to_region_and_offset(rpu_address, processor) {
            Some((memory_region, offset)) => {
                proof {
                    lemma_region_latency(rpu_address, processor);
                }
                self.read_buffer_from_region(&memory_region, offset, words)
            },
            None => Err(Error::InvalidAddress),
        }
    }

    /// Writes a word at co-processor address `rpu_address`.
    pub fn write_u32(&mut self, rpu_address: u32, processor: Option<ProcessorType>, value: u32) -> (r: Result<(), Error>)
        ensures
            final(self).reads() == old(self).reads(),
            r is Ok ==> final(self).writes() == old(self).writes().push((bus_address_spec(rpu_address, processor), seq![value])),
            final(self).same_state(old(self)),
            r is Err <==> !global_access_ok(rpu_address, processor, 1),
            r is Err ==> r == Err::<(), Error>(Error::InvalidAddress) && *final(self) == *old(self),
    {
        match remap_global_addr_to_region_and_offset(rpu_address, processor) {
            Some((memory_region, offset)) => self.write_u32_to_region(&memory_region, offset, value),
            None => Err(Error::InvalidAddress),
        }
    }

    /// Writes `buffer` at co-processor address `rpu_address`.
    pub fn write_buffer(&mut self, rpu_address: u32, processor: Option<ProcessorType>, buffer: &[u32]) -> (r: Result<
        (),
        Error,
    >)
        ensures
            final(self).reads() == old(self).reads(),
            r is Ok ==> final(self).writes() == old(self).writes().push((bus_address_spec(rpu_address, processor), buffer@)),
            final(self).same_state(old(self)),
            r is Err <==> !global_access_ok(rpu_address, processor, buffer@.len() as int),
            r is Err ==> r == Err::<(), Error>(Error::InvalidAddress) && *final(self) == *old(self),
    {
        match remap_global_addr_to_region_and_offset(rpu_address, processor) {
            Some((memory_region, offset)) => self.write_buffer_to_region(&memory_region, offset, buffer),
            None => Err(Error::InvalidAddress),
        }
    }

    /// Puts `value` on a hostport queue.
    pub fn hostport_queue_enqueue(&mut self, hostport_queue: HostportQueue, value: u32) -> (r: Result<(), Error>)
        ensures
            final(self).reads() == old(self).reads(),
            r is Ok ==> final(self).writes() == old(self).writes().push((bus_address_spec(hostport_queue.enqueue_addr, None), seq![value])),
            final(self).same_state(old(self)),
            r is Err <==> !global_access_ok(hostport_queue.enqueue_addr, None, 1),
            r is Err ==> r == Err::<(), Error>(Error::InvalidAddress) && final(self).writes() == old(self).writes(),
    {
        self.write_u32(hostport_queue.enqueue_addr, None, value)
    }

    /// Takes a value from a hostport queue: reads the dequeue register and,
    /// unless it holds zero or the sentinel, writes the same value back to
    /// acknowledge it.
    pub fn hostport_queue_dequeue(&mut self, hostport_queue: HostportQueue) -> (r: Result<Option<u32>, Error>)
        ensures
            !global_access_ok(hostport_queue.dequeue_addr, None, 1) ==> r == Err::<Option<u32>, Error>(Error::InvalidAddress)
                && *final(self) == *old(self),
            appends(old(self).reads(), final(self).reads()),
            final(self).same_state(old(self)),
            r is Err <==> !global_access_ok(hostport_queue.dequeue_addr, None, 1),
            r is Err ==> r == Err::<Option<u32>, Error>(Error::InvalidAddress) && final(self).writes() == old(self).writes(),
            r is Ok ==> ({
                let addr = bus_address_spec(hostport_queue.dequeue_addr, None);
                let value = final(self).reads().last().1;
                &&& final(self).reads() == old(self).reads().push((addr, value))
                &&& match dequeue_value_spec(value) {
                    None => r == Ok::<Option<u32>, Error>(None) && final(self).writes() == old(self).writes(),
                    Some(v) => r == Ok::<Option<u32>, Error>(Some(v)) && final(self).writes() == old(
                        self,
                    ).writes().push((addr, seq![v])),
                }
            }),
    {
        let value = self.read_u32(hostport_queue.dequeue_addr, None)?;
        match dequeue_value(value) {
            Some(v) => {
                self.write_u32(hostport_queue.dequeue_addr, None, v)?;
                Ok(Some(v))
            },
            None => Ok(None),
        }
    }

    /// Acknowledges the interrupt from the co-processor.
    pub fn irq_ack(&mut self) -> (r: Result<(), Error>)
        ensures
            r is Ok,
            final(self).reads() == old(self).reads(),
            final(self).same_state(old(self)),
            r is Ok ==> final(self).writes() == old(self).writes().push(
                (bus_address_spec(RPU_REG_INT_FROM_MCU_ACK, None), seq![1u32 << RPU_REG_BIT_INT_FROM_MCU_ACK]),
            ),
    {
        proof {
            crate::memory::lemma_resolve_in_region(0, RPU_REG_INT_FROM_MCU_ACK, None);
        }
        self.write_u32(RPU_REG_INT_FROM_MCU_ACK, None, 1u32 << RPU_REG_BIT_INT_FROM_MCU_ACK)
    }

    /// Whether the watchdog raised the interrupt.
    pub fn irq_watchdog_check(&mut self) -> (r: Result<bool, Error>)
        ensures
            r is Ok,
            final(self).same_state(old(self)),
            final(self).writes() == old(self).writes(),
            r matches Ok(b) ==> final(self).reads() == old(self).reads().push(
                (bus_address_spec(RPU_REG_MIPS_MCU_UCCP_INT_STATUS, None), final(self).reads().last().1),
            ) && b == (final(self).reads().last().1 & (1u32 << RPU_REG_BIT_MIPS_WATCHDOG_INT_STATUS) != 0),
    {
        proof {
            crate::memory::lemma_resolve_in_region(0, RPU_REG_MIPS_MCU_UCCP_INT_STATUS, None);
        }
        let val = self.read_u32(RPU_REG_MIPS_MCU_UCCP_INT_STATUS, None)?;
        Ok(val & (1u32 << RPU_REG_BIT_MIPS_WATCHDOG_INT_STATUS) != 0)
    }

    /// Clears the watchdog interrupt.
    pub fn irq_watchdog_ack(&mut self) -> (r: Result<(), Error>)
        ensures
            r is Ok,
            final(self).reads() == old(self).reads(),
            final(self).same_state(old(self)),
            r is Ok ==> final(self).writes() == old(self).writes().push(
                (bus_address_spec(RPU_REG_MIPS_MCU_UCCP_INT_CLEAR, None), seq![1u32 << RPU_REG_BIT_MIPS_WATCHDOG_INT_CLEAR]),
            ),
    {
        proof {
            crate::memory::lemma_resolve_in_region(0, RPU_REG_MIPS_MCU_UCCP_INT_CLEAR, None);
        }
        self.write_u32(RPU_REG_MIPS_MCU_UCCP_INT_CLEAR, None, 1u32 << RPU_REG_BIT_MIPS_WATCHDOG_INT_CLEAR)
    }
}

/// Number of fragments a message of `n` words is sent in.
pub open spec fn fragments_spec(n: int) -> int {
    (n + (MAX_UMAC_CMD_SIZE / 4) as int - 1) / (MAX_UMAC_CMD_SIZE / 4) as int
}

/// The words of a framed command, least significant byte first.
pub open spec fn frame_words_spec(domain: MessageDomain, payload: Seq<u8>) -> Seq<u32> {
    let f = frame_spec(domain, payload);
    Seq::new((f.len() / 4) as nat, |i: int| crate::bus::le_word_spec(f, 4 * i))
}

/// The bus writes of an indirect write of `buf` to a core's memory: the word
/// address to the address register, then each word to the data register.
pub open spec fn core_writes(processor: ProcessorType, core_address: u32, buf: Seq<u32>) -> Seq<(u32, Seq<u32>)> {
    let (addr_reg, data_reg) = match processor {
        ProcessorType::Lmac => (RPU_REG_MIPS_MCU_SYS_CORE_MEM_CTRL, RPU_REG_MIPS_MCU_SYS_CORE_MEM_WDATA),
        ProcessorType::Umac => (RPU_REG_MIPS_MCU2_SYS_CORE_MEM_CTRL, RPU_REG_MIPS_MCU2_SYS_CORE_MEM_WDATA),
    };
    seq![(bus_address_spec(addr_reg, Some(processor)), seq![(core_address & RPU_ADDR_MASK_OFFSET) / 4])] + Seq::new(
        buf.len(),
        |i: int| (bus_address_spec(data_reg, Some(processor)), seq![buf[i]]),
    )
}

/// The receive command slot of a descriptor.
pub open spec fn rx_command_address_spec(base: u32, descriptor: u32) -> u32 {
    (base + RPU_DATA_CMD_SIZE_MAX_RX * descriptor) as u32
}

/// Fragment `j` of a message of words: its hundred words (or what is left).
pub open spec fn chunk_spec(m: Seq<u32>, j: int) -> Seq<u32> {
    let start = 100 * j;
    let end = if start + 100 < m.len() {
        start + 100
    } else {
        m.len() as int
    };
    m.subrange(start, end)
}

/// The doorbell word for command number `n`.
pub open spec fn doorbell_spec(n: int) -> u32 {
    ((n % 0x1_0000_0000) as u32) | 0x7fff_0000
}

/// The bus writes that sending the first `k` fragments of `m` makes, when the
/// command-available queue hands out `slots` and the command counter starts
/// at `n0`: for each fragment, the acknowledgement of its slot, the fragment
/// written to the slot, the slot posted on the command-busy queue, and the
/// doorbell rung with the command number.
pub open spec fn fragment_writes(info: HostportQueuesInfo, m: Seq<u32>, slots: Seq<u32>, n0: u32, k: nat) -> Seq<
    (u32, Seq<u32>),
>
    decreases k,
{
    if k == 0 {
        Seq::empty()
    } else {
        let j = k - 1;
        fragment_writes(info, m, slots, n0, j as nat) + seq![
            (bus_address_spec(info.cmd_avl_queue.dequeue_addr, None), seq![slots[j]]),
            (bus_address_spec(slots[j], None), chunk_spec(m, j)),
            (bus_address_spec(info.cmd_busy_queue.enqueue_addr, None), seq![slots[j]]),
            (bus_address_spec(RPU_REG_INT_TO_MCU_CTRL, Some(ProcessorType::Umac)), seq![doorbell_spec(n0 + j)]),
        ]
    }
}

/// An event taken from the co-processor: its outer header and payload.
pub struct Event {
    /// Where the event lies in co-processor memory.
    pub address: u32,
    /// Declared payload length.
    pub len: u32,
    /// Whether the co-processor asked for the event slot back at once.
    pub resubmit: u32,
    /// The message domain word.
    pub message_type: u32,
    /// The payload, `len` bytes.
    pub payload: Vec<u8>,
}

impl<B: Bus> Rpu<B> {
    /// Waits, up to ten tries a millisecond apart, until a command slot is
    /// free. Fails with `Timeout` when none comes, or when the queues are not
    /// known yet.
    fn wait_until_ready_for_new_command(&mut self) -> (r: Result<(), Error>)
        ensures
            appends(old(self).reads(), final(self).reads()),
            final(self).same_state(old(self)),
            final(self).writes() == old(self).writes(),
            r is Err ==> r == Err::<(), Error>(Error::Timeout) || r == Err::<(), Error>(Error::InvalidAddress),
            r == Err::<(), Error>(Error::Timeout) && old(self).queues_spec() is Some ==> no_free_slot(
                final(self).reads(),
                bus_address_spec(old(self).queues_spec()->Some_0.cmd_avl_queue.dequeue_addr, None),
            ),
    {
        let info = match self.hostport_queues_info {
            Some(info) => info,
            None => {
                return Err(Error::Timeout);
            },
        };
        let ghost addr = bus_address_spec(info.cmd_avl_queue.dequeue_addr, None);
        let mut tries: u32 = 0;
        while tries < COMMAND_SLOT_RETRIES
            invariant
                self.same_state(old(self)),
                self.writes() == old(self).writes(),
                old(self).queues_spec() == Some(info),
                appends(old(self).reads(), self.reads()),
                addr == bus_address_spec(info.cmd_avl_queue.dequeue_addr, None),
                tries <= COMMAND_SLOT_RETRIES,
                self.reads().len() >= tries,
                forall|j: int| self.reads().len() - tries <= j < self.reads().len() ==> (#[trigger] self.reads()[j]).0
                    == addr && dequeue_value_spec(self.reads()[j].1) is None,
            decreases COMMAND_SLOT_RETRIES - tries,
        {
            let value = self.read_u32(info.cmd_avl_queue.dequeue_addr, None)?;
            if value != 0 {
                return Ok(());
            }
            self.bus.delay_ms(1);
            tries = tries + 1;
        }
        Err(Error::Timeout)
    }

    /// Takes a free command slot address, trying up to ten times.
    fn take_command_slot(&mut self, info: HostportQueuesInfo) -> (r: Result<u32, Error>)
        ensures
            appends(old(self).reads(), final(self).reads()),
            final(self).same_state(old(self)),
            r is Err ==> r == Err::<u32, Error>(Error::Timeout) || r == Err::<u32, Error>(Error::InvalidAddress),
            r is Err ==> final(self).writes() == old(self).writes(),
            r == Err::<u32, Error>(Error::Timeout) ==> no_free_slot(
                final(self).reads(),
                bus_address_spec(info.cmd_avl_queue.dequeue_addr, None),
            ),
            r matches Ok(slot) ==> final(self).writes() == old(self).writes().push(
                (bus_address_spec(info.cmd_avl_queue.dequeue_addr, None), seq![slot]),
            ),
    {
        let mut tries: u32 = 0;
        while tries < COMMAND_SLOT_RETRIES
            invariant
                self.same_state(old(self)),
                self.writes() == old(self).writes(),
                appends(old(self).reads(), self.reads()),
                tries <= COMMAND_SLOT_RETRIES,
                self.reads().len() >= tries,
                forall|j: int| self.reads().len() - tries <= j < self.reads().len() ==> (#[trigger] self.reads()[j]).0
                    == bus_address_spec(info.cmd_avl_queue.dequeue_addr, None) && dequeue_value_spec(self.reads()[j].1) is None,
            decreases COMMAND_SLOT_RETRIES - tries,
        {
            if let Some(address) = self.hostport_queue_dequeue(info.cmd_avl_queue)? {
                return Ok(address);
            }
            self.bus.delay_ms(1);
            tries = tries + 1;
        }
        Err(Error::Timeout)
    }

    /// Hands a framed message to the co-processor, in fragments of at most
    /// the largest command size: for each, wait for a free slot, write the
    /// fragment there, post the slot on the command-busy queue and ring the
    /// doorbell with the command counter, which then advances by one.
    pub fn enqueue_command_and_trigger(&mut self, message: &[u32]) -> (r: Result<(), Error>)
        ensures
            appends(old(self).reads(), final(self).reads()),
            final(self).queues_spec() == old(self).queues_spec(),
            final(self).rx_command_base_spec() == old(self).rx_command_base_spec(),
            old(self).queues_spec() is None ==> r == Err::<(), Error>(Error::NotInitialized) && *final(self) == *old(self),
            r is Err ==> r == Err::<(), Error>(Error::NotInitialized) || r == Err::<(), Error>(Error::Timeout) || r
                == Err::<(), Error>(Error::InvalidAddress),
            r == Err::<(), Error>(Error::Timeout) ==> no_free_slot(
                final(self).reads(),
                bus_address_spec(old(self).queues_spec()->Some_0.cmd_avl_queue.dequeue_addr, None),
            ),
            old(self).pool_wf() ==> final(self).pool_wf(),
            r is Ok ==> final(self).num_commands_spec() as int == (old(self).num_commands_spec() as int
                + fragments_spec(message@.len() as int)) % 0x1_0000_0000,
            r is Ok ==> exists|slots: Seq<u32>|
                #![trigger fragment_writes(old(self).queues_spec()->Some_0, message@, slots, old(self).num_commands_spec(), fragments_spec(message@.len() as int) as nat)]
                final(self).writes() == old(self).writes() + fragment_writes(
                    old(self).queues_spec()->Some_0,
                    message@,
                    slots,
                    old(self).num_commands_spec(),
                    fragments_spec(message@.len() as int) as nat,
                ),
    {
        let info = match self.hostport_queues_info {
            Some(info) => info,
            None => {
                return Err(Error::NotInitialized);
            },
        };
        let total = message.len();
        let chunk_words: usize = MAX_UMAC_CMD_SIZE / 4;
        let mut offset: usize = 0;
        let ghost mut k: int = 0;
        let ghost mut slots: Seq<u32> = Seq::empty();
        while offset < total
            invariant
                0 <= offset <= total == message@.len(),
                chunk_words == 100,
                0 <= k,
                offset < total ==> offset == 100 * k,
                offset == total ==> (k == 0 && total == 0) || (100 * k - 100 < offset <= 100 * k),
                self.hostport_queues_info == Some(info),
                old(self).hostport_queues_info == Some(info),
                self.rx_command_base_address == old(self).rx_command_base_address,
                self.tx_command_base_address == old(self).tx_command_base_address,
                self.number_of_receive_queues == old(self).number_of_receive_queues,
                self.receive_buffers@ == old(self).receive_buffers@,
                self.num_commands as int == (old(self).num_commands as int + k) % 0x1_0000_0000,
                slots.len() == k,
                appends(old(self).reads(), self.reads()),
                self.writes() == old(self).writes() + fragment_writes(info, message@, slots, old(self).num_commands, k as nat),
            decreases total - offset,
        {
            let n = if total - offset > chunk_words {
                chunk_words
            } else {
                total - offset
            };
            self.wait_until_ready_for_new_command()?;
            let ghost w0 = self.writes();
            let message_address = self.take_command_slot(info)?;
            let chunk = slice_subrange(message, offset, offset + n);
            self.write_buffer(message_address, None, chunk)?;
            self.hostport_queue_enqueue(info.cmd_busy_queue, message_address)?;
            let ghost bell = self.num_commands;
            self.write_u32(RPU_REG_INT_TO_MCU_CTRL, Some(ProcessorType::Umac), self.num_commands | 0x7fff_0000)?;
            self.num_commands = self.num_commands.wrapping_add(1);
            offset = offset + n;
            proof {
                let ghost prev_slots = slots;
                slots = slots.push(message_address);
                assert(slots.subrange(0, k) =~= prev_slots);
                assert(chunk@ == chunk_spec(message@, k));
                assert(doorbell_spec(old(self).num_commands + k) == bell | 0x7fff_0000);
                lemma_fragment_writes_prefix(info, message@, prev_slots, slots, old(self).num_commands, k as nat);
                k = k + 1;
                assert(self.writes() =~= old(self).writes() + fragment_writes(info, message@, slots, old(self).num_commands, k as nat));
            }
        }
        proof {
            if total == 0 {
                assert(fragments_spec(0) == 0);
            } else {
                assert(fragments_spec(total as int) == k);
            }
        }
        assert(self.writes() == old(self).writes() + fragment_writes(
            old(self).queues_spec()->Some_0,
            message@,
            slots,
            old(self).num_commands_spec(),
            fragments_spec(message@.len() as int) as nat,
        ));
        Ok(())
    }

    /// Frames `payload` for `domain` and sends it on the general command path.
    /// Fails with `BufferOverflow` when it does not fit the scratch buffer, and
    /// with `NotInitialized` before the queues are known.
    pub fn send_command_raw(&mut self, domain: MessageDomain, payload: &[u8]) -> (r: Result<(), Error>)
        ensures
            appends(old(self).reads(), final(self).reads()),
            final(self).queues_spec() == old(self).queues_spec(),
            final(self).rx_command_base_spec() == old(self).rx_command_base_spec(),
            old(self).pool_wf() ==> final(self).pool_wf(),
            MSG_HEADER_SIZE + payload@.len() > MAX_CMD_SIZE ==> r == Err::<(), Error>(Error::BufferOverflow)
                && *final(self) == *old(self),
            MSG_HEADER_SIZE + payload@.len() <= MAX_CMD_SIZE && old(self).queues_spec() is None ==> r == Err::<
                (),
                Error,
            >(Error::NotInitialized),
            r is Err ==> r == Err::<(), Error>(Error::BufferOverflow) || r == Err::<(), Error>(Error::NotInitialized)
                || r == Err::<(), Error>(Error::Timeout) || r == Err::<(), Error>(Error::InvalidAddress),
            r == Err::<(), Error>(Error::Timeout) ==> no_free_slot(
                final(self).reads(),
                bus_address_spec(old(self).queues_spec()->Some_0.cmd_avl_queue.dequeue_addr, None),
            ),
            r is Ok ==> final(self).num_commands_spec() as int == (old(self).num_commands_spec() as int
                + fragments_spec(frame_spec(domain, payload@).len() as int / 4)) % 0x1_0000_0000,
            r is Ok ==> exists|slots: Seq<u32>|
                #![trigger fragment_writes(old(self).queues_spec()->Some_0, frame_words_spec(domain, payload@), slots, old(self).num_commands_spec(), fragments_spec(frame_words_spec(domain, payload@).len() as int) as nat)]
                final(self).writes() == old(self).writes() + fragment_writes(
                    old(self).queues_spec()->Some_0,
                    frame_words_spec(domain, payload@),
                    slots,
                    old(self).num_commands_spec(),
                    fragments_spec(frame_words_spec(domain, payload@).len() as int) as nat,
                ),
    {
        let frame = frame_command(domain, payload)?;
        let words = bytes_to_words(frame.as_slice(), frame.len() / 4);
        assert(words@ =~= frame_words_spec(domain, payload@));
        self.enqueue_command_and_trigger(words.as_slice())
    }

    /// Writes `buf` to a core's memory through its indirect window: the word
    /// address to the address register, then each word to the data register.
    fn write_core(&mut self, core_address: u32, buf: &[u32], processor: ProcessorType) -> (r: Result<(), Error>)
        ensures
            final(self).reads() == old(self).reads(),
            final(self).same_state(old(self)),
            r is Ok ==> final(self).writes() == old(self).writes() + core_writes(processor, core_address, buf@),
    {
        let addr = (core_address & RPU_ADDR_MASK_OFFSET) / 4;
        let (addr_reg, data_reg) = match processor {
            ProcessorType::Lmac => (RPU_REG_MIPS_MCU_SYS_CORE_MEM_CTRL, RPU_REG_MIPS_MCU_SYS_CORE_MEM_WDATA),
            ProcessorType::Umac => (RPU_REG_MIPS_MCU2_SYS_CORE_MEM_CTRL, RPU_REG_MIPS_MCU2_SYS_CORE_MEM_WDATA),
        };
        self.write_u32(addr_reg, Some(processor), addr)?;
        let ghost first = self.writes();
        let mut i: usize = 0;
        while i < buf.len()
            invariant
                self.same_state(old(self)),
                0 <= i <= buf@.len(),
                self.writes() == first + Seq::new(i as nat, |q: int| (bus_address_spec(data_reg, Some(processor)), seq![buf@[q]])),
                self.reads() == old(self).reads(),
            decreases buf@.len() - i,
        {
            self.write_u32(data_reg, Some(processor), buf[i])?;
            i = i + 1;
            assert(self.writes() =~= first + Seq::new(i as nat, |q: int| (bus_address_spec(data_reg, Some(processor)), seq![buf@[q]])));
        }
        assert(self.writes() =~= old(self).writes() + core_writes(processor, core_address, buf@));
        Ok(())
    }

    /// Registers a receive buffer with the co-processor: writes the receive
    /// command into the LMAC core's command slot of the descriptor, then posts
    /// the slot on the receive queue. Fails with `InvalidAddress` before the
    /// command area is known and `NotInitialized` before the queues are.
    pub fn send_rx_command(&mut self, command: &[u32], descriptor_identifier: u32, queue_identifier: usize) -> (r: Result<
        (),
        Error,
    >)
        requires
            queue_identifier < MAX_NUM_OF_RX_QUEUES,
        ensures
            final(self).reads() == old(self).reads(),
            final(self).same_state(old(self)),
            old(self).rx_command_base_spec() is None ==> r == Err::<(), Error>(Error::InvalidAddress),
            old(self).rx_command_base_spec() is Some && old(self).queues_spec() is None ==> r == Err::<(), Error>(
                Error::NotInitialized,
            ),
            r is Ok ==> ({
                let address = rx_command_address_spec(old(self).rx_command_base_spec()->Some_0, descriptor_identifier);
                final(self).writes() == old(self).writes() + core_writes(
                    ProcessorType::Lmac,
                    (address & RPU_ADDR_MASK_OFFSET) | RPU_MCU_CORE_INDIRECT_BASE,
                    command@,
                ) + seq![
                    (bus_address_spec(rx_queue_spec(old(self).queues_spec()->Some_0, queue_identifier as int).enqueue_addr, None), seq![address]),
                ]
            }),
    {
        let address_base = match self.rx_command_base_address {
            Some(a) => a,
            None => {
                return Err(Error::InvalidAddress);
            },
        };
        let info = match self.hostport_queues_info {
            Some(info) => info,
            None => {
                return Err(Error::NotInitialized);
            },
        };
        if descriptor_identifier > (u32::MAX - address_base) / RPU_DATA_CMD_SIZE_MAX_RX {
            return Err(Error::InvalidAddress);
        }
        let address = address_base + RPU_DATA_CMD_SIZE_MAX_RX * descriptor_identifier;
        let host_address = (address & RPU_ADDR_MASK_OFFSET) | RPU_MCU_CORE_INDIRECT_BASE;
        self.write_core(host_address, command, ProcessorType::Lmac)?;
        self.hostport_queue_enqueue(info.rx_queue(queue_identifier), address)
    }

    /// Gives an event slot back to the co-processor.
    fn free_event(&mut self, event_address: u32) -> (r: Result<(), Error>)
        ensures
            final(self).same_state(old(self)),
            r is Ok ==> final(self).writes() == old(self).writes().push(
                (bus_address_spec(old(self).queues_spec()->Some_0.event_avl_queue.enqueue_addr, None), seq![event_address]),
            ),
            old(self).queues_spec() is None ==> r == Err::<(), Error>(Error::NotInitialized),
            r is Err ==> r == Err::<(), Error>(Error::NotInitialized) || r == Err::<(), Error>(Error::InvalidAddress),
            r is Err ==> final(self).writes() == old(self).writes(),
            r == Err::<(), Error>(Error::InvalidAddress) ==> !global_access_ok(
                old(self).queues_spec()->Some_0.event_avl_queue.enqueue_addr,
                None,
                1,
            ),
            final(self).reads() == old(self).reads(),
    {
        let info = match self.hostport_queues_info {
            Some(info) => info,
            None => {
                return Err(Error::NotInitialized);
            },
        };
        self.hostport_queue_enqueue(info.event_avl_queue, event_address)
    }

    /// Takes one event from the event-busy queue and reads its header and
    /// payload. When the header asks for it, the slot goes back to the
    /// event-available queue at once. Fails with `NotInitialized` before the
    /// queues are known, `NoData` when the queue is empty, and
    /// `BufferOverflow` for an event longer than the driver reads.
    pub fn read_event(&mut self) -> (r: Result<Event, Error>)
        ensures
            final(self).same_state(old(self)),
            old(self).queues_spec() is None ==> r == Err::<Event, Error>(Error::NotInitialized) && *final(self) == *old(self),
            appends(old(self).writes(), final(self).writes()),
            r == Err::<Event, Error>(Error::NoData) ==> final(self).writes() == old(self).writes()
                && final(self).reads().len() == old(self).reads().len() + 1,
            r is Err ==> r == Err::<Event, Error>(Error::NotInitialized) || r == Err::<Event, Error>(Error::NoData) || r
                == Err::<Event, Error>(Error::InvalidAddress) || r == Err::<Event, Error>(Error::BufferOverflow),
            r == Err::<Event, Error>(Error::BufferOverflow) ==> ({
                let n = old(self).reads().len() as int;
                final(self).reads().len() >= n + 4 && final(self).reads()[n + 1].1 > MAX_EVENT_POOL_LEN
            }),
            r == Err::<Event, Error>(Error::InvalidAddress) ==> event_unmapped(
                old(self).queues_spec()->Some_0,
                old(self).reads().len() as int,
                final(self).reads(),
            ),
            old(self).queues_spec() is Some && global_access_ok(
                old(self).queues_spec()->Some_0.event_busy_queue.dequeue_addr,
                None,
                1,
            ) ==> {
                let info = old(self).queues_spec()->Some_0;
                let n = old(self).reads().len() as int;
                &&& final(self).reads().len() > n
                &&& final(self).reads()[n].0 == bus_address_spec(info.event_busy_queue.dequeue_addr, None)
                &&& (dequeue_value_spec(final(self).reads()[n].1) is None <==> r == Err::<Event, Error>(Error::NoData))
            },
            r matches Ok(e) ==> exists|w: Seq<u32>|
                #![trigger word_reads(bus_address_spec((e.address + MSG_HEADER_SIZE) as u32, None), w)]
                {
                    let info = old(self).queues_spec()->Some_0;
                    &&& final(self).reads() == old(self).reads() + seq![
                        (bus_address_spec(info.event_busy_queue.dequeue_addr, None), e.address),
                    ] + word_reads(bus_address_spec(e.address, None), seq![e.len, e.resubmit, e.message_type])
                        + word_reads(bus_address_spec((e.address + MSG_HEADER_SIZE) as u32, None), w)
                    &&& e.payload@ == crate::bus::words_bytes_spec(w).subrange(0, e.len as int)
                },
            r matches Ok(e) ==> {
                let info = old(self).queues_spec()->Some_0;
                let taken = seq![(bus_address_spec(info.event_busy_queue.dequeue_addr, None), seq![e.address])];
                &&& e.payload@.len() == e.len
                &&& e.len <= MAX_EVENT_POOL_LEN
                &&& final(self).writes() == old(self).writes() + taken + if e.resubmit > 0 {
                    seq![(bus_address_spec(info.event_avl_queue.enqueue_addr, None), seq![e.address])]
                } else {
                    Seq::empty()
                }
            },
    {
        let info = match self.hostport_queues_info {
            Some(info) => info,
            None => {
                return Err(Error::NotInitialized);
            },
        };
        let event_address = match self.hostport_queue_dequeue(info.event_busy_queue)? {
            Some(a) => a,
            None => {
                return Err(Error::NoData);
            },
        };
        let ghost after_dequeue = self.reads();
        let ghost n = old(self).reads().len() as int;
        assert(self.reads()[n].1 == event_address);
        let header = match self.read_buffer(event_address, None, 3) {
            Ok(h) => h,
            Err(e) => {
                return Err(e);
            },
        };
        assert(header@ =~= seq![header[0], header[1], header[2]]);
        assert(self.reads()[n + 1].1 == header[0]);
        assert(self.reads()[n + 2].1 == header[1]);
        assert(self.reads()[n].1 == event_address);
        let len = header[0];
        let resubmit = header[1];
        let message_type = header[2];
        if resubmit > 0 {
            self.free_event(event_address)?;
        }
        if len as usize > MAX_EVENT_POOL_LEN {
            return Err(Error::BufferOverflow);
        }
        if event_address > u32::MAX - MSG_HEADER_SIZE as u32 {
            return Err(Error::InvalidAddress);
        }
        let words = self.read_buffer(event_address + MSG_HEADER_SIZE as u32, None, (len as usize + 3) / 4)?;
        let bytes = words_to_bytes(words.as_slice());
        let payload = slice_to_vec(slice_subrange(bytes.as_slice(), 0, len as usize));
        assert(self.reads() =~= old(self).reads() + seq![
            (bus_address_spec(info.event_busy_queue.dequeue_addr, None), event_address),
        ] + word_reads(bus_address_spec(event_address, None), seq![len, resubmit, message_type])
            + word_reads(bus_address_spec((event_address + MSG_HEADER_SIZE) as u32, None), words@));
        assert(self.writes() =~= old(self).writes() + seq![
            (bus_address_spec(info.event_busy_queue.dequeue_addr, None), seq![event_address]),
        ] + if resubmit > 0 {
            seq![(bus_address_spec(info.event_avl_queue.enqueue_addr, None), seq![event_address])]
        } else {
            Seq::empty()
        });
        Ok(Event { address: event_address, len, resubmit, message_type, payload })
    }
}

proof fn lemma_fragment_writes_prefix(
    info: HostportQueuesInfo,
    m: Seq<u32>,
    slots: Seq<u32>,
    longer: Seq<u32>,
    n0: u32,
    k: nat,
)
    requires
        slots.len() == k,
        longer.len() >= k,
        longer.subrange(0, k as int) == slots,
    ensures
        fragment_writes(info, m, slots, n0, k) == fragment_writes(info, m, longer, n0, k),
    decreases k,
{
    if k > 0 {
        assert(longer.subrange(0, k - 1) =~= slots.subrange(0, k - 1));
        lemma_fragment_writes_prefix(info, m, slots.subrange(0, k - 1), longer, n0, (k - 1) as nat);
        lemma_fragment_writes_prefix(info, m, slots.subrange(0, k - 1), slots, n0, (k - 1) as nat);
        assert(slots[k - 1] == longer[k - 1]);
    }
}

proof fn lemma_region_latency(addr: u32, processor: Option<ProcessorType>)
    ensures
        resolve_spec(addr, processor) matches Some((r, off)) ==> r.latency <= 2,
{
    lemma_first_match_in_table(addr, processor, 0);
}

proof fn lemma_first_match_in_table(addr: u32, processor: Option<ProcessorType>, k: int)
    requires
        0 <= k,
    ensures
        crate::memory::first_match(addr, processor, k) matches Some(j) ==> 0 <= j < NUM_REGIONS
            && region_spec(j).latency <= 2,
    decreases NUM_REGIONS - k,
{
    if k < NUM_REGIONS {
        lemma_first_match_in_table(addr, processor, k + 1);
    }
}

} // verus!
