//! The boot sequence, action execution and interrupt servicing of the
//! co-processor handle.
use vstd::prelude::*;
use vstd::slice::slice_subrange;

use super::rx::event_effect_spec;
use super::{
    appends, bus_address_spec, global_access_ok, core_writes, fragment_writes, fragments_spec, frame_words_spec, rx_buffer_address_spec,
    rx_command_address_spec, rx_queue_spec, word_reads, RPU_ADDR_MASK_OFFSET, RPU_MCU_CORE_INDIRECT_BASE,
};
use super::{
    RPU_REG_BIT_INT_FROM_MCU_ACK, RPU_REG_BIT_MIPS_WATCHDOG_INT_CLEAR, RPU_REG_BIT_MIPS_WATCHDOG_INT_STATUS,
    RPU_REG_INT_FROM_MCU_ACK, RPU_REG_MIPS_MCU_UCCP_INT_CLEAR, RPU_REG_MIPS_MCU_UCCP_INT_STATUS,
};
use super::{HostportQueuesInfo, Rpu, StatusOp, HPQM_INFO_WORDS, RX_BUFS, RX_BUFS_PER_QUEUE, RX_BUF_HEADROOM};
use crate::bus::{bytes_to_words, words_bytes_spec, words_to_bytes, Bus};
use crate::commands::{MessageDomain, MAX_CMD_SIZE, MSG_HEADER_SIZE};
use crate::memory::{region, region_spec, remap_global_addr_to_region_and_offset, resolve_spec, ProcessorType};
use crate::Error;
use crate::action::{respond_spec, Action, ActionState, ActionView, Item};
use crate::control::{sys_init_command, sys_init_spec, UMAC_INFO_CALIB_XO_OFFSET, UMAC_INFO_WORDS};
use crate::firmware::{image_matches, destination_spec, processor_spec, ImageKind, parse_spec, read_le_u32, FirmwareInfo, FirmwareVersion};
use crate::memory::PBUS;
use crate::commands::zeros;
use crate::memory::{lemma_resolve_in_region, PKTRAM};
use crate::rf::{derive_rf_parameters, nrf_wifi_tx_pwr_ceil_params, rf_params_spec, RfParameters, RF_PARAM_LENGTH};

verus! {

/// Status register 1: the co-processor is awake.
pub const SR1_RPU_AWAKE: u8 = 0x02;
/// Status register 1: the co-processor is ready.
pub const SR1_RPU_READY: u8 = 0x04;
/// Status register 2: wake-up request.
pub const SR2_RPU_WAKEUP_REQ: u8 = 0x01;
/// Tries, one millisecond apart, of each wake-up handshake step.
pub const WAKE_RETRIES: u32 = 10;
/// Reads of a reset or ready bit before giving up.
pub const RESET_POLL_LIMIT: u32 = 1000;
/// Reads of a boot signature, ten milliseconds apart, before giving up.
pub const BOOT_SIGNATURE_POLLS: u32 = 500;
/// Size of each piece an image is written in.
pub const FIRMWARE_CHUNK_SIZE: usize = 1024;
/// Interrupt control register of the co-processor.
pub const RPU_REG_INT_FROM_RPU_CTRL: u32 = 0xA400_0400;
/// Enable bit of that register.
pub const RPU_REG_BIT_INT_FROM_RPU_CTRL: u32 = 17;
/// Interrupt line register towards the host.
pub const RPU_REG_INT_FROM_MCU_CTRL: u32 = 0xA400_0494;
/// Enable bit of that register.
pub const RPU_REG_BIT_INT_FROM_MCU_CTRL: u32 = 31;
/// Control register of the LMAC core.
pub const RPU_REG_MIPS_MCU_CONTROL: u32 = 0xA400_0000;
/// Control register of the UMAC core.
pub const RPU_REG_MIPS_MCU2_CONTROL: u32 = 0xA400_0100;
/// Boot exception register of the LMAC core.
pub const RPU_REG_MIPS_MCU_BOOT_EXCP: u32 = 0xA400_0018;
/// Boot exception register of the UMAC core.
pub const RPU_REG_MIPS_MCU2_BOOT_EXCP: u32 = 0xA400_0118;
/// Sleep-control data register that takes the LMAC ROM patch offset.
pub const RPU_REG_UCC_SLEEP_CTRL_DATA_0: u32 = 0xA400_2C2C;
/// Sleep-control data register that takes the UMAC ROM patch offset.
pub const RPU_REG_UCC_SLEEP_CTRL_DATA_1: u32 = 0xA400_2C30;
/// First boot exception instruction register of the LMAC core.
pub const RPU_REG_MIPS_MCU_BOOT_EXCP_INSTR_0: u32 = 0xA400_0050;
/// First boot exception instruction register of the UMAC core.
pub const RPU_REG_MIPS_MCU2_BOOT_EXCP_INSTR_0: u32 = 0xA400_0150;
/// The boot exception vector, four instructions.
pub const BOOT_EXCP_VECT_0: u32 = 0x3C1A_8000;
pub const BOOT_EXCP_VECT_1: u32 = 0x275A_0000;
pub const BOOT_EXCP_VECT_2: u32 = 0x0340_0008;
pub const BOOT_EXCP_VECT_3: u32 = 0x0000_0000;
/// ROM patch offset of the LMAC core.
pub const LMAC_ROM_PATCH_OFFSET: u32 = 0x0004_9000;
/// ROM patch offset of the UMAC core.
pub const UMAC_ROM_PATCH_OFFSET: u32 = 0x0009_9400;
/// Where the LMAC core writes its boot signature.
pub const RPU_MEM_LMAC_BOOT_SIG: u32 = 0xB700_0D50;
/// Where the UMAC core writes its boot signature; also the UMAC information block.
pub const RPU_MEM_UMAC_BOOT_SIG: u32 = 0xB000_0000;
/// The boot signature a core writes once its firmware runs.
pub const BOOT_SIG: u32 = 0x5A5A_5A5A;
/// The UMAC firmware version word.
pub const RPU_MEM_UMAC_VER: u32 = 0xB000_0004;
/// The hostport queue descriptor block.
pub const RPU_MEM_HPQ_INFO: u32 = 0xB000_0024;
/// The receive command area base word.
pub const RPU_MEM_RX_CMD_BASE: u32 = 0xB700_0D58;
/// The transmit command area.
pub const RPU_MEM_TX_CMD_BASE: u32 = 0xB000_00B8;
/// OTP flags word.
pub const RPU_MEM_OTP_INFO_FLAGS: u32 = 0xB000_4FDC;
/// OTP test-program version word.
pub const RPU_MEM_OTP_FT_PROG_VERSION: u32 = 0xB000_4FD8;
/// OTP package type word.
pub const RPU_MEM_OTP_PACKAGE_TYPE: u32 = 0xB000_4FD4;

/// The writes that boot one core: its boot signature cleared, its ROM patch
/// offset, the four words of its boot exception vector, its reset pulse.
pub open spec fn core_boot_writes(p: ProcessorType) -> Seq<(u32, Seq<u32>)> {
    let (sig, sleep, patch, instr, control) = match p {
        ProcessorType::Lmac => (
            RPU_MEM_LMAC_BOOT_SIG,
            RPU_REG_UCC_SLEEP_CTRL_DATA_0,
            LMAC_ROM_PATCH_OFFSET,
            RPU_REG_MIPS_MCU_BOOT_EXCP_INSTR_0,
            RPU_REG_MIPS_MCU_CONTROL,
        ),
        ProcessorType::Umac => (
            RPU_MEM_UMAC_BOOT_SIG,
            RPU_REG_UCC_SLEEP_CTRL_DATA_1,
            UMAC_ROM_PATCH_OFFSET,
            RPU_REG_MIPS_MCU2_BOOT_EXCP_INSTR_0,
            RPU_REG_MIPS_MCU2_CONTROL,
        ),
    };
    let at = |a: u32| bus_address_spec(a, Some(p));
    seq![
        (at(sig), seq![0u32]),
        (at(sleep), seq![patch]),
        (at(instr), seq![BOOT_EXCP_VECT_0]),
        (at((instr + 4) as u32), seq![BOOT_EXCP_VECT_1]),
        (at((instr + 8) as u32), seq![BOOT_EXCP_VECT_2]),
        (at((instr + 12) as u32), seq![BOOT_EXCP_VECT_3]),
        (at(control), seq![1u32]),
    ]
}

/// The boot writes of the first `k` cores, LMAC first.
pub open spec fn boot_writes_upto(k: int) -> Seq<(u32, Seq<u32>)> {
    if k <= 0 {
        Seq::empty()
    } else if k == 1 {
        core_boot_writes(ProcessorType::Lmac)
    } else {
        core_boot_writes(ProcessorType::Lmac) + core_boot_writes(ProcessorType::Umac)
    }
}

/// The writes that register the first `n` receive buffers: the descriptor
/// written to the buffer's header word, the receive command (the address of
/// the buffer's data) written to the LMAC core's command slot of the
/// descriptor, and the slot posted on the buffer's receive queue.
pub open spec fn seed_writes(info: HostportQueuesInfo, base: u32, n: nat) -> Seq<(u32, Seq<u32>)>
    decreases n,
{
    if n == 0 {
        Seq::empty()
    } else {
        let d = n - 1;
        let a = rx_buffer_address_spec(d) as u32;
        let slot = rx_command_address_spec(base, d as u32);
        seed_writes(info, base, d as nat) + seq![(bus_address_spec(a, None), seq![d as u32])] + core_writes(
            ProcessorType::Lmac,
            (slot & RPU_ADDR_MASK_OFFSET) | RPU_MCU_CORE_INDIRECT_BASE,
            seq![(a + RX_BUF_HEADROOM) as u32],
        ) + seq![(bus_address_spec(rx_queue_spec(info, d / RX_BUFS_PER_QUEUE as int).enqueue_addr, None), seq![slot])]
    }
}

/// The bus writes of a successful boot, after whatever `pre` the steps up to
/// the image load wrote: each core booted, the receive buffers registered,
/// then the system initialisation command `cmd` sent in fragments to the
/// command slots `slots`, numbered from `n0`.
pub open spec fn boot_writes_spec(
    pre: Seq<(u32, Seq<u32>)>,
    info: HostportQueuesInfo,
    base: u32,
    cmd: Seq<u8>,
    slots: Seq<u32>,
    n0: u32,
) -> Seq<(u32, Seq<u32>)> {
    let m = frame_words_spec(MessageDomain::System, cmd);
    pre + boot_writes_upto(2) + seed_writes(info, base, RX_BUFS as nat) + fragment_writes(
        info,
        m,
        slots,
        n0,
        fragments_spec(m.len() as int) as nat,
    )
}

/// The writes and state a successful boot leaves: the boot write sequence
/// (`boot_writes_spec`) for the queues and command area the boot found, with
/// the command counter starting at `n0`, a system initialisation command for
/// an RF block derived from the board ceilings and default calibration.
pub open spec fn boot_done<B: Bus>(
    s: &Rpu<B>,
    w0: Seq<(u32, Seq<u32>)>,
    n0: u32,
    images: Seq<Option<(ImageKind, Seq<u8>)>>,
) -> bool {
    exists|v: u32, slots: Seq<u32>, cmd: Seq<u8>, rf: crate::rf::nrf_wifi_phy_rf_params|
        #![trigger boot_writes_spec(w0 + bring_up_writes(v) + load_writes(images, 4), s.queues_spec()->Some_0, s.rx_command_base_spec()->Some_0, cmd, slots, n0), sys_init_spec(cmd, rf)]
        {
            &&& s.writes() == boot_writes_spec(
                w0 + bring_up_writes(v) + load_writes(images, 4),
                s.queues_spec()->Some_0,
                s.rx_command_base_spec()->Some_0,
                cmd,
                slots,
                n0,
            )
            &&& sys_init_spec(cmd, rf)
            &&& exists|package: u32, ft: u32, otp: u32, w: Seq<u32>, k: int|
                #[trigger] otp_reads_at(s.reads(), k, w, otp, ft, package) && rf_params_spec(
                    rf,
                    package,
                    ft,
                    otp,
                    calib_xo_spec(words_bytes_spec(w)),
                    board_ceilings_spec(),
                    zeros(RF_PARAM_LENGTH as int),
                )
        }
}

/// The reads of the calibration inputs, ending at position `k + 1` of the
/// read log: the UMAC information block `w`, the OTP flags `otp`, the
/// test-program word `ft`, the package type `package`.
pub open spec fn otp_reads_at(reads: Seq<(u32, u32)>, k: int, w: Seq<u32>, otp: u32, ft: u32, package: u32) -> bool {
    &&& w.len() == UMAC_INFO_WORDS
    &&& UMAC_INFO_WORDS + 1 <= k
    &&& k + 2 <= reads.len()
    &&& reads.subrange(k - UMAC_INFO_WORDS - 1, k - 1) == word_reads(bus_address_spec(RPU_MEM_UMAC_BOOT_SIG, None), w)
    &&& reads[k - 1] == (bus_address_spec(RPU_MEM_OTP_INFO_FLAGS, None), otp)
    &&& reads[k] == (bus_address_spec(RPU_MEM_OTP_FT_PROG_VERSION, None), ft)
    &&& reads[k + 1] == (bus_address_spec(RPU_MEM_OTP_PACKAGE_TYPE, None), package)
}

/// The words of piece `j` of image data `d`, cut in pieces of 1024 bytes.
pub open spec fn chunk_words(d: Seq<u8>, j: int) -> Seq<u32> {
    let start = FIRMWARE_CHUNK_SIZE * j;
    let end = if start + FIRMWARE_CHUNK_SIZE < d.len() {
        start + FIRMWARE_CHUNK_SIZE
    } else {
        d.len() as int
    };
    let c = d.subrange(start, end);
    Seq::new(((c.len() + 3) / 4) as nat, |i: int| crate::bus::le_word_spec(c, 4 * i))
}

/// The writes of the first `j` pieces of image data `d` to bus address `base` on.
pub open spec fn chunk_writes(d: Seq<u8>, base: int, j: nat) -> Seq<(u32, Seq<u32>)>
    decreases j,
{
    if j == 0 {
        Seq::empty()
    } else {
        chunk_writes(d, base, (j - 1) as nat).push(((base + FIRMWARE_CHUNK_SIZE * (j - 1)) as u32, chunk_words(d, j - 1)))
    }
}

/// The writes that load one image slot: its pieces, at its destination as
/// its core sees it.
pub open spec fn image_writes(img: Option<(ImageKind, Seq<u8>)>) -> Seq<(u32, Seq<u32>)> {
    match img {
        None => Seq::empty(),
        Some((kind, d)) => match resolve_spec(destination_spec(kind), Some(processor_spec(kind))) {
            Some((r, off)) => chunk_writes(d, r.start + off, ((d.len() + 1023) / 1024) as nat),
            None => Seq::empty(),
        },
    }
}

/// The writes that load the first `k` image slots.
pub open spec fn load_writes(images: Seq<Option<(ImageKind, Seq<u8>)>>, k: nat) -> Seq<(u32, Seq<u32>)>
    decreases k,
{
    if k == 0 {
        Seq::empty()
    } else {
        load_writes(images, (k - 1) as nat) + image_writes(images[k - 1])
    }
}

/// The image slots of a parsed blob: kind and data of each.
pub open spec fn info_images(info: FirmwareInfo) -> Seq<Option<(ImageKind, Seq<u8>)>> {
    Seq::new(4, |k: int| match info.images@[k] {
        Some(i) => Some((i.kind, i.data@)),
        None => None,
    })
}

/// The image slots a blob parses into.
pub open spec fn blob_images(blob: Seq<u8>) -> Seq<Option<(ImageKind, Seq<u8>)>> {
    let spans = parse_spec(blob)->Ok_0.0;
    Seq::new(4, |k: int| Some((spans[k].kind, blob.subrange(spans[k].start, spans[k].start + spans[k].len))))
}

/// The writes before the images are loaded: the clock enable, the interrupt
/// enable (the control word read back with its enable bit set, then the host
/// line), and the reset pulse of each core, LMAC first.
pub open spec fn bring_up_writes(control_word: u32) -> Seq<(u32, Seq<u32>)> {
    seq![
        ((region_spec(PBUS as int).start + 0x8C20) as u32, seq![0x0100u32]),
        (bus_address_spec(RPU_REG_INT_FROM_RPU_CTRL, None), seq![control_word | (1u32 << RPU_REG_BIT_INT_FROM_RPU_CTRL)]),
        (bus_address_spec(RPU_REG_INT_FROM_MCU_CTRL, None), seq![1u32 << RPU_REG_BIT_INT_FROM_MCU_CTRL]),
        (bus_address_spec(RPU_REG_MIPS_MCU_CONTROL, Some(ProcessorType::Lmac)), seq![1u32]),
        (bus_address_spec(RPU_REG_MIPS_MCU2_CONTROL, Some(ProcessorType::Umac)), seq![1u32]),
    ]
}

proof fn lemma_words_bytes_len(w: Seq<u32>)
    ensures
        words_bytes_spec(w).len() == 4 * w.len(),
    decreases w.len(),
{
    if w.len() > 0 {
        lemma_words_bytes_len(w.drop_last());
    }
}

/// The board's transmit power ceilings, in quarter dBm.
pub open spec fn board_ceilings_spec() -> nrf_wifi_tx_pwr_ceil_params {
    nrf_wifi_tx_pwr_ceil_params {
        max_pwr_2g_dsss: 84,
        max_pwr_2g_mcs0: 64,
        max_pwr_2g_mcs7: 64,
        max_pwr_5g_low_mcs0: 36,
        max_pwr_5g_low_mcs7: 36,
        max_pwr_5g_mid_mcs0: 44,
        max_pwr_5g_mid_mcs7: 44,
        max_pwr_5g_high_mcs0: 52,
        max_pwr_5g_high_mcs7: 52,
    }
}

/// The crystal calibration word of a UMAC information block, or zero when
/// the block is too short to hold it.
pub open spec fn calib_xo_spec(info: Seq<u8>) -> u32 {
    if info.len() >= UMAC_INFO_CALIB_XO_OFFSET + 4 {
        crate::firmware::le_u32(info, UMAC_INFO_CALIB_XO_OFFSET as int)
    } else {
        0
    }
}

/// What servicing an interrupt found.
pub struct InterruptOutcome {
    /// Ethernet frames received, for the network stack.
    pub frames: Vec<Vec<u8>>,
    /// Why the event could not be handled, if it could not; such events are dropped.
    pub event_error: Option<Error>,
    /// Whether the watchdog had fired (it has been acknowledged).
    pub watchdog: bool,
    /// The domain word of the event taken, if one was.
    pub event_type: Option<u32>,
    /// The payload of the event taken.
    pub event_payload: Vec<u8>,
}

/// The mailbox after executing an action whose bus work ended with `r`.
pub open spec fn action_effect_spec<'a>(
    v: ActionView<'a>,
    a: Action<'a>,
    r: Result<(), Error>,
    v2: ActionView<'a>,
) -> bool {
    match r {
        Err(e) => v2 == respond_spec(v, Err(e)),
        Ok(()) => match a {
            Action::Boot(_) => v2 == v,
            Action::Command(_, wait, _, _) => if wait {
                v2 == v
            } else {
                v2 == respond_spec(v, Ok(None))
            },
            Action::Get(_, _) => exists|d: Seq<u8>| d.len() == UMAC_INFO_WORDS * 4 && v2 == respond_spec(v, Ok(Some(d))),
        },
    }
}

impl<B: Bus> Rpu<B> {
    fn wait_for_wakeup_request_ack(&mut self) -> (r: Result<(), Error>)
        ensures
            final(self).writes() == old(self).writes(),
            final(self).same_state(old(self)),
            r is Err ==> r == Err::<(), Error>(Error::NoAcknowledgement),
            appends(old(self).status_ops(), final(self).status_ops()),
            r is Ok ==> final(self).status_ops().len() > old(self).status_ops().len()
                && final(self).status_ops().last() == StatusOp::ReadSr2(SR2_RPU_WAKEUP_REQ),
    {
        let mut tries: u32 = 0;
        while tries < WAKE_RETRIES
            invariant
                self.same_state(old(self)),
                self.writes() == old(self).writes(),
                appends(old(self).status_ops(), self.status_ops()),
            decreases WAKE_RETRIES - tries,
        {
            if self.read_sr2() == SR2_RPU_WAKEUP_REQ {
                return Ok(());
            }
            self.bus.delay_ms(1);
            tries = tries + 1;
        }
        Err(Error::NoAcknowledgement)
    }

    fn wait_until_awake(&mut self) -> (r: Result<(), Error>)
        ensures
            final(self).writes() == old(self).writes(),
            final(self).same_state(old(self)),
            r is Err ==> r == Err::<(), Error>(Error::Timeout),
            appends(old(self).status_ops(), final(self).status_ops()),
            r is Ok ==> final(self).status_ops().len() > old(self).status_ops().len()
                && (final(self).status_ops().last() matches StatusOp::ReadSr1(v) && v & SR1_RPU_AWAKE != 0),
    {
        let mut tries: u32 = 0;
        while tries < WAKE_RETRIES
            invariant
                self.same_state(old(self)),
                self.writes() == old(self).writes(),
                appends(old(self).status_ops(), self.status_ops()),
            decreases WAKE_RETRIES - tries,
        {
            if self.read_sr1() & SR1_RPU_AWAKE != 0 {
                return Ok(());
            }
            self.bus.delay_ms(1);
            tries = tries + 1;
        }
        Err(Error::Timeout)
    }

    /// The wake-up handshake: request, wait for its acknowledgement
    /// (`NoAcknowledgement`), wait for the awake bit (`Timeout`).
    pub fn wake_up(&mut self) -> (r: Result<(), Error>)
        ensures
            final(self).writes() == old(self).writes(),
            final(self).same_state(old(self)),
            r is Err ==> r == Err::<(), Error>(Error::NoAcknowledgement) || r == Err::<(), Error>(Error::Timeout),
            final(self).status_ops().len() > old(self).status_ops().len(),
            final(self).status_ops()[old(self).status_ops().len() as int] == StatusOp::WriteSr2(SR2_RPU_WAKEUP_REQ),
            r is Ok ==> (exists|i: int|
                old(self).status_ops().len() < i < final(self).status_ops().len() && #[trigger] final(self).status_ops()[i]
                    == StatusOp::ReadSr2(SR2_RPU_WAKEUP_REQ)) && (final(self).status_ops().last() matches StatusOp::ReadSr1(v)
                && v & SR1_RPU_AWAKE != 0),
    {
        self.write_sr2(SR2_RPU_WAKEUP_REQ);
        let ghost written = self.status_ops();
        self.wait_for_wakeup_request_ack()?;
        let ghost acked = self.status_ops();
        let r = self.wait_until_awake();
        proof {
            if r is Ok {
                assert(self.status_ops()[old(self).status_ops().len() as int] == written[old(self).status_ops().len() as int]);
                assert(self.status_ops()[acked.len() - 1] == acked.last());
            }
        }
        r
    }

    fn enable_clocks(&mut self) -> (r: Result<(), Error>)
        ensures
            final(self).same_state(old(self)),
            final(self).reads() == old(self).reads(),
            r is Ok,
            final(self).writes() == old(self).writes().push(((region_spec(PBUS as int).start + 0x8C20) as u32, seq![0x0100u32])),
    {
        let pbus = region(PBUS);
        self.write_u32_to_region(&pbus, 0x8C20, 0x0100)
    }

    fn enable_interrupts(&mut self) -> (r: Result<(), Error>)
        ensures
            final(self).same_state(old(self)),
            r is Ok,
            final(self).reads().len() > 0,
            final(self).writes() == old(self).writes() + seq![
                (bus_address_spec(RPU_REG_INT_FROM_RPU_CTRL, None), seq![final(self).reads().last().1 | (1u32 << RPU_REG_BIT_INT_FROM_RPU_CTRL)]),
                (bus_address_spec(RPU_REG_INT_FROM_MCU_CTRL, None), seq![1u32 << RPU_REG_BIT_INT_FROM_MCU_CTRL]),
            ],
    {
        proof {
            lemma_resolve_in_region(0, RPU_REG_INT_FROM_RPU_CTRL, None);
            lemma_resolve_in_region(0, RPU_REG_INT_FROM_MCU_CTRL, None);
        }
        let value = self.read_u32(RPU_REG_INT_FROM_RPU_CTRL, None)?;
        self.write_u32(RPU_REG_INT_FROM_RPU_CTRL, None, value | (1u32 << RPU_REG_BIT_INT_FROM_RPU_CTRL))?;
        let r = self.write_u32(RPU_REG_INT_FROM_MCU_CTRL, None, 1u32 << RPU_REG_BIT_INT_FROM_MCU_CTRL);
        assert(self.writes() =~= old(self).writes() + seq![
            (bus_address_spec(RPU_REG_INT_FROM_RPU_CTRL, None), seq![value | (1u32 << RPU_REG_BIT_INT_FROM_RPU_CTRL)]),
            (bus_address_spec(RPU_REG_INT_FROM_MCU_CTRL, None), seq![1u32 << RPU_REG_BIT_INT_FROM_MCU_CTRL]),
        ]);
        r
    }

    /// Disables the co-processor's interrupt block and the host interrupt line.
    pub fn disable_interrupts(&mut self) -> (r: Result<(), Error>)
        ensures
            final(self).same_state(old(self)),
    {
        let value = self.read_u32(RPU_REG_INT_FROM_RPU_CTRL, None)?;
        self.write_u32(RPU_REG_INT_FROM_RPU_CTRL, None, value & !(1u32 << RPU_REG_BIT_INT_FROM_RPU_CTRL))?;
        self.write_u32(RPU_REG_INT_FROM_MCU_CTRL, None, !(1u32 << RPU_REG_BIT_INT_FROM_MCU_CTRL))
    }

    /// Waits, up to ten tries a millisecond apart, until status register 1
    /// reads exactly awake and ready; `Timeout` otherwise.
    pub fn wait_until_ready(&mut self) -> (r: Result<(), Error>)
        ensures
            final(self).same_state(old(self)),
            r is Err ==> r == Err::<(), Error>(Error::Timeout),
    {
        let mut tries: u32 = 0;
        while tries < WAKE_RETRIES
            invariant
                self.same_state(old(self)),
            decreases WAKE_RETRIES - tries,
        {
            if self.read_sr1() == SR1_RPU_AWAKE | SR1_RPU_READY {
                return Ok(());
            }
            self.bus.delay_ms(1);
            tries = tries + 1;
        }
        Err(Error::Timeout)
    }

    /// Clears the wake-up request, letting the co-processor sleep.
    pub fn sleep(&mut self)
        ensures
            final(self).same_state(old(self)),
    {
        self.write_sr2(0);
    }

    /// Reads `addr` until `(word & 1 == 1) == until_set`, within the poll limit.
    fn poll_bit0(&mut self, addr: u32, processor: ProcessorType, until_set: bool) -> (r: Result<(), Error>)
        ensures
            final(self).same_state(old(self)),
            final(self).writes() == old(self).writes(),
    {
        let mut tries: u32 = 0;
        while tries < RESET_POLL_LIMIT
            invariant
                self.same_state(old(self)),
                self.writes() == old(self).writes(),
            decreases RESET_POLL_LIMIT - tries,
        {
            let value = self.read_u32(addr, Some(processor))?;
            if (value & 1 == 1) == until_set {
                return Ok(());
            }
            tries = tries + 1;
        }
        Err(Error::Timeout)
    }

    /// Pulses the soft reset of each core, LMAC first, and waits until it is
    /// out of reset and waiting in its boot exception handler.
    fn reset(&mut self) -> (r: Result<(), Error>)
        ensures
            final(self).same_state(old(self)),
            r is Ok ==> final(self).writes() == old(self).writes() + seq![
                (bus_address_spec(RPU_REG_MIPS_MCU_CONTROL, Some(ProcessorType::Lmac)), seq![1u32]),
                (bus_address_spec(RPU_REG_MIPS_MCU2_CONTROL, Some(ProcessorType::Umac)), seq![1u32]),
            ],
    {
        let mut k: usize = 0;
        while k < 2
            invariant
                self.same_state(old(self)),
                k <= 2,
                self.writes() == old(self).writes() + seq![
                    (bus_address_spec(RPU_REG_MIPS_MCU_CONTROL, Some(ProcessorType::Lmac)), seq![1u32]),
                    (bus_address_spec(RPU_REG_MIPS_MCU2_CONTROL, Some(ProcessorType::Umac)), seq![1u32]),
                ].subrange(0, k as int),
            decreases 2 - k,
        {
            let processor = if k == 0 {
                ProcessorType::Lmac
            } else {
                ProcessorType::Umac
            };
            let (control, boot_exception) = match processor {
                ProcessorType::Lmac => (RPU_REG_MIPS_MCU_CONTROL, RPU_REG_MIPS_MCU_BOOT_EXCP),
                ProcessorType::Umac => (RPU_REG_MIPS_MCU2_CONTROL, RPU_REG_MIPS_MCU2_BOOT_EXCP),
            };
            self.write_u32(control, Some(processor), 0x1)?;
            self.poll_bit0(control, processor, false)?;
            self.poll_bit0(boot_exception, processor, true)?;
            k = k + 1;
            assert(self.writes() =~= old(self).writes() + seq![
                (bus_address_spec(RPU_REG_MIPS_MCU_CONTROL, Some(ProcessorType::Lmac)), seq![1u32]),
                (bus_address_spec(RPU_REG_MIPS_MCU2_CONTROL, Some(ProcessorType::Umac)), seq![1u32]),
            ].subrange(0, k as int));
        }
        Ok(())
    }

    /// Writes each image of the blob to its destination in pieces of
    /// 1024 bytes. Fails with `InvalidAddress` when an image does not fit.
    fn firmware_load(&mut self, firmware_info: &FirmwareInfo) -> (r: Result<(), Error>)
        ensures
            final(self).same_state(old(self)),
            r is Ok ==> final(self).writes() == old(self).writes() + load_writes(info_images(*firmware_info), 4),
    {
        let mut k: usize = 0;
        while k < 4
            invariant
                self.same_state(old(self)),
                k <= 4,
                self.writes() == old(self).writes() + load_writes(info_images(*firmware_info), k as nat),
            decreases 4 - k,
        {
            let ghost before = self.writes();
            if let Some(image) = firmware_info.images[k] {
                let (memory_region, offset) = match remap_global_addr_to_region_and_offset(
                    image.destination_address(),
                    Some(image.processor()),
                ) {
                    Some(x) => x,
                    None => {
                        return Err(Error::InvalidAddress);
                    },
                };
                let data = image.data;
                let ghost base = memory_region.start + offset;
                let mut start: usize = 0;
                let ghost mut j: nat = 0;
                while start < data.len()
                    invariant
                        self.same_state(old(self)),
                        start <= data@.len(),
                        start < data@.len() ==> start == FIRMWARE_CHUNK_SIZE * j,
                        start == data@.len() ==> (j == 0 && start == 0) || (FIRMWARE_CHUNK_SIZE * j - FIRMWARE_CHUNK_SIZE
                            < start <= FIRMWARE_CHUNK_SIZE * j),
                        base == memory_region.start + offset,
                        self.writes() == before + chunk_writes(data@, base, j),
                    decreases data@.len() - start,
                {
                    let end = if data.len() - start > FIRMWARE_CHUNK_SIZE {
                        start + FIRMWARE_CHUNK_SIZE
                    } else {
                        data.len()
                    };
                    if start as u64 > (u32::MAX - offset) as u64 {
                        return Err(Error::InvalidAddress);
                    }
                    let chunk = slice_subrange(data, start, end);
                    let words = bytes_to_words(chunk, (chunk.len() + 3) / 4);
                    assert(words@ =~= chunk_words(data@, j as int));
                    self.write_buffer_to_region(&memory_region, offset + start as u32, words.as_slice())?;
                    start = end;
                    proof {
                        j = j + 1;
                    }
                }
                proof {
                    assert(j == (data@.len() + 1023) / 1024);
                    assert(info_images(*firmware_info)[k as int] == Some((image.kind, data@)));
                }
            }
            k = k + 1;
        }
        Ok(())
    }

    /// Boots each core, LMAC first: clears its boot signature, sets its ROM
    /// patch offset and boot exception vector, pulses its soft reset, and
    /// waits for the boot signature (`Timeout` after the poll limit).
    pub fn firmware_boot(&mut self) -> (r: Result<(), Error>)
        ensures
            final(self).same_state(old(self)),
            r is Ok ==> final(self).writes() == old(self).writes() + core_boot_writes(ProcessorType::Lmac)
                + core_boot_writes(ProcessorType::Umac),
            r is Err ==> r == Err::<(), Error>(Error::Timeout) && (final(self).writes() == old(self).writes()
                + boot_writes_upto(1) || final(self).writes() == old(self).writes() + boot_writes_upto(2)),
    {
        let mut k: usize = 0;
        while k < 2
            invariant
                self.same_state(old(self)),
                k <= 2,
                self.writes() == old(self).writes() + boot_writes_upto(k as int),
            decreases 2 - k,
        {
            let processor = if k == 0 {
                ProcessorType::Lmac
            } else {
                ProcessorType::Umac
            };
            let (signature_address, sleep_ctrl, patch_offset, instr_base, control) = match processor {
                ProcessorType::Lmac => (
                    RPU_MEM_LMAC_BOOT_SIG,
                    RPU_REG_UCC_SLEEP_CTRL_DATA_0,
                    LMAC_ROM_PATCH_OFFSET,
                    RPU_REG_MIPS_MCU_BOOT_EXCP_INSTR_0,
                    RPU_REG_MIPS_MCU_CONTROL,
                ),
                ProcessorType::Umac => (
                    RPU_MEM_UMAC_BOOT_SIG,
                    RPU_REG_UCC_SLEEP_CTRL_DATA_1,
                    UMAC_ROM_PATCH_OFFSET,
                    RPU_REG_MIPS_MCU2_BOOT_EXCP_INSTR_0,
                    RPU_REG_MIPS_MCU2_CONTROL,
                ),
            };
            proof {
                lemma_resolve_in_region(0, sleep_ctrl, Some(processor));
                lemma_resolve_in_region(0, instr_base, Some(processor));
                lemma_resolve_in_region(0, (instr_base + 4) as u32, Some(processor));
                lemma_resolve_in_region(0, (instr_base + 8) as u32, Some(processor));
                lemma_resolve_in_region(0, (instr_base + 12) as u32, Some(processor));
                lemma_resolve_in_region(0, control, Some(processor));
                if k == 0 {
                    lemma_resolve_in_region(4, signature_address, Some(processor));
                } else {
                    lemma_resolve_in_region(PKTRAM as int, signature_address, Some(processor));
                }
            }
            self.write_u32(signature_address, Some(processor), 0)?;
            self.write_u32(sleep_ctrl, Some(processor), patch_offset)?;
            self.write_u32(instr_base, Some(processor), BOOT_EXCP_VECT_0)?;
            self.write_u32(instr_base + 4, Some(processor), BOOT_EXCP_VECT_1)?;
            self.write_u32(instr_base + 8, Some(processor), BOOT_EXCP_VECT_2)?;
            self.write_u32(instr_base + 12, Some(processor), BOOT_EXCP_VECT_3)?;
            self.write_u32(control, Some(processor), 0x1)?;
            let mut polls: u32 = 0;
            assert(self.writes() =~= old(self).writes() + boot_writes_upto(k + 1));
            loop
                invariant
                    self.same_state(old(self)),
                    self.writes() == old(self).writes() + boot_writes_upto(k + 1),
                    k < 2,
                    global_access_ok(signature_address, Some(processor), 1),
                decreases BOOT_SIGNATURE_POLLS - polls,
            {
                if polls >= BOOT_SIGNATURE_POLLS {
                    return Err(Error::Timeout);
                }
                if self.read_u32(signature_address, Some(processor))? == BOOT_SIG {
                    break;
                }
                self.bus.delay_ms(10);
                polls = polls + 1;
            }
            k = k + 1;
        }
        Ok(())
    }

    /// The firmware version word, split into bytes.
    pub fn firmware_version(&mut self) -> (r: Result<FirmwareVersion, Error>)
        ensures
            final(self).writes() == old(self).writes(),
            final(self).same_state(old(self)),
            r is Ok,
            final(self).reads().len() == old(self).reads().len() + 1,
            final(self).reads().last().0 == bus_address_spec(RPU_MEM_UMAC_VER, None),
            r == Ok::<FirmwareVersion, Error>(FirmwareVersion::from_u32_spec(final(self).reads().last().1)),
    {
        proof {
            lemma_resolve_in_region(PKTRAM as int, RPU_MEM_UMAC_VER, None);
        }
        let version = self.read_u32(RPU_MEM_UMAC_VER, None)?;
        Ok(FirmwareVersion::from_u32(version))
    }

    /// Reads the UMAC information block.
    pub fn retrieve_umac_info(&mut self) -> (r: Result<Vec<u8>, Error>)
        ensures
            final(self).writes() == old(self).writes(),
            final(self).same_state(old(self)),
            r is Ok,
            r matches Ok(b) ==> b@.len() == UMAC_INFO_WORDS * 4 && exists|w: Seq<u32>|
                #![trigger word_reads(bus_address_spec(RPU_MEM_UMAC_BOOT_SIG, None), w)]
                final(self).reads() == old(self).reads() + word_reads(bus_address_spec(RPU_MEM_UMAC_BOOT_SIG, None), w)
                    && b@ == words_bytes_spec(w),
    {
        proof {
            lemma_resolve_in_region(PKTRAM as int, RPU_MEM_UMAC_BOOT_SIG, None);
        }
        let words = self.read_buffer(RPU_MEM_UMAC_BOOT_SIG, None, UMAC_INFO_WORDS)?;
        Ok(words_to_bytes(words.as_slice()))
    }

    /// Reads the OTP words and derives the RF parameters with the default
    /// calibration and the board's power ceilings.
    pub fn get_rf_parameters(&mut self, umac_info: &[u8], otp_flags: u32) -> (r: Result<crate::rf::nrf_wifi_phy_rf_params, Error>)
        ensures
            appends(old(self).reads(), final(self).reads()),
            final(self).same_state(old(self)),
            final(self).writes() == old(self).writes(),
            r is Ok,
            r matches Ok(p) ==> {
                let n = old(self).reads().len() as int;
                &&& final(self).reads().len() == n + 2
                &&& final(self).reads()[n].0 == bus_address_spec(RPU_MEM_OTP_FT_PROG_VERSION, None)
                &&& final(self).reads()[n + 1].0 == bus_address_spec(RPU_MEM_OTP_PACKAGE_TYPE, None)
                &&& rf_params_spec(
                    p,
                    final(self).reads()[n + 1].1,
                    final(self).reads()[n].1,
                    otp_flags,
                    calib_xo_spec(umac_info@),
                    board_ceilings_spec(),
                    zeros(RF_PARAM_LENGTH as int),
                )
            },
    {
        proof {
            lemma_resolve_in_region(PKTRAM as int, RPU_MEM_OTP_FT_PROG_VERSION, None);
            lemma_resolve_in_region(PKTRAM as int, RPU_MEM_OTP_PACKAGE_TYPE, None);
        }
        let ft_prog_word = match self.read_u32(RPU_MEM_OTP_FT_PROG_VERSION, None) {
            Ok(v) => v,
            Err(e) => {
                return Err(e);
            },
        };
        let package_type = match self.read_u32(RPU_MEM_OTP_PACKAGE_TYPE, None) {
            Ok(v) => v,
            Err(e) => {
                return Err(e);
            },
        };
        let calib_xo = if umac_info.len() >= UMAC_INFO_CALIB_XO_OFFSET + 4 {
            read_le_u32(umac_info, UMAC_INFO_CALIB_XO_OFFSET)
        } else {
            0
        };
        let ceilings = nrf_wifi_tx_pwr_ceil_params {
            max_pwr_2g_dsss: 21 * 4,
            max_pwr_2g_mcs0: 16 * 4,
            max_pwr_2g_mcs7: 16 * 4,
            max_pwr_5g_low_mcs0: 9 * 4,
            max_pwr_5g_low_mcs7: 9 * 4,
            max_pwr_5g_mid_mcs0: 11 * 4,
            max_pwr_5g_mid_mcs7: 11 * 4,
            max_pwr_5g_high_mcs0: 13 * 4,
            max_pwr_5g_high_mcs7: 13 * 4,
        };
        let calibration = RfParameters::default();
        assert(calibration.bytes_spec() =~= zeros(RF_PARAM_LENGTH as int));
        Ok(derive_rf_parameters(package_type, ft_prog_word, otp_flags, calib_xo, &ceilings, &calibration))
    }

    /// Registers every receive buffer: writes its descriptor into its header
    /// word and posts it on its queue.
    fn seed_receive_buffers(&mut self) -> (r: Result<(), Error>)
        requires
            old(self).pool_wf(),
            old(self).queues_spec() is Some,
            old(self).rx_command_base_spec() is Some,
        ensures
            final(self).same_state(old(self)),
            final(self).reads() == old(self).reads(),
            r is Ok ==> final(self).writes() == old(self).writes() + seed_writes(
                old(self).queues_spec()->Some_0,
                old(self).rx_command_base_spec()->Some_0,
                RX_BUFS as nat,
            ),
    {
        let mut d: usize = 0;
        while d < RX_BUFS
            invariant
                self.same_state(old(self)),
                self.pool_wf(),
                old(self).queues_spec() is Some,
                old(self).rx_command_base_spec() is Some,
                self.reads() == old(self).reads(),
                d <= RX_BUFS,
                self.writes() == old(self).writes() + seed_writes(
                    old(self).queues_spec()->Some_0,
                    old(self).rx_command_base_spec()->Some_0,
                    d as nat,
                ),
            decreases RX_BUFS - d,
        {
            let rpu_address = self.receive_buffers[d].rpu_address;
            self.write_u32(rpu_address, None, d as u32)?;
            let command = [rpu_address + RX_BUF_HEADROOM];
            assert(command@ =~= seq![(rx_buffer_address_spec(d as int) + RX_BUF_HEADROOM) as u32]);
            self.send_rx_command(&command, d as u32, d / RX_BUFS_PER_QUEUE)?;
            d = d + 1;
            assert(self.writes() =~= old(self).writes() + seed_writes(
                old(self).queues_spec()->Some_0,
                old(self).rx_command_base_spec()->Some_0,
                d as nat,
            ));
        }
        Ok(())
    }

    /// Brings the co-processor up with a parsed blob: wake-up, clocks and
    /// interrupts, reset, image load, firmware boot, second wake-up, queue
    /// descriptors, command area, OTP and RF parameters, receive buffers, and
    /// the system initialisation command. The first failing step ends it.
    pub fn boot(&mut self, firmware_info: &FirmwareInfo) -> (r: Result<(), Error>)
        requires
            old(self).pool_wf(),
        ensures
            final(self).pool_wf(),
            r is Ok ==> final(self).queues_spec() is Some && final(self).rx_command_base_spec() is Some
                && final(self).pool_layout(),
            r is Ok ==> boot_done(
                &*final(self),
                old(self).writes(),
                old(self).num_commands_spec(),
                info_images(*firmware_info),
            ),
    {
        self.wake_up()?;
        self.enable_clocks()?;
        self.enable_interrupts()?;
        let ghost v = self.reads().last().1;
        self.reset()?;
        self.firmware_load(firmware_info)?;
        let ghost pre = self.writes();
        assert(pre =~= old(self).writes() + bring_up_writes(v) + load_writes(info_images(*firmware_info), 4));
        self.firmware_boot()?;
        assert(self.writes() == pre + boot_writes_upto(2));
        assert(self.num_commands_spec() == old(self).num_commands_spec());
        let _version = self.firmware_version()?;
        self.wake_up()?;
        let hpqm = self.read_buffer(RPU_MEM_HPQ_INFO, None, HPQM_INFO_WORDS)?;
        self.hostport_queues_info = Some(HostportQueuesInfo::from_words(hpqm.as_slice()));
        let rx_base = self.read_u32(RPU_MEM_RX_CMD_BASE, None)?;
        self.rx_command_base_address = Some(rx_base);
        self.tx_command_base_address = Some(RPU_MEM_TX_CMD_BASE);
        let ghost r0 = self.reads();
        let umac_info = self.retrieve_umac_info()?;
        let ghost w = choose|w: Seq<u32>|
            #![trigger word_reads(bus_address_spec(RPU_MEM_UMAC_BOOT_SIG, None), w)]
            self.reads() == r0 + word_reads(bus_address_spec(RPU_MEM_UMAC_BOOT_SIG, None), w) && umac_info@
                == words_bytes_spec(w);
        let otp_flags = self.read_u32(RPU_MEM_OTP_INFO_FLAGS, None)?;
        let ghost before_rf = self.reads();
        let rf_parameters = self.get_rf_parameters(umac_info.as_slice(), otp_flags)?;
        let ghost package = self.reads()[before_rf.len() as int + 1].1;
        let ghost ft = self.reads()[before_rf.len() as int].1;
        let ghost xo = calib_xo_spec(umac_info@);
        let ghost k = before_rf.len() as int;
        let ghost after_rf = self.reads();
        proof {
            assert(word_reads(bus_address_spec(RPU_MEM_UMAC_BOOT_SIG, None), w).len() == w.len());
            lemma_words_bytes_len(w);
            assert(w.len() == UMAC_INFO_WORDS);
            assert(k == r0.len() + UMAC_INFO_WORDS + 1);
            assert forall|q: int| 0 <= q < k implies #[trigger] after_rf[q] == before_rf[q] by {}
            assert(after_rf.subrange(k - UMAC_INFO_WORDS - 1, k - 1) =~= word_reads(bus_address_spec(RPU_MEM_UMAC_BOOT_SIG, None), w));
            assert(otp_reads_at(after_rf, k, w, otp_flags, ft, package));
        }
        assert(self.writes() == pre + boot_writes_upto(2));
        assert(self.num_commands_spec() == old(self).num_commands_spec());
        self.seed_receive_buffers()?;
        let ghost seeded = self.writes();
        assert(seeded == pre + boot_writes_upto(2) + seed_writes(
            self.queues_spec()->Some_0,
            self.rx_command_base_spec()->Some_0,
            RX_BUFS as nat,
        ));
        assert(self.num_commands_spec() == old(self).num_commands_spec());
        let init = sys_init_command(&rf_parameters);
        let r = self.send_command_raw(MessageDomain::System, init.as_slice());
        proof {
            if r is Ok {
                self.lemma_pool_layout();
                assert(rf_params_spec(rf_parameters, package, ft, otp_flags, xo, board_ceilings_spec(), zeros(RF_PARAM_LENGTH as int)));
                assert(otp_reads_at(self.reads(), k, w, otp_flags, ft, package)) by {
                    assert(self.reads().subrange(k - UMAC_INFO_WORDS - 1, k - 1) =~= after_rf.subrange(k - UMAC_INFO_WORDS - 1, k - 1));
                }
                let slots = choose|slots: Seq<u32>|
                    #![trigger fragment_writes(self.queues_spec()->Some_0, frame_words_spec(MessageDomain::System, init@), slots, old(self).num_commands_spec(), fragments_spec(frame_words_spec(MessageDomain::System, init@).len() as int) as nat)]
                    self.writes() == seeded + fragment_writes(
                        self.queues_spec()->Some_0,
                        frame_words_spec(MessageDomain::System, init@),
                        slots,
                        old(self).num_commands_spec(),
                        fragments_spec(frame_words_spec(MessageDomain::System, init@).len() as int) as nat,
                    );
                assert(self.writes() == boot_writes_spec(
                    pre,
                    self.queues_spec()->Some_0,
                    self.rx_command_base_spec()->Some_0,
                    init@,
                    slots,
                    old(self).num_commands_spec(),
                ));
            }
        }
        r
    }

    /// Parses a firmware blob and boots with it. A blob that does not parse
    /// fails with its parse error before any bus access.
    pub fn boot_firmware(&mut self, blob: &[u8]) -> (r: Result<(), Error>)
        requires
            old(self).pool_wf(),
        ensures
            final(self).pool_wf(),
            parse_spec(blob@) matches Err(pe) ==> r == Err::<(), Error>(Error::FirmwareParseError(pe))
                && *final(self) == *old(self) && final(self).bus_spec() == old(self).bus_spec()
                && final(self).writes() == old(self).writes() && final(self).reads() == old(self).reads(),
            r is Ok ==> final(self).queues_spec() is Some && boot_done(
                &*final(self),
                old(self).writes(),
                old(self).num_commands_spec(),
                blob_images(blob@),
            ),
    {
        let firmware_info = FirmwareInfo::read(blob)?;
        assert(info_images(firmware_info) =~= blob_images(blob@)) by {
            let parsed = parse_spec(blob@)->Ok_0;
            assert forall|k: int| 0 <= k < 4 implies info_images(firmware_info)[k] == blob_images(blob@)[k] by {
                assert(firmware_info.images@[k] matches Some(img) && image_matches(img, parsed.0[k], blob@));
            }
        }
        self.boot(&firmware_info)
    }

    /// Executes an action taken from the mailbox. A failure is answered with
    /// its error. A boot is answered by the firmware's initialisation event, a
    /// command to be awaited by its completion event; a command not awaited
    /// is answered at once, and an item fetch with the item.
    pub fn execute_action(&mut self, action: Action, actions: &mut ActionState) -> (r: Result<(), Error>)
        requires
            old(self).pool_wf(),
        ensures
            final(self).pool_wf(),
            action_effect_spec(old(actions)@, action, r, final(actions)@),
            action matches Action::Boot(blob) ==> (parse_spec(blob@) matches Err(pe) ==> r == Err::<(), Error>(
                Error::FirmwareParseError(pe),
            ) && *final(self) == *old(self)),
            action matches Action::Command(_, _, payload, _) ==> (MSG_HEADER_SIZE + payload@.len() > MAX_CMD_SIZE
                ==> r == Err::<(), Error>(Error::BufferOverflow)),
            action matches Action::Boot(blob) ==> (r is Ok ==> boot_done(
                &*final(self),
                old(self).writes(),
                old(self).num_commands_spec(),
                blob_images(blob@),
            )),
            action matches Action::Command(domain, _, payload, _) ==> (r is Ok ==> exists|slots: Seq<u32>|
                #![trigger fragment_writes(old(self).queues_spec()->Some_0, frame_words_spec(domain, payload@), slots, old(self).num_commands_spec(), fragments_spec(frame_words_spec(domain, payload@).len() as int) as nat)]
                final(self).writes() == old(self).writes() + fragment_writes(
                    old(self).queues_spec()->Some_0,
                    frame_words_spec(domain, payload@),
                    slots,
                    old(self).num_commands_spec(),
                    fragments_spec(frame_words_spec(domain, payload@).len() as int) as nat,
                )),
            action is Get ==> r is Ok,
            action matches Action::Get(_, _) ==> (r is Ok ==> exists|w: Seq<u32>|
                #![trigger word_reads(bus_address_spec(RPU_MEM_UMAC_BOOT_SIG, None), w)]
                final(self).reads() == old(self).reads() + word_reads(bus_address_spec(RPU_MEM_UMAC_BOOT_SIG, None), w)
                    && final(actions)@ == respond_spec(old(actions)@, Ok(Some(words_bytes_spec(w))))),
    {
        match action {
            Action::Boot(blob) => {
                let r = self.boot_firmware(blob);
                if let Err(e) = r {
                    actions.respond(Err(e));
                }
                r
            },
            Action::Command(domain, wait_for_completion, payload, _) => {
                let r = self.send_command_raw(domain, payload.as_slice());
                match r {
                    Ok(()) => {
                        if !wait_for_completion {
                            actions.respond(Ok(None));
                        }
                    },
                    Err(e) => actions.respond(Err(e)),
                }
                r
            },
            Action::Get(Item::UmacInfo, _) => match self.retrieve_umac_info() {
                Ok(info) => {
                    actions.respond(Ok(Some(info.as_slice())));
                    Ok(())
                },
                Err(e) => {
                    actions.respond(Err(e));
                    Err(e)
                },
            },
        }
    }

    /// Services the interrupt line: acknowledges it, takes and handles at
    /// most one event (an empty queue is no error; an event that cannot be
    /// handled is dropped and reported), then checks and acknowledges the
    /// watchdog.
    pub fn service_interrupt(&mut self, actions: &mut ActionState) -> (r: Result<InterruptOutcome, Error>)
        requires
            old(self).pool_wf(),
        ensures
            final(self).pool_wf(),
            final(self).queues_spec() == old(self).queues_spec(),
            r is Ok,
            final(actions)@ == old(actions)@ || exists|t: u32, p: Seq<u8>| final(actions)@ == event_effect_spec(
                old(actions)@,
                t,
                p,
            ),
            r matches Ok(o) ==> {
                let ack = (bus_address_spec(RPU_REG_INT_FROM_MCU_ACK, None), seq![1u32 << RPU_REG_BIT_INT_FROM_MCU_ACK]);
                let status = final(self).reads().last();
                &&& appends(old(self).writes().push(ack), final(self).writes())
                &&& final(self).reads().len() > 0
                &&& status.0 == bus_address_spec(RPU_REG_MIPS_MCU_UCCP_INT_STATUS, None)
                &&& o.watchdog == (status.1 & (1u32 << RPU_REG_BIT_MIPS_WATCHDOG_INT_STATUS) != 0)
                &&& (o.watchdog ==> final(self).writes().last() == (
                    bus_address_spec(RPU_REG_MIPS_MCU_UCCP_INT_CLEAR, None),
                    seq![1u32 << RPU_REG_BIT_MIPS_WATCHDOG_INT_CLEAR],
                ))
                &&& final(actions)@ == match o.event_type {
                    Some(t) => event_effect_spec(old(actions)@, t, o.event_payload@),
                    None => old(actions)@,
                }
            },
    {
        self.irq_ack()?;
        let ghost acked = self.writes();
        let mut frames: Vec<Vec<u8>> = Vec::new();
        let mut event_error: Option<Error> = None;
        let mut event_type: Option<u32> = None;
        let mut event_payload: Vec<u8> = Vec::new();
        match self.read_event() {
            Ok(event) => {
                match self.handle_event(event.message_type, event.payload.as_slice(), actions, &mut frames) {
                    Ok(()) => {},
                    Err(e) => {
                        event_error = Some(e);
                    },
                }
                event_type = Some(event.message_type);
                event_payload = event.payload;
            },
            Err(Error::NoData) => {},
            Err(e) => {
                event_error = Some(e);
            },
        }
        assert(appends(acked, self.writes()));
        let watchdog = self.irq_watchdog_check()?;
        let ghost checked = self.reads();
        if watchdog {
            self.irq_watchdog_ack()?;
        }
        assert(self.reads() == checked);
        assert(appends(acked, self.writes()));
        Ok(InterruptOutcome { frames, event_error, watchdog, event_type, event_payload })
    }
}

} // verus!
