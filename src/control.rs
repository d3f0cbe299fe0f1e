//! The commands the control surface sends, serialized for the co-processor.
//!
//! UMAC header, 36 bytes, little-endian: port id (0), sequence (4), command
//! (8), return value (12), valid fields (16), interface index (20), wiphy
//! index (24), wdev id (28, 64 bits).
use vstd::prelude::*;

use crate::bus::word_bytes_spec;
use crate::commands::{push_bytes, push_u16_le, push_u32_le, push_zeros, zeros, MessageDomain};
use crate::eth::le_u16;
use crate::firmware::{le_u32, read_le_u32};
use crate::rf::{ceiling_bytes_spec, nrf_wifi_phy_rf_params, PHY_PARAMS_LEN};

verus! {

/// UMAC command: start a scan.
pub const UMAC_CMD_TRIGGER_SCAN: u32 = 0;
/// UMAC command: fetch scan results.
pub const UMAC_CMD_GET_SCAN_RESULTS: u32 = 1;
/// UMAC command: bring an interface up or down.
pub const UMAC_CMD_SET_IFFLAGS: u32 = 18;
/// UMAC command: update a station entry.
pub const UMAC_CMD_SET_STATION: u32 = 21;
/// UMAC command: register for management frames.
pub const UMAC_CMD_REGISTER_FRAME: u32 = 29;
/// UMAC command: set power save.
pub const UMAC_CMD_SET_POWER_SAVE: u32 = 33;
/// UMAC command: set a multicast filter.
pub const UMAC_CMD_MCAST_FILTER: u32 = 51;
/// UMAC command: change the MAC address.
pub const UMAC_CMD_CHANGE_MACADDR: u32 = 52;
/// System command: initialise the firmware.
pub const SYS_CMD_INIT: u32 = 0;
/// System command: fetch statistics.
pub const SYS_CMD_GET_STATS: u32 = 4;
/// Size of the UMAC header.
pub const UMAC_HDR_SIZE: usize = 36;
/// Index-ids flag: the wdev id is valid.
pub const INDEX_IDS_WDEV_ID_VALID: u32 = 1;
/// Station flag: the second flag set is valid.
pub const SET_STATION_STA_FLAGS2_VALID: u32 = 0x40;
/// Number of channels a scan covers.
pub const NUM_SCAN_CHANNELS: u16 = 20;
/// Size of a serialized scan command.
pub const SCAN_COMMAND_SIZE: usize = 526;
/// Size of a serialized system initialisation command.
pub const SYS_INIT_COMMAND_SIZE: usize = 340;
/// Number of 32-bit words in the UMAC information block.
pub const UMAC_INFO_WORDS: usize = 39;
/// Byte offset of the first MAC address words in the UMAC information block.
pub const UMAC_INFO_MAC_OFFSET: usize = 104;
/// Byte offset of the crystal calibration word in the UMAC information block.
pub const UMAC_INFO_CALIB_XO_OFFSET: usize = 120;

/// WiFi scan type.
#[derive(Debug, Clone, Copy, PartialEq, Eq, Structural)]
pub enum ScanType {
    /// The station sends probes that make access points answer: faster, more power.
    Active,
    /// The station only listens for beacons: slower, less power.
    Passive,
}

/// Scan options. Durations are in milliseconds.
#[derive(Debug, Clone, Copy)]
pub struct ScanOptions {
    /// Only report the access point with this BSSID, if set.
    pub bssid: Option<[u8; 6]>,
    /// Number of probes to send on each channel.
    pub nprobes: Option<u16>,
    /// Time to spend on the home channel.
    pub home_time: Option<u64>,
    /// Active or passive.
    pub scan_type: ScanType,
    /// Time to spend on each channel.
    pub dwell_time: Option<u64>,
}

impl Default for ScanOptions {
    /// A passive scan of every access point with the firmware's timings.
    fn default() -> (r: ScanOptions)
        ensures
            r.bssid is None,
            r.nprobes is None,
            r.home_time is None,
            r.scan_type == ScanType::Passive,
            r.dwell_time is None,
    {
        ScanOptions { bssid: None, nprobes: None, home_time: None, scan_type: ScanType::Passive, dwell_time: None }
    }
}

/// A serialized command for the control surface to issue, tagged with its
/// message domain.
pub struct Command {
    pub domain: MessageDomain,
    /// Whether to wait for the co-processor's completion event.
    pub wait_for_completion: bool,
    pub payload: Vec<u8>,
}

/// The command word of a serialized command: at the start of a system
/// command, after the port id and sequence of a UMAC command.
pub open spec fn command_kind_spec(domain: MessageDomain, payload: Seq<u8>) -> Option<u32> {
    match domain {
        MessageDomain::System => if payload.len() >= 4 {
            Some(le_u32(payload, 0))
        } else {
            None
        },
        MessageDomain::Umac => if payload.len() >= 12 {
            Some(le_u32(payload, 8))
        } else {
            None
        },
        _ => None,
    }
}

impl Command {
    /// The message domain.
    pub fn domain(&self) -> (r: MessageDomain)
        ensures
            r == self.domain,
    {
        self.domain
    }

    /// The command word, for system and UMAC commands long enough to hold one.
    pub fn kind(&self) -> (r: Option<u32>)
        ensures
            r == command_kind_spec(self.domain, self.payload@),
    {
        match self.domain {
            MessageDomain::System => if self.payload.len() >= 4 {
                Some(read_le_u32(self.payload.as_slice(), 0))
            } else {
                None
            },
            MessageDomain::Umac => if self.payload.len() >= 12 {
                Some(read_le_u32(self.payload.as_slice(), 8))
            } else {
                None
            },
            _ => None,
        }
    }
}

/// The UMAC header of command `cmd`, for the default wdev.
pub open spec fn umac_header_spec(cmd: u32) -> Seq<u8> {
    word_bytes_spec(0) + word_bytes_spec(0) + word_bytes_spec(cmd) + word_bytes_spec(0) + word_bytes_spec(
        INDEX_IDS_WDEV_ID_VALID,
    ) + word_bytes_spec(0) + word_bytes_spec(0) + word_bytes_spec(0) + word_bytes_spec(0)
}

/// Starts a UMAC command with its header.
pub fn umac_header(cmd: u32) -> (r: Vec<u8>)
    ensures
        r@ == umac_header_spec(cmd),
        r@.len() == UMAC_HDR_SIZE,
        le_u32(r@, 8) == cmd,
{
    let mut v: Vec<u8> = Vec::new();
    push_u32_le(&mut v, 0);
    push_u32_le(&mut v, 0);
    push_u32_le(&mut v, cmd);
    push_u32_le(&mut v, 0);
    push_u32_le(&mut v, INDEX_IDS_WDEV_ID_VALID);
    push_u32_le(&mut v, 0);
    push_u32_le(&mut v, 0);
    push_u32_le(&mut v, 0);
    push_u32_le(&mut v, 0);
    proof {
        lemma_word_bytes_roundtrip(cmd);
    }
    v
}

/// A word survives serialization.
pub proof fn lemma_word_bytes_roundtrip(w: u32)
    ensures
        le_u32(word_bytes_spec(w), 0) == w,
{
    let b = word_bytes_spec(w);
    assert(b[0] as int + b[1] as int * 0x100 + b[2] as int * 0x1_0000 + b[3] as int * 0x100_0000 == w as int) by (nonlinear_arith)
        requires
            b[0] == (w % 0x100) as u8,
            b[1] == ((w / 0x100) % 0x100) as u8,
            b[2] == ((w / 0x1_0000) % 0x100) as u8,
            b[3] == (w / 0x100_0000) as u8,
    ;
}

/// The fields of a scan request that depend on the options.
#[derive(Debug, Clone, Copy, PartialEq, Eq)]
pub struct ScanParams {
    pub passive_scan: u16,
    pub dwell_time_active: u16,
    pub dwell_time_passive: u16,
    pub mac_addr: [u8; 6],
    pub num_scan_channels: u16,
}

/// The scan request fields for `options`: the scan type, its dwell time (in
/// milliseconds, kept to 16 bits) on the matching field, the BSSID filter and
/// the channel count.
pub fn scan_params(options: &ScanOptions) -> (r: ScanParams)
    ensures
        r.passive_scan == passive_scan_spec(*options),
        r.dwell_time_active == dwell_time_active_spec(*options),
        r.dwell_time_passive == dwell_time_passive_spec(*options),
        r.mac_addr@ == scan_mac_spec(*options),
        r.num_scan_channels == NUM_SCAN_CHANNELS,
{
    let mut p = ScanParams {
        passive_scan: 0,
        dwell_time_active: 0,
        dwell_time_passive: 0,
        mac_addr: [0u8; 6],
        num_scan_channels: NUM_SCAN_CHANNELS,
    };
    match options.scan_type {
        ScanType::Active => {
            p.passive_scan = 0;
            if let Some(ms) = options.dwell_time {
                p.dwell_time_active = ms as u16;
            }
        },
        ScanType::Passive => {
            p.passive_scan = 1;
            if let Some(ms) = options.dwell_time {
                p.dwell_time_passive = ms as u16;
            }
        },
    }
    if let Some(bssid) = options.bssid {
        p.mac_addr = bssid;
    }
    assert(p.mac_addr@ =~= scan_mac_spec(*options));
    p
}

/// Serializes a scan request: UMAC header, scan reason (display), passive
/// flag (40), SSID list, CCK and band flags, IEs, BSSID filter (513), active
/// dwell time (519), passive dwell time (521), channel count (523), flags.
pub fn scan_command(options: &ScanOptions) -> (r: Vec<u8>)
    ensures
        r@.len() == SCAN_COMMAND_SIZE,
        le_u32(r@, 8) == UMAC_CMD_TRIGGER_SCAN,
        le_u16(r@, 40) == passive_scan_spec(*options),
        r@.subrange(513, 519) == scan_mac_spec(*options),
        le_u16(r@, 519) == dwell_time_active_spec(*options),
        le_u16(r@, 521) == dwell_time_passive_spec(*options),
        le_u16(r@, 523) == NUM_SCAN_CHANNELS,
{
    let p = scan_params(options);
    let mut v = umac_header(UMAC_CMD_TRIGGER_SCAN);
    push_u32_le(&mut v, 0);
    push_u16_le(&mut v, p.passive_scan);
    push_zeros(&mut v, 1 + 66 + 1 + 1 + 402);
    push_bytes(&mut v, &p.mac_addr);
    push_u16_le(&mut v, p.dwell_time_active);
    push_u16_le(&mut v, p.dwell_time_passive);
    push_u16_le(&mut v, p.num_scan_channels);
    push_zeros(&mut v, 1);
    proof {
        assert(v@.subrange(0, 36) =~= umac_header_spec(UMAC_CMD_TRIGGER_SCAN));
        assert(v@.subrange(513, 519) =~= p.mac_addr@);
        lemma_u16_roundtrip(p.passive_scan);
        lemma_u16_roundtrip(p.dwell_time_active);
        lemma_u16_roundtrip(p.dwell_time_passive);
        lemma_u16_roundtrip(p.num_scan_channels);
    }
    v
}

/// The passive flag of a scan request.
pub open spec fn passive_scan_spec(options: ScanOptions) -> u16 {
    if options.scan_type == ScanType::Active {
        0u16
    } else {
        1u16
    }
}

/// The active dwell time of a scan request.
pub open spec fn dwell_time_active_spec(options: ScanOptions) -> u16 {
    match (options.scan_type, options.dwell_time) {
        (ScanType::Active, Some(ms)) => ms as u16,
        _ => 0u16,
    }
}

/// The passive dwell time of a scan request.
pub open spec fn dwell_time_passive_spec(options: ScanOptions) -> u16 {
    match (options.scan_type, options.dwell_time) {
        (ScanType::Passive, Some(ms)) => ms as u16,
        _ => 0u16,
    }
}

/// The BSSID filter of a scan request; zeros for none.
pub open spec fn scan_mac_spec(options: ScanOptions) -> Seq<u8> {
    match options.bssid {
        Some(b) => b@,
        None => seq![0u8, 0u8, 0u8, 0u8, 0u8, 0u8],
    }
}

proof fn lemma_u16_roundtrip(w: u16)
    ensures
        ((w % 0x100) as u8) as int + ((w / 0x100) as u8) as int * 0x100 == w,
{
}

} // verus!

verus! {

/// Scan reason: results for display.
pub const SCAN_DISPLAY: u32 = 0;
/// Scan reason: results for a connection.
pub const SCAN_CONNECT: u32 = 1;
/// Statistics of every kind.
pub const RPU_STATS_TYPE_ALL: u32 = 0;
/// Power save disabled.
pub const PS_DISABLED: u32 = 0;
/// Management frame subtype: action.
pub const WLAN_FC_STYPE_ACTION: u16 = 13;
/// Management frame type.
pub const WLAN_FC_TYPE_MGMT: u16 = 0;
/// Longest frame match pattern.
pub const FRAME_MATCH_MAX_LEN: usize = 8;
/// Size of the station information block of a station update.
pub const STATION_INFO_SIZE: usize = 64;

/// Serializes a scan-results request.
pub fn get_scan_results_command() -> (r: Vec<u8>)
    ensures
        r@ == umac_header_spec(UMAC_CMD_GET_SCAN_RESULTS) + word_bytes_spec(SCAN_CONNECT),
        le_u32(r@, 8) == UMAC_CMD_GET_SCAN_RESULTS,
{
    let mut v = umac_header(UMAC_CMD_GET_SCAN_RESULTS);
    push_u32_le(&mut v, SCAN_CONNECT);
    proof {
        assert(v@.subrange(0, 36) =~= umac_header_spec(UMAC_CMD_GET_SCAN_RESULTS));
    }
    v
}

/// UMAC command: abort a scan.
pub const UMAC_CMD_ABORT_SCAN: u32 = 50;

/// Serializes a request to abort the running scan: the UMAC header alone.
pub fn abort_scan_command() -> (r: Vec<u8>)
    ensures
        r@ == umac_header_spec(UMAC_CMD_ABORT_SCAN),
        le_u32(r@, 8) == UMAC_CMD_ABORT_SCAN,
{
    umac_header(UMAC_CMD_ABORT_SCAN)
}

/// Serializes a statistics request: system header (command, length 16),
/// statistics kind, operating mode.
pub fn get_stats_command() -> (r: Vec<u8>)
    ensures
        r@ == word_bytes_spec(SYS_CMD_GET_STATS) + word_bytes_spec(16) + word_bytes_spec(RPU_STATS_TYPE_ALL)
            + word_bytes_spec(0),
        r@.len() == 16,
        le_u32(r@, 0) == SYS_CMD_GET_STATS,
{
    let mut v: Vec<u8> = Vec::new();
    push_u32_le(&mut v, SYS_CMD_GET_STATS);
    push_u32_le(&mut v, 16);
    push_u32_le(&mut v, RPU_STATS_TYPE_ALL);
    push_u32_le(&mut v, 0);
    proof {
        lemma_word_bytes_roundtrip(SYS_CMD_GET_STATS);
        assert(v@.subrange(0, 4) =~= word_bytes_spec(SYS_CMD_GET_STATS));
    }
    v
}

/// The MAC address the UMAC information block holds: the three low bytes of
/// its first address word, a zero byte, the two low bytes of the second.
pub open spec fn mac_from_info_spec(info: Seq<u8>) -> Seq<u8> {
    let o = UMAC_INFO_MAC_OFFSET as int;
    seq![info[o], info[o + 1], info[o + 2], 0u8, info[o + 4], info[o + 5]]
}

/// Reads the MAC address out of a UMAC information block; `None` when the
/// block is too short.
pub fn mac_address_from_umac_info(info: &[u8]) -> (r: Option<[u8; 6]>)
    ensures
        info@.len() < UMAC_INFO_WORDS * 4 ==> r is None,
        info@.len() >= UMAC_INFO_WORDS * 4 ==> (r matches Some(m) && m@ == mac_from_info_spec(info@)),
{
    if info.len() < UMAC_INFO_WORDS * 4 {
        return None;
    }
    let o = UMAC_INFO_MAC_OFFSET;
    let m = [info[o], info[o + 1], info[o + 2], 0u8, info[o + 4], info[o + 5]];
    assert(m@ =~= mac_from_info_spec(info@));
    Some(m)
}

/// A UMAC command with header `cmd` followed by `body`.
fn umac_command(cmd: u32, body: &[u8], wait_for_completion: bool) -> (r: Command)
    ensures
        r.domain == MessageDomain::Umac,
        r.wait_for_completion == wait_for_completion,
        r.payload@ == umac_header_spec(cmd) + body@,
        le_u32(r.payload@, 8) == cmd,
{
    let mut payload = umac_header(cmd);
    let ghost h = payload@;
    push_bytes(&mut payload, body);
    assert(payload@.subrange(0, 36) =~= h);
    Command { domain: MessageDomain::Umac, wait_for_completion, payload }
}

/// The command word of step `i` of the interface set-up.
pub open spec fn init_kind(i: int) -> u32 {
    if i == 0 {
        UMAC_CMD_CHANGE_MACADDR
    } else if i == 1 {
        UMAC_CMD_SET_IFFLAGS
    } else if i == 2 {
        UMAC_CMD_SET_POWER_SAVE
    } else if i == 3 {
        UMAC_CMD_MCAST_FILTER
    } else if i < 7 {
        UMAC_CMD_REGISTER_FRAME
    } else {
        UMAC_CMD_SET_STATION
    }
}

/// The action frame pattern registered at step `i` (4 to 6): BSS transition
/// management request, neighbor report response, radio measurement request.
pub open spec fn frame_pattern(i: int) -> Seq<u8> {
    if i == 4 {
        seq![0x0au8, 0x07]
    } else if i == 5 {
        seq![0x05u8, 0x05]
    } else {
        seq![0x05u8, 0x00]
    }
}

/// The body, after the UMAC header, of step `i` of the interface set-up: the
/// MAC address; interface state up on interface 0; power save disabled; the
/// all-systems multicast address (01:00:5e:00:00:01); a management action
/// frame registration with its two-byte pattern; a station update with the
/// second flag set valid and an empty station block.
pub open spec fn init_body(mac: Seq<u8>, i: int) -> Seq<u8> {
    if i == 0 {
        mac
    } else if i == 1 {
        word_bytes_spec(1) + word_bytes_spec(0)
    } else if i == 2 {
        word_bytes_spec(PS_DISABLED)
    } else if i == 3 {
        word_bytes_spec(0) + seq![0x01u8, 0x00, 0x5e, 0x00, 0x00, 0x01]
    } else if i < 7 {
        u16_bytes(((WLAN_FC_TYPE_MGMT << 2) | (WLAN_FC_STYPE_ACTION << 4)) as u16) + word_bytes_spec(2) + frame_pattern(i)
            + zeros((FRAME_MATCH_MAX_LEN - 2) as int)
    } else {
        word_bytes_spec(SET_STATION_STA_FLAGS2_VALID) + zeros(STATION_INFO_SIZE as int)
    }
}

fn init_body_bytes(mac_address: [u8; 6], i: usize) -> (r: Vec<u8>)
    requires
        i < 8,
    ensures
        r@ == init_body(mac_address@, i as int),
{
    let mut body: Vec<u8> = Vec::new();
    if i == 0 {
        push_bytes(&mut body, &mac_address);
    } else if i == 1 {
        push_u32_le(&mut body, 1);
        push_u32_le(&mut body, 0);
    } else if i == 2 {
        push_u32_le(&mut body, PS_DISABLED);
    } else if i == 3 {
        push_u32_le(&mut body, 0);
        push_bytes(&mut body, &[0x01, 0x00, 0x5e, 0x00, 0x00, 0x01]);
    } else if i < 7 {
        let frame: [u8; 2] = if i == 4 {
            [0x0a, 0x07]
        } else if i == 5 {
            [0x05, 0x05]
        } else {
            [0x05, 0x00]
        };
        assert(frame@ =~= frame_pattern(i as int));
        push_u16_le(&mut body, (WLAN_FC_TYPE_MGMT << 2) | (WLAN_FC_STYPE_ACTION << 4));
        push_u32_le(&mut body, 2);
        push_bytes(&mut body, &frame);
        push_zeros(&mut body, FRAME_MATCH_MAX_LEN - 2);
    } else {
        push_u32_le(&mut body, SET_STATION_STA_FLAGS2_VALID);
        push_zeros(&mut body, STATION_INFO_SIZE);
    }
    assert(body@ =~= init_body(mac_address@, i as int));
    body
}

/// The commands that set the interface up after boot, in order: set the MAC
/// address, bring the interface up, disable power save, set the all-systems
/// multicast filter, register for three action frames (not awaited), and
/// update the station entry.
pub fn init_commands(mac_address: [u8; 6]) -> (r: Vec<Command>)
    ensures
        r@.len() == 8,
        forall|i: int| 0 <= i < 8 ==> (#[trigger] r@[i]).domain == MessageDomain::Umac,
        forall|i: int| 0 <= i < 8 ==> (#[trigger] r@[i]).wait_for_completion == !(4 <= i < 7),
        forall|i: int| 0 <= i < 8 ==> le_u32((#[trigger] r@[i]).payload@, 8) == init_kind(i),
        forall|i: int| 0 <= i < 8 ==> (#[trigger] r@[i]).payload@ == umac_header_spec(init_kind(i)) + init_body(
            mac_address@,
            i,
        ),
{
    let mut out: Vec<Command> = Vec::new();
    let mut i: usize = 0;
    while i < 8
        invariant
            0 <= i <= 8,
            out@.len() == i,
            forall|k: int| 0 <= k < i ==> (#[trigger] out@[k]).domain == MessageDomain::Umac,
            forall|k: int| 0 <= k < i ==> (#[trigger] out@[k]).wait_for_completion == !(4 <= k < 7),
            forall|k: int| 0 <= k < i ==> le_u32((#[trigger] out@[k]).payload@, 8) == init_kind(k),
            forall|k: int| 0 <= k < i ==> (#[trigger] out@[k]).payload@ == umac_header_spec(init_kind(k)) + init_body(
                mac_address@,
                k,
            ),
        decreases 8 - i,
    {
        let kind = if i == 0 {
            UMAC_CMD_CHANGE_MACADDR
        } else if i == 1 {
            UMAC_CMD_SET_IFFLAGS
        } else if i == 2 {
            UMAC_CMD_SET_POWER_SAVE
        } else if i == 3 {
            UMAC_CMD_MCAST_FILTER
        } else if i < 7 {
            UMAC_CMD_REGISTER_FRAME
        } else {
            UMAC_CMD_SET_STATION
        };
        let body = init_body_bytes(mac_address, i);
        out.push(umac_command(kind, body.as_slice(), !(4 <= i && i < 7)));
        i = i + 1;
    }
    out
}

/// Firmware timing: hardware bring-up time.
pub const HW_DELAY: u32 = 7600;
/// Firmware timing: software bring-up time.
pub const SW_DELAY: u32 = 5000;
/// Firmware timing: beacon timeout.
pub const BCN_TIMEOUT: u32 = 40000;
/// Sleep clock calibration enabled.
pub const CALIB_SLEEP_CLOCK_ENABLE: u32 = 1;
/// Default PHY calibrations.
pub const DEF_PHY_CALIB: u32 = 0x0001_FF00;
/// Temperature-based calibration enabled.
pub const TEMP_CALIB_ENABLE: u32 = 1;
/// Default temperature calibrations.
pub const DEF_PHY_TEMP_CALIB: u32 = 0x0001_FF00;
/// Default battery-voltage calibrations.
pub const DEF_PHY_VBAT_CALIB: u32 = 0x0001_C000;
/// Period of temperature and voltage monitoring.
pub const TEMP_CALIB_PERIOD: u32 = 1024 * 1024;
/// Battery voltage threshold: very low.
pub const VBAT_VERYLOW: u32 = 3;
/// Battery voltage threshold: low.
pub const VBAT_LOW: u32 = 6;
/// Battery voltage threshold: high.
pub const VBAT_HIGH: u32 = 12;
/// Temperature change that triggers calibration.
pub const TEMP_CALIB_THRESHOLD: u32 = 40;
/// Receive buffer size announced to the firmware.
pub const RX_BUF_POOL_SIZE: u16 = 1600;
/// Receive buffers per pool announced to the firmware.
pub const RX_BUF_POOL_COUNT: u16 = 5;
/// Largest transmit aggregation.
pub const MAX_TX_AGGREGATION: u8 = 6;

/// The bytes of a 16-bit value, least significant first.
pub open spec fn u16_bytes(w: u16) -> Seq<u8> {
    seq![(w % 0x100) as u8, (w / 0x100) as u8]
}

/// The start of the part of the initialisation command after the RF block:
/// three receive buffer pools (buffer size, buffer count), the aggregation
/// parameters (rate protection, aggregation on, WMM on, four TX and eight RX
/// aggregation sessions, the largest TX aggregation, reorder buffer of 64,
/// RX A-MPDU size 3), the temperature/voltage calibration (enabled, the
/// temperature and voltage calibration sets, the monitoring period, the three
/// voltage thresholds, the temperature threshold, no voltage threshold), and
/// the country code (none).
pub open spec fn sys_init_tail_spec() -> Seq<u8> {
    u16_bytes(RX_BUF_POOL_SIZE) + u16_bytes(RX_BUF_POOL_COUNT) + u16_bytes(RX_BUF_POOL_SIZE) + u16_bytes(
        RX_BUF_POOL_COUNT,
    ) + u16_bytes(RX_BUF_POOL_SIZE) + u16_bytes(RX_BUF_POOL_COUNT) + seq![0u8, 1, 1, 4, 8, MAX_TX_AGGREGATION, 64]
        + word_bytes_spec(3) + word_bytes_spec(TEMP_CALIB_ENABLE) + word_bytes_spec(DEF_PHY_TEMP_CALIB)
        + word_bytes_spec(DEF_PHY_VBAT_CALIB) + word_bytes_spec(TEMP_CALIB_PERIOD) + word_bytes_spec(VBAT_VERYLOW)
        + word_bytes_spec(VBAT_LOW) + word_bytes_spec(VBAT_HIGH) + word_bytes_spec(TEMP_CALIB_THRESHOLD)
        + word_bytes_spec(0) + seq![0u8, 0]
}

/// The system parameters before the RF block: wdev 0, sleep disabled, the
/// hardware and software bring-up times, the beacon timeout, sleep-clock
/// calibration, the PHY calibrations, and no MAC address.
pub open spec fn sys_params_spec() -> Seq<u8> {
    word_bytes_spec(0) + word_bytes_spec(0) + word_bytes_spec(HW_DELAY) + word_bytes_spec(SW_DELAY) + word_bytes_spec(
        BCN_TIMEOUT,
    ) + word_bytes_spec(CALIB_SLEEP_CLOCK_ENABLE) + word_bytes_spec(DEF_PHY_CALIB) + zeros(6)
}

/// The knobs after the country code: all bands, no checksum or management
/// buffer offload, no feature flags, scan coexistence and beamforming as
/// default, a disconnect timeout of 20, at most 150 BSSs shown, power-save
/// exit on every TIM, the watchdog at its largest value, keep-alive enabled
/// every 60 seconds, 10 power-save poll failures allowed, no raw scan, no
/// STBC in HT.
pub open spec fn sys_knobs_spec() -> Seq<u8> {
    word_bytes_spec(0) + seq![0u8, 0] + word_bytes_spec(0) + seq![0u8, 0] + word_bytes_spec(20) + word_bytes_spec(150)
        + seq![0u8] + word_bytes_spec(0x00FF_FFFF) + seq![1u8] + word_bytes_spec(60) + word_bytes_spec(10) + seq![0u8, 0]
}

/// `cmd` is the system initialisation command for the RF block `rf`.
pub open spec fn sys_init_spec(cmd: Seq<u8>, rf: nrf_wifi_phy_rf_params) -> bool {
    &&& cmd.len() == SYS_INIT_COMMAND_SIZE
    &&& le_u32(cmd, 0) == SYS_CMD_INIT
    &&& le_u32(cmd, 4) == SYS_INIT_COMMAND_SIZE
    &&& cmd[48] == rf.xo_freq_offset
    &&& cmd.subrange(57, 66) == ceiling_bytes_spec(rf)
    &&& cmd.subrange(84, 242) == rf.phy_params@
    &&& cmd[242] == 1
    &&& cmd.subrange(243, 304) == sys_init_tail_spec()
    &&& cmd.subrange(8, 42) == sys_params_spec()
    &&& cmd.subrange(304, 340) == sys_knobs_spec()
}

/// Serializes the system initialisation command: system header (command,
/// length), wdev, the system parameters with the RF block at 42 and its valid
/// flag at 242, three receive buffer pools at 243, aggregation parameters,
/// temperature/voltage calibration, country code, band and the remaining
/// firmware knobs.
pub fn sys_init_command(rf: &nrf_wifi_phy_rf_params) -> (r: Vec<u8>)
    requires
        rf.phy_params@.len() == PHY_PARAMS_LEN,
    ensures
        sys_init_spec(r@, *rf),
{
    let mut v = sys_init_head(rf);
    let ghost head = v@;
    let tail = sys_init_tail();
    push_bytes(&mut v, tail.as_slice());
    proof {
        assert(v@.subrange(0, 243) =~= head);
        assert(v@.subrange(57, 66) =~= head.subrange(57, 66));
        assert(v@.subrange(84, 242) =~= head.subrange(84, 242));
        assert(v@[48] == head[48]);
        assert(v@[242] == head[242]);
        assert(v@.subrange(0, 8) =~= head.subrange(0, 8));
        assert(v@.subrange(243, 304) =~= tail@.subrange(0, 61));
        assert(v@.subrange(8, 42) =~= head.subrange(8, 42));
        assert(v@.subrange(304, 340) =~= tail@.subrange(61, 97));
    }
    v
}

/// The system header, wdev and system parameters of the initialisation
/// command, up to and including the RF valid flag.
fn sys_init_head(rf: &nrf_wifi_phy_rf_params) -> (r: Vec<u8>)
    requires
        rf.phy_params@.len() == PHY_PARAMS_LEN,
    ensures
        r@.len() == 243,
        r@.subrange(8, 42) == sys_params_spec(),
        le_u32(r@, 0) == SYS_CMD_INIT,
        le_u32(r@, 4) == SYS_INIT_COMMAND_SIZE,
        r@[48] == rf.xo_freq_offset,
        r@.subrange(57, 66) == ceiling_bytes_spec(*rf),
        r@.subrange(84, 242) == rf.phy_params@,
        r@[242] == 1,
{
    let mut v: Vec<u8> = Vec::new();
    push_u32_le(&mut v, SYS_CMD_INIT);
    push_u32_le(&mut v, SYS_INIT_COMMAND_SIZE as u32);
    let ghost first = v@;
    push_u32_le(&mut v, 0);
    push_u32_le(&mut v, 0);
    push_u32_le(&mut v, HW_DELAY);
    push_u32_le(&mut v, SW_DELAY);
    push_u32_le(&mut v, BCN_TIMEOUT);
    push_u32_le(&mut v, CALIB_SLEEP_CLOCK_ENABLE);
    push_u32_le(&mut v, DEF_PHY_CALIB);
    push_zeros(&mut v, 6);
    let rf_bytes = rf.to_bytes();
    push_bytes(&mut v, rf_bytes.as_slice());
    v.push(1);
    proof {
        lemma_word_bytes_roundtrip(SYS_CMD_INIT);
        lemma_word_bytes_roundtrip(SYS_INIT_COMMAND_SIZE as u32);
        assert(v@.subrange(0, 8) =~= first);
        assert(v@.subrange(8, 42) =~= sys_params_spec());
        assert(v@.subrange(0, 4) =~= word_bytes_spec(SYS_CMD_INIT));
        assert(v@.subrange(4, 8) =~= word_bytes_spec(SYS_INIT_COMMAND_SIZE as u32));
        assert(v@.subrange(42, 242) =~= rf_bytes@);
        assert(v@.subrange(57, 66) =~= rf_bytes@.subrange(15, 24));
        assert(v@.subrange(84, 242) =~= rf_bytes@.subrange(42, 200));
        assert(v@[48] == rf_bytes@[6]);
    }
    v
}

/// The receive pools, aggregation, calibration and remaining knobs of the
/// initialisation command.
fn sys_init_tail() -> (r: Vec<u8>)
    ensures
        r@.len() == SYS_INIT_COMMAND_SIZE - 243,
        r@.subrange(0, 61) == sys_init_tail_spec(),
        r@.subrange(61, 97) == sys_knobs_spec(),
{
    let mut v: Vec<u8> = Vec::new();
    push_u16_le(&mut v, RX_BUF_POOL_SIZE);
    push_u16_le(&mut v, RX_BUF_POOL_COUNT);
    push_u16_le(&mut v, RX_BUF_POOL_SIZE);
    push_u16_le(&mut v, RX_BUF_POOL_COUNT);
    push_u16_le(&mut v, RX_BUF_POOL_SIZE);
    push_u16_le(&mut v, RX_BUF_POOL_COUNT);
    v.push(0);
    v.push(1);
    v.push(1);
    v.push(4);
    v.push(8);
    v.push(MAX_TX_AGGREGATION);
    v.push(64);
    push_u32_le(&mut v, 3);
    push_u32_le(&mut v, TEMP_CALIB_ENABLE);
    push_u32_le(&mut v, DEF_PHY_TEMP_CALIB);
    push_u32_le(&mut v, DEF_PHY_VBAT_CALIB);
    push_u32_le(&mut v, TEMP_CALIB_PERIOD);
    push_u32_le(&mut v, VBAT_VERYLOW);
    push_u32_le(&mut v, VBAT_LOW);
    push_u32_le(&mut v, VBAT_HIGH);
    push_u32_le(&mut v, TEMP_CALIB_THRESHOLD);
    push_u32_le(&mut v, 0);
    let ghost known = v@;
    push_zeros(&mut v, 2);
    push_u32_le(&mut v, 0);
    v.push(0);
    v.push(0);
    push_u32_le(&mut v, 0);
    v.push(0);
    v.push(0);
    push_u32_le(&mut v, 20);
    push_u32_le(&mut v, 150);
    v.push(0);
    push_u32_le(&mut v, 0x00FF_FFFF);
    v.push(1);
    push_u32_le(&mut v, 60);
    push_u32_le(&mut v, 10);
    v.push(0);
    v.push(0);
    assert(v@.subrange(0, 59) =~= known);
    assert(v@.subrange(0, 61) =~= sys_init_tail_spec());
    assert(v@.subrange(61, 97) =~= sys_knobs_spec());
    v
}

} // verus!
