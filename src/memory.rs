//! The address map of the co-processor: which bus window serves a global
//! co-processor address, and how many dummy words a read there needs.
use vstd::prelude::*;

verus! {

/// One of the two co-processor cores.
#[derive(Debug, Clone, Copy, PartialEq, Eq, Structural)]
pub enum ProcessorType {
    Lmac,
    Umac,
}

/// A window of the bus that maps a range of co-processor addresses.
#[derive(Debug, Clone, Copy, PartialEq, Eq, Structural)]
pub struct MemoryRegion {
    /// First bus address of the window.
    pub start: u32,
    /// Last bus address of the window.
    pub end: u32,
    /// Number of dummy 32-bit words that precede the data of a read.
    pub latency: u32,
    /// First co-processor address mapped by the window.
    pub rpu_mem_start: u32,
    /// Last co-processor address mapped by the window.
    pub rpu_mem_end: u32,
    /// The core whose view of memory this is, if the window is not shared.
    pub processor_restriction: Option<ProcessorType>,
}

/// Number of windows in the address map.
pub const NUM_REGIONS: usize = 11;

pub open spec fn mk_region(start: u32, end: u32, latency: u32, rpu_mem_start: u32, rpu_mem_end: u32, p: Option<ProcessorType>) -> MemoryRegion {
    MemoryRegion { start, end, latency, rpu_mem_start, rpu_mem_end, processor_restriction: p }
}

/// The address map, window by window, in the order in which resolution tries them.
pub open spec fn region_spec(i: int) -> MemoryRegion {
    if i == 0 {
        mk_region(0x00_0000, 0x00_8FFF, 1, 0xA400_0000, 0xA4FF_FFFF, None)
    } else if i == 1 {
        mk_region(0x00_9000, 0x03_FFFF, 2, 0x0000_0000, 0x0000_0000, None)
    } else if i == 2 {
        mk_region(0x04_0000, 0x07_FFFF, 1, 0xA500_0000, 0xA5FF_FFFF, None)
    } else if i == 3 {
        mk_region(0x0C_0000, 0x0F_0FFF, 0, 0xB000_0000, 0xB0FF_FFFF, None)
    } else if i == 4 {
        mk_region(0x08_0000, 0x09_2000, 1, 0xB700_0000, 0xB7FF_FFFF, None)
    } else if i == 5 {
        mk_region(0x10_0000, 0x13_4000, 1, 0x8000_0000, 0x8003_3FFF, Some(ProcessorType::Lmac))
    } else if i == 6 {
        mk_region(0x14_0000, 0x14_C000, 1, 0x8004_0000, 0x8004_BFFF, Some(ProcessorType::Lmac))
    } else if i == 7 {
        mk_region(0x18_0000, 0x19_0000, 1, 0x8008_0000, 0x8008_FFFF, Some(ProcessorType::Lmac))
    } else if i == 8 {
        mk_region(0x20_0000, 0x26_1800, 1, 0x8000_0000, 0x8006_17FF, Some(ProcessorType::Umac))
    } else if i == 9 {
        mk_region(0x28_0000, 0x2A_4000, 1, 0x8008_0000, 0x800A_3FFF, Some(ProcessorType::Umac))
    } else {
        mk_region(0x30_0000, 0x33_8000, 1, 0x8010_0000, 0x8013_7FFF, Some(ProcessorType::Umac))
    }
}

/// Index of the system bus window.
pub const SYSBUS: usize = 0;
/// Index of the extended system bus window.
pub const EXT_SYS_BUS: usize = 1;
/// Index of the peripheral bus window.
pub const PBUS: usize = 2;
/// Index of the packet RAM window.
pub const PKTRAM: usize = 3;
/// Index of the GRAM window.
pub const GRAM: usize = 4;

/// The window may be used on behalf of `processor`.
pub open spec fn region_applies(r: MemoryRegion, processor: Option<ProcessorType>) -> bool {
    r.processor_restriction is None || r.processor_restriction == processor
}

/// The window maps the co-processor address `addr`.
pub open spec fn region_contains(r: MemoryRegion, addr: u32) -> bool {
    r.rpu_mem_start <= addr && addr <= r.rpu_mem_end
}

/// Index of the first window at or after `i` that serves `addr` for `processor`.
pub open spec fn first_match(addr: u32, processor: Option<ProcessorType>, i: int) -> Option<int>
    decreases NUM_REGIONS - i,
{
    if i < 0 || i >= NUM_REGIONS {
        None
    } else if region_applies(region_spec(i), processor) && region_contains(region_spec(i), addr) {
        Some(i)
    } else {
        first_match(addr, processor, i + 1)
    }
}

/// What resolution yields: the window and the offset of `addr` inside it.
pub open spec fn resolve_spec(addr: u32, processor: Option<ProcessorType>) -> Option<(MemoryRegion, u32)> {
    match first_match(addr, processor, 0) {
        Some(i) => Some((region_spec(i), (addr - region_spec(i).rpu_mem_start) as u32)),
        None => None,
    }
}

/// The window of index `i` of the address map.
pub fn region(i: usize) -> (r: MemoryRegion)
    requires
        i < NUM_REGIONS,
    ensures
        r == region_spec(i as int),
{
    match i {
        0 => MemoryRegion { start: 0x00_0000, end: 0x00_8FFF, latency: 1, rpu_mem_start: 0xA400_0000, rpu_mem_end: 0xA4FF_FFFF, processor_restriction: None },
        1 => MemoryRegion { start: 0x00_9000, end: 0x03_FFFF, latency: 2, rpu_mem_start: 0x0000_0000, rpu_mem_end: 0x0000_0000, processor_restriction: None },
        2 => MemoryRegion { start: 0x04_0000, end: 0x07_FFFF, latency: 1, rpu_mem_start: 0xA500_0000, rpu_mem_end: 0xA5FF_FFFF, processor_restriction: None },
        3 => MemoryRegion { start: 0x0C_0000, end: 0x0F_0FFF, latency: 0, rpu_mem_start: 0xB000_0000, rpu_mem_end: 0xB0FF_FFFF, processor_restriction: None },
        4 => MemoryRegion { start: 0x08_0000, end: 0x09_2000, latency: 1, rpu_mem_start: 0xB700_0000, rpu_mem_end: 0xB7FF_FFFF, processor_restriction: None },
        5 => MemoryRegion { start: 0x10_0000, end: 0x13_4000, latency: 1, rpu_mem_start: 0x8000_0000, rpu_mem_end: 0x8003_3FFF, processor_restriction: Some(ProcessorType::Lmac) },
        6 => MemoryRegion { start: 0x14_0000, end: 0x14_C000, latency: 1, rpu_mem_start: 0x8004_0000, rpu_mem_end: 0x8004_BFFF, processor_restriction: Some(ProcessorType::Lmac) },
        7 => MemoryRegion { start: 0x18_0000, end: 0x19_0000, latency: 1, rpu_mem_start: 0x8008_0000, rpu_mem_end: 0x8008_FFFF, processor_restriction: Some(ProcessorType::Lmac) },
        8 => MemoryRegion { start: 0x20_0000, end: 0x26_1800, latency: 1, rpu_mem_start: 0x8000_0000, rpu_mem_end: 0x8006_17FF, processor_restriction: Some(ProcessorType::Umac) },
        9 => MemoryRegion { start: 0x28_0000, end: 0x2A_4000, latency: 1, rpu_mem_start: 0x8008_0000, rpu_mem_end: 0x800A_3FFF, processor_restriction: Some(ProcessorType::Umac) },
        _ => MemoryRegion { start: 0x30_0000, end: 0x33_8000, latency: 1, rpu_mem_start: 0x8010_0000, rpu_mem_end: 0x8013_7FFF, processor_restriction: Some(ProcessorType::Umac) },
    }
}

fn applies(r: &MemoryRegion, processor: Option<ProcessorType>) -> (b: bool)
    ensures
        b == region_applies(*r, processor),
{
    match (r.processor_restriction, processor) {
        (None, _) => true,
        (Some(ProcessorType::Lmac), Some(ProcessorType::Lmac)) => true,
        (Some(ProcessorType::Umac), Some(ProcessorType::Umac)) => true,
        _ => false,
    }
}

/// Finds the window that serves the co-processor address `rpu_addr` on behalf
/// of `processor`, and the offset of the address inside it. Windows restricted
/// to a core are only considered for that core. An address no window serves
/// is a programming error of the caller or a corrupt address from the
/// co-processor: it yields `None`, which every access of the driver reports
/// as `Error::InvalidAddress` instead of halting.
pub fn remap_global_addr_to_region_and_offset(rpu_addr: u32, processor: Option<ProcessorType>) -> (r: Option<(MemoryRegion, u32)>)
    ensures
        r == resolve_spec(rpu_addr, processor),
{
    let mut i: usize = 0;
    while i < NUM_REGIONS
        invariant
            i <= NUM_REGIONS,
            first_match(rpu_addr, processor, 0) == first_match(rpu_addr, processor, i as int),
        decreases NUM_REGIONS - i,
    {
        let r = region(i);
        if applies(&r, processor) && r.rpu_mem_start <= rpu_addr && rpu_addr <= r.rpu_mem_end {
            return Some((r, rpu_addr - r.rpu_mem_start));
        }
        i = i + 1;
    }
    None
}

/// No two windows that serve the same core overlap in co-processor addresses.
pub proof fn lemma_regions_disjoint(i: int, j: int, processor: Option<ProcessorType>)
    requires
        0 <= i < NUM_REGIONS,
        0 <= j < NUM_REGIONS,
        i != j,
        region_applies(region_spec(i), processor),
        region_applies(region_spec(j), processor),
    ensures
        region_spec(i).rpu_mem_end < region_spec(j).rpu_mem_start
            || region_spec(j).rpu_mem_end < region_spec(i).rpu_mem_start,
{
}

proof fn lemma_first_match_unique(addr: u32, processor: Option<ProcessorType>, i: int, k: int)
    requires
        0 <= k <= i < NUM_REGIONS,
        region_applies(region_spec(i), processor),
        region_contains(region_spec(i), addr),
    ensures
        first_match(addr, processor, k) == Some(i),
    decreases i - k,
{
    if k < i {
        if region_applies(region_spec(k), processor) && region_contains(region_spec(k), addr) {
            lemma_regions_disjoint(i, k, processor);
        }
        lemma_first_match_unique(addr, processor, i, k + 1);
    }
}

/// Every address of a window, its two bounds included, resolves to that window
/// for each core the window serves, at its offset from the window's base.
pub proof fn lemma_resolve_in_region(i: int, addr: u32, processor: Option<ProcessorType>)
    requires
        0 <= i < NUM_REGIONS,
        region_applies(region_spec(i), processor),
        region_contains(region_spec(i), addr),
    ensures
        resolve_spec(addr, processor) == Some((region_spec(i), (addr - region_spec(i).rpu_mem_start) as u32)),
{
    lemma_first_match_unique(addr, processor, i, 0);
}

/// The two bounds of each window resolve to it; the address just past its end
/// either resolves to no window or to another window that holds that address.
pub proof fn lemma_resolve_bounds(i: int, processor: Option<ProcessorType>)
    requires
        0 <= i < NUM_REGIONS,
        region_applies(region_spec(i), processor),
    ensures
        resolve_spec(region_spec(i).rpu_mem_start, processor) == Some((region_spec(i), 0u32)),
        resolve_spec(region_spec(i).rpu_mem_end, processor)
            == Some((region_spec(i), (region_spec(i).rpu_mem_end - region_spec(i).rpu_mem_start) as u32)),
        region_spec(i).rpu_mem_end < u32::MAX ==> ({
            let past = (region_spec(i).rpu_mem_end + 1) as u32;
            match resolve_spec(past, processor) {
                None => true,
                Some((r, off)) => r != region_spec(i) && region_contains(r, past),
            }
        }),
{
    let r = region_spec(i);
    lemma_resolve_in_region(i, r.rpu_mem_start, processor);
    lemma_resolve_in_region(i, r.rpu_mem_end, processor);
    if r.rpu_mem_end < u32::MAX {
        let past = (r.rpu_mem_end + 1) as u32;
        lemma_first_match_some(past, processor, 0);
    }
}

proof fn lemma_first_match_some(addr: u32, processor: Option<ProcessorType>, k: int)
    requires
        0 <= k,
    ensures
        first_match(addr, processor, k) matches Some(j) ==> k <= j < NUM_REGIONS
            && region_applies(region_spec(j), processor) && region_contains(region_spec(j), addr),
    decreases NUM_REGIONS - k,
{
    if k < NUM_REGIONS {
        lemma_first_match_some(addr, processor, k + 1);
    }
}

} // verus!
