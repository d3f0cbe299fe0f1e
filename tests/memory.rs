use nrf70::memory::{remap_global_addr_to_region_and_offset, region, ProcessorType, NUM_REGIONS};

fn applies(restriction: Option<ProcessorType>, processor: Option<ProcessorType>) -> bool {
    restriction.is_none() || restriction == processor
}

#[test]
fn every_region_resolves_at_both_bounds() {
    let processors = [None, Some(ProcessorType::Lmac), Some(ProcessorType::Umac)];
    for i in 0..NUM_REGIONS {
        let r = region(i);
        for p in processors {
            if !applies(r.processor_restriction, p) {
                continue;
            }
            assert_eq!(remap_global_addr_to_region_and_offset(r.rpu_mem_start, p), Some((r, 0)));
            assert_eq!(
                remap_global_addr_to_region_and_offset(r.rpu_mem_end, p),
                Some((r, r.rpu_mem_end - r.rpu_mem_start))
            );
            let past = r.rpu_mem_end + 1;
            if let Some((other, off)) = remap_global_addr_to_region_and_offset(past, p) {
                assert_ne!(other, r);
                assert!(other.rpu_mem_start <= past && past <= other.rpu_mem_end);
                assert_eq!(off, past - other.rpu_mem_start);
            }
        }
    }
}

#[test]
fn restricted_regions_need_their_core() {
    // LMAC retained RAM only resolves for the LMAC core.
    assert!(remap_global_addr_to_region_and_offset(0x8004_1000, None).is_none());
    let (r, off) = remap_global_addr_to_region_and_offset(0x8004_1000, Some(ProcessorType::Lmac)).unwrap();
    assert_eq!(r.start, 0x14_0000);
    assert_eq!(off, 0x1000);
    // The same address belongs to UMAC ROM for the UMAC core.
    let (r, off) = remap_global_addr_to_region_and_offset(0x8004_1000, Some(ProcessorType::Umac)).unwrap();
    assert_eq!(r.start, 0x20_0000);
    assert_eq!(off, 0x4_1000);
}

#[test]
fn unmapped_address_does_not_resolve() {
    assert!(remap_global_addr_to_region_and_offset(0x1234_5678, None).is_none());
    assert!(remap_global_addr_to_region_and_offset(0xFFFF_FFFF, Some(ProcessorType::Umac)).is_none());
}

#[test]
fn packet_ram_has_no_latency() {
    let (r, off) = remap_global_addr_to_region_and_offset(0xB000_0024, None).unwrap();
    assert_eq!(r.latency, 0);
    assert_eq!(r.start + off, 0x0C_0024);
}
