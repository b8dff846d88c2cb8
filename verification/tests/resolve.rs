use procmem::chain::AddressSpace;
use procmem::enums::{BufType, BufValue, MemoryError};
use procmem::handler::{chain_step, process_name_matches, MemoryHandler};
use procmem::region::{parse_hex_range, range_contains, resolve_base_address};

fn table(records: &[&str]) -> Vec<Vec<u8>> {
    records.iter().map(|r| r.as_bytes().to_vec()).collect()
}

#[test]
fn first_matching_region_wins() {
    let records = table(&[
        "1000-2000 r--p 00000000 00:00 0",
        "3000-4000 r-xp 00000000 00:00 0",
        "5000-6000 r-xp 00000000 00:00 0",
    ]);
    let r = resolve_base_address(&records, &b"r-xp".to_vec());
    assert_eq!(r, Some(0x3000));
}

#[test]
fn no_matching_region_yields_nothing() {
    let records = table(&["1000-2000 r--p 00000000 00:00 0"]);
    assert_eq!(resolve_base_address(&records, &b"rwxp".to_vec()), None);
    assert_eq!(resolve_base_address(&Vec::new(), &b"r-xp".to_vec()), None);
}

#[test]
fn the_permissions_field_decides_not_the_whole_record() {
    // Only the second record's permissions field holds the substring; the
    // first holds it in a later field and must not match.
    let records = table(&[
        "1000-2000 r--p 00000000 00:00 0 /lib/r-xp-named.so",
        "3000-4000 r-xp 00000000 00:00 0",
    ]);
    let r = resolve_base_address(&records, &b"r-xp".to_vec());
    assert_eq!(r, Some(0x3000));
}

#[test]
fn malformed_start_of_range_yields_nothing() {
    let records = table(&["zzzz-4000 r-xp 00000000 00:00 0"]);
    assert_eq!(resolve_base_address(&records, &b"r-xp".to_vec()), None);
}

#[test]
fn hex_fields_parse_exactly() {
    let line = b"00ff 10000000000000000 deadBEEF".to_vec();
    assert_eq!(parse_hex_range(&line, 0, 4), Some(0xFF));
    assert_eq!(parse_hex_range(&line, 0, 0), None);
    // Seventeen digits overflow a 64-bit value.
    assert_eq!(parse_hex_range(&line, 5, 22), None);
    assert_eq!(parse_hex_range(&line, 23, 31), Some(0xDEAD_BEEF));
    // A delimiter is no digit.
    assert_eq!(parse_hex_range(&line, 0, 5), None);
}

#[test]
fn substring_search_respects_its_bounds() {
    let line = b"abc r-xp def".to_vec();
    let needle = b"r-xp".to_vec();
    assert!(range_contains(&line, 4, 8, &needle));
    assert!(range_contains(&line, 0, 12, &needle));
    assert!(!range_contains(&line, 0, 7, &needle));
    assert!(!range_contains(&line, 5, 12, &needle));
    assert!(range_contains(&line, 3, 3, &b"".to_vec()));
}

#[test]
fn empty_chain_returns_base_with_no_read() {
    let space = AddressSpace::new();
    assert_eq!(space.resolve_chain(0xAAAA, &[]), Some(0xAAAA));
    let handler = MemoryHandler::new();
    // No process is attached and none is touched: no read is issued.
    assert_eq!(
        handler.resolve_ptr_chain(0, 0xAAAA, &[], &BufType::U64),
        Ok(0xAAAA)
    );
}

#[test]
fn chains_compose_across_steps() {
    let mut space = AddressSpace::new();
    space.set_word(0x110, 0x200);
    space.set_word(0x220, 0x300);
    assert_eq!(space.resolve_chain(0x100, &[0x10, 0x20]), Some(0x300));
}

#[test]
fn a_failed_step_fails_the_whole_chain() {
    let mut space = AddressSpace::new();
    space.set_word(0x110, 0x200);
    // The word for step two is missing; step three would succeed but is
    // never reached.
    space.set_word(0x330, 0x400);
    assert_eq!(space.resolve_chain(0x100, &[0x10, 0x20, 0x30]), None);
}

#[test]
fn a_sum_past_the_address_space_fails_the_chain() {
    let space = AddressSpace::new();
    assert_eq!(space.resolve_chain(u64::MAX, &[1]), None);
}

#[test]
fn stored_words_read_back_and_overwrite() {
    let mut space = AddressSpace::new();
    assert_eq!(space.read_word(0x40), None);
    space.set_word(0x40, 7);
    assert_eq!(space.read_word(0x40), Some(7));
    space.set_word(0x40, 9);
    assert_eq!(space.read_word(0x40), Some(9));
}

#[test]
fn chain_steps_accept_only_pointer_sized_integers() {
    assert_eq!(chain_step(&BufValue::U64(0x200)), Some(0x200));
    assert_eq!(chain_step(&BufValue::I64(-1)), Some(u64::MAX));
    assert_eq!(chain_step(&BufValue::I64(0x300)), Some(0x300));
    assert_eq!(chain_step(&BufValue::U32(0x200)), None);
    assert_eq!(chain_step(&BufValue::Double(0)), None);
}

#[test]
fn a_read_from_no_process_fails() {
    let handler = MemoryHandler::new();
    // Process identifier 0 names no readable process.
    assert_eq!(
        handler.read_addr(0, 0x1000, &BufType::U32),
        Err(MemoryError::ReadFailed)
    );
    assert_eq!(
        handler.resolve_ptr_chain(0, 0x1000, &[0x10], &BufType::U64),
        Err(MemoryError::PointerChainResolutionFailed)
    );
}

#[test]
fn a_wrong_representation_fails_the_live_chain() {
    let handler = MemoryHandler::new();
    // Whatever the first read returns, a 16-bit representation stands for
    // no pointer, so the chain fails without consulting later offsets.
    assert_eq!(
        handler.resolve_ptr_chain(0, 0x1000, &[0x10, 0x20], &BufType::U16),
        Err(MemoryError::PointerChainResolutionFailed)
    );
}

#[test]
fn a_first_step_past_the_address_space_fails_the_live_chain() {
    let handler = MemoryHandler::new();
    // The very first sum leaves the address space, so the chain fails
    // before any read is issued.
    assert_eq!(
        handler.resolve_ptr_chain(0, u64::MAX, &[1], &BufType::U64),
        Err(MemoryError::PointerChainResolutionFailed)
    );
}

#[test]
fn writing_a_float_representation_is_rejected() {
    let handler = MemoryHandler::new();
    assert_eq!(
        handler.write_addr(0, 0x1000, BufValue::Float(0x3F80_0000)),
        Err(MemoryError::TypeConversionUnsupported)
    );
}

#[test]
fn writing_a_signed_representation_is_rejected() {
    // A signed value has no 64-bit unsigned representation, so nothing is
    // written and the conversion error comes back.
    let handler = MemoryHandler::new();
    assert_eq!(
        handler.write_addr(0, 0x1000, BufValue::I64(-1)),
        Err(MemoryError::TypeConversionUnsupported)
    );
}

#[test]
fn process_names_match_ignoring_ascii_case() {
    assert!(process_name_matches(
        &b"SuperTux2".to_vec(),
        &b"supertux2".to_vec()
    ));
    assert!(process_name_matches(&b"".to_vec(), &b"".to_vec()));
    assert!(!process_name_matches(
        &b"supertux2".to_vec(),
        &b"supertux".to_vec()
    ));
    assert!(!process_name_matches(&b"abc".to_vec(), &b"abd".to_vec()));
}
