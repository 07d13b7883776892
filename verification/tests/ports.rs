use sma16::Sma16;
use sma16::small_to_chars;

#[test]
fn scenario_ascii_port_emits_low_byte() {
    let mut core = Sma16::with_blank_memory();
    core.write_memory(0x00A, 0x0041);
    assert_eq!(core.output, vec![0x41u8]);
}

#[test]
fn ascii_port_masks_value_to_low_eight_bits() {
    let mut core = Sma16::with_blank_memory();
    core.write_memory(0x00A, 0x1242);
    assert_eq!(core.output, vec![0x42u8]);
}

#[test]
fn scenario_packed_port_emits_low_code_first() {
    let mut core = Sma16::with_blank_memory();
    // low 6 bits: 0 ('A'); high 6 bits: 62 (space).
    core.write_memory(0x00B, 62 << 6);
    assert_eq!(core.output, vec![b'A', b' ']);
}

#[test]
fn packed_port_skips_code_63() {
    let mut core = Sma16::with_blank_memory();
    // low 6 bits: 63 (nothing); high 6 bits: 1 ('B').
    core.write_memory(0x00B, (1 << 6) | 63);
    assert_eq!(core.output, vec![b'B']);
}

#[test]
fn packed_port_can_emit_nothing() {
    let mut core = Sma16::with_blank_memory();
    core.write_memory(0x00B, (63 << 6) | 63);
    assert_eq!(core.output, Vec::<u8>::new());
}

#[test]
fn packed_character_table_edges() {
    assert_eq!(small_to_chars(0), [Some(b'A'), Some(b'A')]);
    assert_eq!(small_to_chars(25), [Some(b'Z'), Some(b'A')]);
    assert_eq!(small_to_chars(26), [Some(b'a'), Some(b'A')]);
    assert_eq!(small_to_chars(51), [Some(b'z'), Some(b'A')]);
    assert_eq!(small_to_chars(52), [Some(b'0'), Some(b'A')]);
    assert_eq!(small_to_chars(61), [Some(b'9'), Some(b'A')]);
    assert_eq!(small_to_chars(62), [Some(b' '), Some(b'A')]);
    assert_eq!(small_to_chars(63), [None, Some(b'A')]);
    assert_eq!(small_to_chars((27 << 6) | 2), [Some(b'C'), Some(b'b')]);
}

#[test]
fn port_write_via_store_emits_merged_value() {
    let mut core = Sma16::with_blank_memory();
    // acc = 0x41; Store to the ASCII port merges into the zero word there
    // and the write emits the merged value's low byte.
    core.load_memory(0, &[0xB041, 0x500A]);
    core.step();
    core.step();
    assert_eq!(core.output, vec![0x41u8]);
    assert_eq!(core.read_memory(0x00A), 0x0041);
}

#[test]
fn aliased_port_address_still_emits() {
    let mut core = Sma16::with_blank_memory();
    core.write_memory(4096 + 0x00A, 0x0041);
    assert_eq!(core.output, vec![0x41u8]);
    assert_eq!(core.read_memory(0x00A), 0x0041);
}

#[test]
fn plain_write_emits_nothing() {
    let mut core = Sma16::with_blank_memory();
    core.write_memory(0x123, 0x0041);
    assert!(core.output.is_empty());
}

#[test]
fn output_accumulates_in_emission_order() {
    let mut core = Sma16::with_blank_memory();
    core.write_memory(0x00A, b'H' as u16);
    core.write_memory(0x00A, b'i' as u16);
    core.write_memory(0x00B, (62 << 6) | 7);
    assert_eq!(core.output, vec![b'H', b'i', b'H', b' ']);
}
