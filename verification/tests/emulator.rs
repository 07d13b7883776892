use sma16::Instruction;
use sma16::Memory;
use sma16::Sma16;

#[test]
fn scenario_add_push_halt() {
    let mut core = Sma16::with_blank_memory();
    core.load_memory(0, &[0xB005, 0xE000, 0x0000]);
    core.run();
    assert_eq!(core.accumulator, 5);
    assert_eq!(core.stack, vec![5u16]);
    assert!(core.flag_halt);
}

#[test]
fn address_wraparound_write_and_read() {
    let mut core = Sma16::with_blank_memory();
    core.write_memory(4096 + 5, 0x1234);
    assert_eq!(core.read_memory(5), 0x1234);
    assert_eq!(core.read_memory(4096 + 5), 0x1234);
    core.write_memory(7, 0x4321);
    assert_eq!(core.read_memory(4096 + 7), 0x4321);
}

#[test]
fn jump_sets_pc_without_increment() {
    let mut core = Sma16::with_blank_memory();
    core.load_memory(0, &[0x2005]);
    core.step();
    assert_eq!(core.program_counter, 5);
    assert_eq!(core.instruction_register, 0x2005);
}

#[test]
fn jumpz_with_zero_clear_acts_as_noop() {
    let mut core = Sma16::with_blank_memory();
    core.load_memory(0, &[0x3005]);
    core.step();
    assert_eq!(core.program_counter, 1);
    assert!(!core.flag_zero);
}

#[test]
fn jumpz_with_zero_set_jumps() {
    let mut core = Sma16::with_blank_memory();
    // Add 0 leaves the accumulator's low 12 bits zero, setting the zero flag.
    core.load_memory(0, &[0xB000, 0x3005]);
    core.step();
    assert!(core.flag_zero);
    core.step();
    assert_eq!(core.program_counter, 5);
}

#[test]
fn add_is_modular_and_drives_zero_flag() {
    let mut core = Sma16::with_blank_memory();
    core.load_memory(0, &[0xB005, 0xBFFF]);
    core.step();
    assert_eq!(core.accumulator, 5);
    assert!(!core.flag_zero);
    core.step();
    // 5 + 0xFFF = 0x1004: kept in full as a 16-bit value, zero flag from the
    // low 12 bits only.
    assert_eq!(core.accumulator, 0x1004);
    assert!(!core.flag_zero);
}

#[test]
fn add_sets_zero_flag_on_zero_data() {
    let mut core = Sma16::with_blank_memory();
    core.load_memory(0, &[0xB000]);
    core.step();
    assert_eq!(core.accumulator, 0);
    assert!(core.flag_zero);
}

#[test]
fn stack_is_lifo() {
    let mut core = Sma16::with_blank_memory();
    // acc = 1, push, acc = 1 + 1 = 2, push, pop, pop.
    core.load_memory(0, &[0xB001, 0xE000, 0xB001, 0xE000, 0xD000, 0xD000, 0x0000]);
    core.step();
    core.step();
    core.step();
    core.step();
    assert_eq!(core.stack, vec![1u16, 2u16]);
    core.step();
    assert_eq!(core.accumulator, 2);
    core.step();
    assert_eq!(core.accumulator, 1);
    assert!(core.stack.is_empty());
}

#[test]
fn pop_on_empty_stack_yields_zero() {
    let mut core = Sma16::with_blank_memory();
    core.load_memory(0, &[0xB005, 0xD000]);
    core.step();
    assert_eq!(core.accumulator, 5);
    core.step();
    assert_eq!(core.accumulator, 0);
    assert!(core.stack.is_empty());
}

#[test]
fn store_preserves_target_opcode_nibble() {
    let mut core = Sma16::with_blank_memory();
    core.write_memory(0x100, 0xA123);
    core.load_memory(0, &[0xB005, 0x5100]);
    core.step();
    core.step();
    assert_eq!(core.read_memory(0x100), 0xA005);
}

#[test]
fn store_full_overwrites_whole_word() {
    let mut core = Sma16::with_blank_memory();
    core.write_memory(0x100, 0xA123);
    core.write_memory(0x200, 0x1234);
    // Load pulls the full 16-bit word, StoreFull writes it whole.
    core.load_memory(0, &[0x4200, 0xA100]);
    core.step();
    assert_eq!(core.accumulator, 0x1234);
    core.step();
    assert_eq!(core.read_memory(0x100), 0x1234);
}

#[test]
fn unknown_opcode_dispatches_fault() {
    let mut core = Sma16::with_blank_memory();
    core.load_memory(0, &[0x1000]);
    core.step();
    assert_eq!(core.read_memory(0x009), 1);
    assert_eq!(core.read_memory(0x008), 0x0FF1);
    assert_eq!(core.program_counter, 1);
}

#[test]
fn unmapped_nibble_0xc_also_faults() {
    let mut core = Sma16::with_blank_memory();
    core.load_memory(5, &[0xC000]);
    core.program_counter = 5;
    core.step();
    assert_eq!(core.read_memory(0x009), 6);
    assert_eq!(core.read_memory(0x008), 0x0FFC);
    assert_eq!(core.program_counter, 1);
}

#[test]
fn halt_still_auto_increments() {
    let mut core = Sma16::with_blank_memory();
    core.load_memory(3, &[0x0000]);
    core.program_counter = 3;
    core.step();
    assert!(core.flag_halt);
    assert_eq!(core.program_counter, 4);
}

#[test]
fn run_stops_at_halt_with_no_further_steps() {
    let mut core = Sma16::with_blank_memory();
    // Halt sits at 2; the word after it would fault if ever executed.
    core.load_memory(0, &[0xB001, 0xE000, 0x0000, 0x1000]);
    core.run();
    assert!(core.flag_halt);
    assert_eq!(core.program_counter, 3);
    assert_eq!(core.read_memory(0x008), 0);
}

#[test]
fn shift_left_data_mode_replaces_whole_register() {
    let mut core = Sma16::with_blank_memory();
    // acc = 3; operand 0x005: low bit set picks data mode, amount 2.
    core.load_memory(0, &[0xB003, 0x6005]);
    core.step();
    core.step();
    assert_eq!(core.accumulator, 12);
}

#[test]
fn shift_left_full_mode_shifts_entire_register() {
    let mut core = Sma16::with_blank_memory();
    core.write_memory(0x200, 0x1234);
    // Load full word; operand 0x004: low bit clear, full 16-bit shift by 2.
    core.load_memory(0, &[0x4200, 0x6004]);
    core.step();
    core.step();
    assert_eq!(core.accumulator, 0x48D0);
}

#[test]
fn shift_by_sixteen_or_more_clears_register() {
    let mut core = Sma16::with_blank_memory();
    // amount 16 in full mode: operand 0x020.
    core.load_memory(0, &[0xB005, 0x6020]);
    core.step();
    core.step();
    assert_eq!(core.accumulator, 0);
}

#[test]
fn shift_right_both_modes() {
    let mut core = Sma16::with_blank_memory();
    core.write_memory(0x200, 0x8421);
    // Load 0x8421; full-mode right shift by 4; then data-mode right shift by 1.
    core.load_memory(0, &[0x4200, 0x7008, 0x7003]);
    core.step();
    core.step();
    assert_eq!(core.accumulator, 0x0842);
    core.step();
    // data mode: low 12 bits 0x842 >> 1, whole-register replace.
    assert_eq!(core.accumulator, 0x0421);
}

#[test]
fn xor_and_act_on_data_and_replace_register() {
    let mut core = Sma16::with_blank_memory();
    core.write_memory(0x200, 0xFABC);
    core.load_memory(0, &[0x4200, 0x8123]);
    core.step();
    core.step();
    // data(0xFABC) ^ 0x123 = 0xABC ^ 0x123: the opcode nibble is gone.
    assert_eq!(core.accumulator, 0x0B9F);

    let mut core2 = Sma16::with_blank_memory();
    core2.write_memory(0x200, 0xFABC);
    core2.load_memory(0, &[0x4200, 0x90F0]);
    core2.step();
    core2.step();
    assert_eq!(core2.accumulator, 0x00B0);
}

#[test]
fn load_reads_full_word() {
    let mut core = Sma16::with_blank_memory();
    core.write_memory(0x123, 0xBEEF);
    core.load_memory(0, &[0x4123]);
    core.step();
    assert_eq!(core.accumulator, 0xBEEF);
    assert_eq!(core.program_counter, 1);
}

#[test]
fn reinitialize_keeps_memory_and_output() {
    let mut core = Sma16::with_blank_memory();
    core.write_memory(0x00A, 0x0041);
    core.write_memory(0x300, 0x7777);
    core.load_memory(0, &[0xB005, 0xE000, 0x0000]);
    core.run();
    core.reinitialize();
    assert_eq!(core.program_counter, 0);
    assert_eq!(core.accumulator, 0);
    assert!(core.stack.is_empty());
    assert!(!core.flag_halt);
    assert!(!core.flag_zero);
    assert_eq!(core.read_memory(0x300), 0x7777);
    assert_eq!(core.read_memory(0x00D), 0xFFFF);
    assert_eq!(core.output, vec![0x41u8]);
}

#[test]
fn stack_size_register_holds_sentinel() {
    let core = Sma16::with_blank_memory();
    assert_eq!(core.read_memory(0x00D), 0xFFFF);
}

#[test]
fn with_memory_takes_caller_image() {
    let mut words = vec![0u16; 4096];
    words[0x40] = 0xCAFE;
    let mut core = Sma16::with_memory(Memory::from_words(words));
    assert_eq!(core.read_memory(0x40), 0xCAFE);
    assert_eq!(core.read_memory(0x00D), 0xFFFF);
    core.load_memory(0, &[0x4040, 0x0000]);
    core.run();
    assert_eq!(core.accumulator, 0xCAFE);
}

#[test]
fn load_memory_wraps_around_the_address_space() {
    let mut core = Sma16::with_blank_memory();
    core.load_memory(4095, &[0x1111, 0x2222]);
    assert_eq!(core.read_memory(4095), 0x1111);
    assert_eq!(core.read_memory(0), 0x2222);
}

#[test]
fn fault_method_dispatches_protocol() {
    let mut core = Sma16::with_blank_memory();
    core.program_counter = 0x42;
    core.fault(0x0123);
    assert_eq!(core.read_memory(0x009), 0x43);
    assert_eq!(core.read_memory(0x008), 0x0123);
    assert_eq!(core.program_counter, 1);
}

#[test]
fn countdown_loop_halts_through_jumpz() {
    let mut core = Sma16::with_blank_memory();
    // acc = 3; adding 0xFFF decrements the 12-bit data field by one per
    // round; JumpZ leaves the loop once the data field reaches zero.
    core.load_memory(0, &[0xB003, 0xBFFF, 0x3004, 0x2001, 0x0000]);
    core.run();
    assert!(core.flag_halt);
    assert_eq!(core.accumulator, 0x1000);
    assert!(core.flag_zero);
    assert_eq!(core.program_counter, 5);
}

#[test]
fn decoder_maps_every_nibble() {
    assert_eq!(Instruction::decode(0x0), Instruction::Halt);
    assert_eq!(Instruction::decode(0x2), Instruction::Jump);
    assert_eq!(Instruction::decode(0x3), Instruction::JumpZ);
    assert_eq!(Instruction::decode(0x4), Instruction::Load);
    assert_eq!(Instruction::decode(0x5), Instruction::Store);
    assert_eq!(Instruction::decode(0x6), Instruction::LShft);
    assert_eq!(Instruction::decode(0x7), Instruction::RShft);
    assert_eq!(Instruction::decode(0x8), Instruction::Xor);
    assert_eq!(Instruction::decode(0x9), Instruction::And);
    assert_eq!(Instruction::decode(0xA), Instruction::SFull);
    assert_eq!(Instruction::decode(0xB), Instruction::Add);
    assert_eq!(Instruction::decode(0xD), Instruction::Pop);
    assert_eq!(Instruction::decode(0xE), Instruction::Push);
    assert_eq!(Instruction::decode(0xF), Instruction::NoOp);
    assert_eq!(Instruction::decode(0x1), Instruction::Unknown(0x1));
    assert_eq!(Instruction::decode(0xC), Instruction::Unknown(0xC));
}
