use chip8_vm::cpu::Cpu;
use chip8_vm::memory::Memory;

/// A fresh machine with one opcode written at the program start.
fn machine_with_opcode(op: u16) -> (Cpu, Memory) {
    let cpu = Cpu::new();
    let mut memory = Memory::new();
    memory.write_byte(0x200, (op >> 8) as u8);
    memory.write_byte(0x201, (op & 0xFF) as u8);
    (cpu, memory)
}

fn step(cpu: &mut Cpu, memory: &mut Memory) -> bool {
    cpu.decode_and_execute_with(memory, 0)
}

#[test]
fn add_with_carry_wraps_and_sets_flag() {
    // register 0 = 250, register 1 = 10: 260 wraps to 4, carry flag 1
    let (mut cpu, mut memory) = machine_with_opcode(0x8014);
    cpu.write_register(0, 250);
    cpu.write_register(1, 10);
    assert!(step(&mut cpu, &mut memory));
    assert_eq!(cpu.read_register(0), 4);
    assert_eq!(cpu.read_register(1), 10);
    assert_eq!(cpu.read_register(0xF), 1);
    assert_eq!(cpu.read_pc(), 0x202);
}

#[test]
fn add_without_carry_clears_flag() {
    let (mut cpu, mut memory) = machine_with_opcode(0x8014);
    cpu.write_register(0, 20);
    cpu.write_register(1, 30);
    cpu.write_register(0xF, 1);
    assert!(step(&mut cpu, &mut memory));
    assert_eq!(cpu.read_register(0), 50);
    assert_eq!(cpu.read_register(0xF), 0);
}

#[test]
fn sub_with_borrow_wraps_and_clears_flag() {
    // register 0 = 5, register 1 = 10: 5 - 10 wraps to 251, flag 0
    let (mut cpu, mut memory) = machine_with_opcode(0x8015);
    cpu.write_register(0, 5);
    cpu.write_register(1, 10);
    assert!(step(&mut cpu, &mut memory));
    assert_eq!(cpu.read_register(0), 251);
    assert_eq!(cpu.read_register(1), 10);
    assert_eq!(cpu.read_register(0xF), 0);
}

#[test]
fn sub_without_borrow_sets_flag() {
    let (mut cpu, mut memory) = machine_with_opcode(0x8015);
    cpu.write_register(0, 10);
    cpu.write_register(1, 5);
    assert!(step(&mut cpu, &mut memory));
    assert_eq!(cpu.read_register(0), 5);
    assert_eq!(cpu.read_register(0xF), 1);
}

#[test]
fn sub_reverse_subtracts_other_way() {
    let (mut cpu, mut memory) = machine_with_opcode(0x8017);
    cpu.write_register(0, 3);
    cpu.write_register(1, 10);
    assert!(step(&mut cpu, &mut memory));
    assert_eq!(cpu.read_register(0), 7);
    assert_eq!(cpu.read_register(0xF), 1);
}

#[test]
fn bitwise_and_exact_and_non_target_unchanged() {
    let (mut cpu, mut memory) = machine_with_opcode(0x8012);
    cpu.write_register(0, 0b1100_1010);
    cpu.write_register(1, 0b1010_0110);
    assert!(step(&mut cpu, &mut memory));
    assert_eq!(cpu.read_register(0), 0b1000_0010);
    assert_eq!(cpu.read_register(1), 0b1010_0110);
}

#[test]
fn bitwise_or_exact_and_non_target_unchanged() {
    let (mut cpu, mut memory) = machine_with_opcode(0x8011);
    cpu.write_register(0, 0b1100_1010);
    cpu.write_register(1, 0b1010_0110);
    assert!(step(&mut cpu, &mut memory));
    assert_eq!(cpu.read_register(0), 0b1110_1110);
    assert_eq!(cpu.read_register(1), 0b1010_0110);
}

#[test]
fn bitwise_xor_exact_and_non_target_unchanged() {
    let (mut cpu, mut memory) = machine_with_opcode(0x8013);
    cpu.write_register(0, 0b1100_1010);
    cpu.write_register(1, 0b1010_0110);
    assert!(step(&mut cpu, &mut memory));
    assert_eq!(cpu.read_register(0), 0b0110_1100);
    assert_eq!(cpu.read_register(1), 0b1010_0110);
}

#[test]
fn register_copy_exact_and_source_unchanged() {
    let (mut cpu, mut memory) = machine_with_opcode(0x8010);
    cpu.write_register(0, 1);
    cpu.write_register(1, 99);
    assert!(step(&mut cpu, &mut memory));
    assert_eq!(cpu.read_register(0), 99);
    assert_eq!(cpu.read_register(1), 99);
}

#[test]
fn shift_right_keeps_dropped_bit_in_flag() {
    let (mut cpu, mut memory) = machine_with_opcode(0x8016);
    cpu.write_register(0, 5);
    assert!(step(&mut cpu, &mut memory));
    assert_eq!(cpu.read_register(0), 2);
    assert_eq!(cpu.read_register(0xF), 1);
}

#[test]
fn shift_left_keeps_dropped_bit_in_flag() {
    let (mut cpu, mut memory) = machine_with_opcode(0x801E);
    cpu.write_register(0, 0x81);
    assert!(step(&mut cpu, &mut memory));
    assert_eq!(cpu.read_register(0), 0x02);
    assert_eq!(cpu.read_register(0xF), 1);
}

#[test]
fn load_immediate_sets_register() {
    let (mut cpu, mut memory) = machine_with_opcode(0x6A12);
    assert!(step(&mut cpu, &mut memory));
    assert_eq!(cpu.read_register(0xA), 0x12);
    assert_eq!(cpu.read_pc(), 0x202);
}

#[test]
fn add_immediate_wraps_without_flag_change() {
    let (mut cpu, mut memory) = machine_with_opcode(0x7001);
    cpu.write_register(0, 255);
    cpu.write_register(0xF, 7);
    assert!(step(&mut cpu, &mut memory));
    assert_eq!(cpu.read_register(0), 0);
    assert_eq!(cpu.read_register(0xF), 7);
}

#[test]
fn jump_sets_pc() {
    let (mut cpu, mut memory) = machine_with_opcode(0x1ABC);
    assert!(step(&mut cpu, &mut memory));
    assert_eq!(cpu.read_pc(), 0xABC);
}

#[test]
fn jump_with_offset_adds_register_zero() {
    let (mut cpu, mut memory) = machine_with_opcode(0xB100);
    cpu.write_register(0, 5);
    assert!(step(&mut cpu, &mut memory));
    assert_eq!(cpu.read_pc(), 0x105);
}

#[test]
fn call_then_return_round_trip() {
    // call 0x300, and a return instruction at 0x300
    let (mut cpu, mut memory) = machine_with_opcode(0x2300);
    memory.write_byte(0x300, 0x00);
    memory.write_byte(0x301, 0xEE);
    assert!(step(&mut cpu, &mut memory));
    assert_eq!(cpu.read_pc(), 0x300);
    assert!(step(&mut cpu, &mut memory));
    assert_eq!(cpu.read_pc(), 0x202);
}

#[test]
fn return_with_empty_stack_is_benign_noop() {
    let (mut cpu, mut memory) = machine_with_opcode(0x00EE);
    assert!(step(&mut cpu, &mut memory));
    assert_eq!(cpu.read_pc(), 0x202);
}

#[test]
fn skip_if_equal_immediate_taken_and_not_taken() {
    let (mut cpu, mut memory) = machine_with_opcode(0x3055);
    cpu.write_register(0, 0x55);
    assert!(step(&mut cpu, &mut memory));
    assert_eq!(cpu.read_pc(), 0x204);

    let (mut cpu2, mut memory2) = machine_with_opcode(0x3055);
    cpu2.write_register(0, 0x54);
    assert!(step(&mut cpu2, &mut memory2));
    assert_eq!(cpu2.read_pc(), 0x202);
}

#[test]
fn skip_if_not_equal_immediate() {
    let (mut cpu, mut memory) = machine_with_opcode(0x4055);
    cpu.write_register(0, 0x54);
    assert!(step(&mut cpu, &mut memory));
    assert_eq!(cpu.read_pc(), 0x204);
}

#[test]
fn skip_if_registers_equal_and_not_equal() {
    let (mut cpu, mut memory) = machine_with_opcode(0x5010);
    cpu.write_register(0, 9);
    cpu.write_register(1, 9);
    assert!(step(&mut cpu, &mut memory));
    assert_eq!(cpu.read_pc(), 0x204);

    let (mut cpu2, mut memory2) = machine_with_opcode(0x9010);
    cpu2.write_register(0, 9);
    cpu2.write_register(1, 8);
    assert!(step(&mut cpu2, &mut memory2));
    assert_eq!(cpu2.read_pc(), 0x204);
}

#[test]
fn set_index_and_add_to_index() {
    let (mut cpu, mut memory) = machine_with_opcode(0xA123);
    assert!(step(&mut cpu, &mut memory));
    assert_eq!(cpu.read_i_register(), 0x123);

    memory.write_byte(0x202, 0xF0);
    memory.write_byte(0x203, 0x1E);
    cpu.write_register(0, 5);
    assert!(step(&mut cpu, &mut memory));
    assert_eq!(cpu.read_i_register(), 0x128);
}

#[test]
fn add_to_index_wraps_at_16_bits() {
    let (mut cpu, mut memory) = machine_with_opcode(0xF01E);
    cpu.write_i_register(0xFFFF);
    cpu.write_register(0, 2);
    assert!(step(&mut cpu, &mut memory));
    assert_eq!(cpu.read_i_register(), 1);
}

#[test]
fn font_address_points_at_glyph() {
    // register 3 holds 0x17: only the low digit 7 is used
    let (mut cpu, mut memory) = machine_with_opcode(0xF329);
    cpu.write_register(3, 0x17);
    assert!(step(&mut cpu, &mut memory));
    assert_eq!(cpu.read_i_register(), 35);
    // the five bytes there are digit 7's glyph
    assert_eq!(memory.read_byte(35), 0xF0);
    assert_eq!(memory.read_byte(36), 0x10);
    assert_eq!(memory.read_byte(37), 0x20);
    assert_eq!(memory.read_byte(38), 0x40);
    assert_eq!(memory.read_byte(39), 0x40);
}

#[test]
fn store_bcd_writes_decimal_digits() {
    let (mut cpu, mut memory) = machine_with_opcode(0xF033);
    cpu.write_register(0, 123);
    cpu.write_i_register(0x300);
    assert!(step(&mut cpu, &mut memory));
    assert_eq!(memory.read_byte(0x300), 1);
    assert_eq!(memory.read_byte(0x301), 2);
    assert_eq!(memory.read_byte(0x302), 3);
}

#[test]
fn store_then_load_registers_round_trip() {
    let (mut cpu, mut memory) = machine_with_opcode(0xF355);
    cpu.write_register(0, 10);
    cpu.write_register(1, 20);
    cpu.write_register(2, 30);
    cpu.write_register(3, 40);
    cpu.write_register(4, 50);
    cpu.write_i_register(0x300);
    assert!(step(&mut cpu, &mut memory));
    assert_eq!(memory.read_byte(0x300), 10);
    assert_eq!(memory.read_byte(0x301), 20);
    assert_eq!(memory.read_byte(0x302), 30);
    assert_eq!(memory.read_byte(0x303), 40);
    // register 4 is past x = 3 and is not stored
    assert_eq!(memory.read_byte(0x304), 0);

    // load them back into a fresh machine
    let mut cpu2 = Cpu::new();
    memory.write_byte(0x200, 0xF3);
    memory.write_byte(0x201, 0x65);
    cpu2.write_i_register(0x300);
    assert!(step(&mut cpu2, &mut memory));
    assert_eq!(cpu2.read_register(0), 10);
    assert_eq!(cpu2.read_register(1), 20);
    assert_eq!(cpu2.read_register(2), 30);
    assert_eq!(cpu2.read_register(3), 40);
    assert_eq!(cpu2.read_register(4), 0);
}

#[test]
fn random_masks_supplied_byte() {
    let (mut cpu, mut memory) = machine_with_opcode(0xC00F);
    cpu.write_register(0, 0xFF);
    assert!(cpu.decode_and_execute_with(&mut memory, 0xAB));
    assert_eq!(cpu.read_register(0), 0x0B);
}

#[test]
fn random_through_real_generator_is_masked() {
    let (mut cpu, mut memory) = machine_with_opcode(0xC00F);
    cpu.write_register(0, 0xFF);
    assert!(cpu.decode_and_execute(&mut memory));
    assert!(cpu.read_register(0) <= 0x0F);
    assert_eq!(cpu.read_pc(), 0x202);
}

#[test]
fn draw_lights_pixels_and_redraw_erases() {
    // draw the one-row sprite 0xFF at column 2, row 3
    let (mut cpu, mut memory) = machine_with_opcode(0xD011);
    memory.write_byte(0x300, 0xFF);
    cpu.write_i_register(0x300);
    cpu.write_register(0, 2);
    cpu.write_register(1, 3);
    assert!(step(&mut cpu, &mut memory));
    assert_eq!(cpu.read_register(0xF), 0);
    for col in 2..10 {
        assert_eq!(cpu.pixel(3, col), 1);
    }
    assert_eq!(cpu.pixel(3, 1), 0);
    assert_eq!(cpu.pixel(3, 10), 0);
    assert_eq!(cpu.pixel(2, 2), 0);

    // the second identical draw collides everywhere and restores the display
    cpu.write_pc(0x200);
    assert!(step(&mut cpu, &mut memory));
    assert_eq!(cpu.read_register(0xF), 1);
    for col in 0..64 {
        for row in 0..32 {
            assert_eq!(cpu.pixel(row, col), 0);
        }
    }
}

#[test]
fn draw_wraps_on_both_axes() {
    // two-row sprite at column 60, row 31: wraps right and to the top
    let (mut cpu, mut memory) = machine_with_opcode(0xD012);
    memory.write_byte(0x300, 0xFF);
    memory.write_byte(0x301, 0xFF);
    cpu.write_i_register(0x300);
    cpu.write_register(0, 60);
    cpu.write_register(1, 31);
    assert!(step(&mut cpu, &mut memory));
    assert_eq!(cpu.pixel(31, 60), 1);
    assert_eq!(cpu.pixel(31, 63), 1);
    assert_eq!(cpu.pixel(31, 0), 1);
    assert_eq!(cpu.pixel(31, 3), 1);
    assert_eq!(cpu.pixel(0, 60), 1);
    assert_eq!(cpu.pixel(0, 3), 1);
    assert_eq!(cpu.pixel(31, 4), 0);
    assert_eq!(cpu.pixel(1, 60), 0);
}

#[test]
fn clear_display_unlights_everything() {
    let (mut cpu, mut memory) = machine_with_opcode(0xD011);
    memory.write_byte(0x300, 0xFF);
    cpu.write_i_register(0x300);
    assert!(step(&mut cpu, &mut memory));
    assert_eq!(cpu.pixel(0, 0), 1);
    memory.write_byte(0x202, 0x00);
    memory.write_byte(0x203, 0xE0);
    assert!(step(&mut cpu, &mut memory));
    for col in 0..64 {
        assert_eq!(cpu.pixel(0, col), 0);
    }
    assert_eq!(cpu.read_pc(), 0x204);
}

#[test]
fn skip_if_key_pressed_uses_register_value_mod_16() {
    let (mut cpu, mut memory) = machine_with_opcode(0xE09E);
    cpu.write_register(0, 0x15);
    cpu.set_key(5, true);
    assert!(step(&mut cpu, &mut memory));
    assert_eq!(cpu.read_pc(), 0x204);

    let (mut cpu2, mut memory2) = machine_with_opcode(0xE09E);
    cpu2.write_register(0, 5);
    assert!(step(&mut cpu2, &mut memory2));
    assert_eq!(cpu2.read_pc(), 0x202);
}

#[test]
fn skip_if_key_not_pressed() {
    let (mut cpu, mut memory) = machine_with_opcode(0xE0A1);
    cpu.write_register(0, 5);
    assert!(step(&mut cpu, &mut memory));
    assert_eq!(cpu.read_pc(), 0x204);

    let (mut cpu2, mut memory2) = machine_with_opcode(0xE0A1);
    cpu2.write_register(0, 5);
    cpu2.set_key(5, true);
    assert!(step(&mut cpu2, &mut memory2));
    assert_eq!(cpu2.read_pc(), 0x202);
}

#[test]
fn wait_for_key_blocks_until_key_then_stores_lowest() {
    let (mut cpu, mut memory) = machine_with_opcode(0xF20A);
    cpu.write_register(2, 0x33);
    // no key pressed: repeated steps change nothing
    assert!(step(&mut cpu, &mut memory));
    assert_eq!(cpu.read_pc(), 0x200);
    assert_eq!(cpu.read_register(2), 0x33);
    assert!(step(&mut cpu, &mut memory));
    assert_eq!(cpu.read_pc(), 0x200);
    assert_eq!(cpu.read_register(2), 0x33);
    // press keys 7 and 3: the next step stores the lowest one
    cpu.set_key(7, true);
    cpu.set_key(3, true);
    assert!(step(&mut cpu, &mut memory));
    assert_eq!(cpu.read_pc(), 0x202);
    assert_eq!(cpu.read_register(2), 3);
}

#[test]
fn timers_set_and_read_back() {
    let (mut cpu, mut memory) = machine_with_opcode(0xF315);
    cpu.write_register(3, 42);
    assert!(step(&mut cpu, &mut memory));
    assert_eq!(cpu.read_delay_timer(), 42);

    memory.write_byte(0x202, 0xF0);
    memory.write_byte(0x203, 0x18);
    cpu.write_register(0, 7);
    assert!(step(&mut cpu, &mut memory));
    assert_eq!(cpu.read_sound_timer(), 7);

    memory.write_byte(0x204, 0xF5);
    memory.write_byte(0x205, 0x07);
    cpu.write_delay_timer(9);
    assert!(step(&mut cpu, &mut memory));
    assert_eq!(cpu.read_register(5), 9);
}

#[test]
fn out_of_bounds_fetch_halts_without_changes() {
    let mut cpu = Cpu::new();
    let mut memory = Memory::new();
    cpu.write_register(0, 77);
    cpu.write_pc(4095);
    assert!(!step(&mut cpu, &mut memory));
    assert_eq!(cpu.read_pc(), 4095);
    assert_eq!(cpu.read_register(0), 77);
    assert_eq!(cpu.read_register(0xF), 0);
}

#[test]
fn fetch_at_last_valid_address_still_executes() {
    let mut cpu = Cpu::new();
    let mut memory = Memory::new();
    // 4094 is the last address whose full word is addressable
    memory.write_byte(4094, 0x00);
    memory.write_byte(4095, 0xEE);
    cpu.write_pc(4094);
    assert!(step(&mut cpu, &mut memory));
    assert_eq!(cpu.read_pc(), 4096);
}

#[test]
fn draw_past_end_of_memory_is_fatal() {
    let (mut cpu, mut memory) = machine_with_opcode(0xD012);
    cpu.write_i_register(4095);
    assert!(!step(&mut cpu, &mut memory));
    assert_eq!(cpu.read_pc(), 0x200);
    assert_eq!(cpu.read_register(0xF), 0);
}

#[test]
fn store_bcd_past_end_of_memory_is_fatal() {
    let (mut cpu, mut memory) = machine_with_opcode(0xF033);
    cpu.write_i_register(4094);
    assert!(!step(&mut cpu, &mut memory));
    assert_eq!(cpu.read_pc(), 0x200);
}

#[test]
fn store_registers_past_end_of_memory_is_fatal() {
    let (mut cpu, mut memory) = machine_with_opcode(0xF655);
    cpu.write_i_register(4090);
    assert!(!step(&mut cpu, &mut memory));
    assert_eq!(cpu.read_pc(), 0x200);
    assert_eq!(memory.read_byte(4090), 0);
}

#[test]
fn unknown_opcodes_advance_pc_by_two() {
    for op in [0x0123u16, 0x8008, 0xE0FF, 0xF0FF] {
        let (mut cpu, mut memory) = machine_with_opcode(op);
        assert!(step(&mut cpu, &mut memory));
        assert_eq!(cpu.read_pc(), 0x202);
    }
}
