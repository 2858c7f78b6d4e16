use chip8_vm::memory::Memory;

#[test]
fn new_memory_has_len_4096() {
    let m = Memory::new();
    assert_eq!(m.len(), 4096);
}

#[test]
fn new_memory_installs_font_at_zero() {
    let m = Memory::new();
    // glyph for digit 0
    assert_eq!(m.read_byte(0), 0xF0);
    assert_eq!(m.read_byte(1), 0x90);
    assert_eq!(m.read_byte(2), 0x90);
    assert_eq!(m.read_byte(3), 0x90);
    assert_eq!(m.read_byte(4), 0xF0);
    // glyph for digit 1 at address 5
    assert_eq!(m.read_byte(5), 0x20);
    assert_eq!(m.read_byte(6), 0x60);
    assert_eq!(m.read_byte(7), 0x20);
    assert_eq!(m.read_byte(8), 0x20);
    assert_eq!(m.read_byte(9), 0x70);
    // last font byte, then zeroes
    assert_eq!(m.read_byte(79), 0x80);
    assert_eq!(m.read_byte(80), 0);
    assert_eq!(m.read_byte(0x200), 0);
    assert_eq!(m.read_byte(4095), 0);
}

#[test]
fn write_byte_then_read_byte() {
    let mut m = Memory::new();
    m.write_byte(0x300, 0xAB);
    assert_eq!(m.read_byte(0x300), 0xAB);
    assert_eq!(m.read_byte(0x2FF), 0);
    assert_eq!(m.read_byte(0x301), 0);
}

#[test]
fn fetch_opcode_assembles_big_endian() {
    let mut m = Memory::new();
    m.write_byte(0x200, 0x12);
    m.write_byte(0x201, 0x34);
    assert_eq!(m.fetch_opcode(0x200), 0x1234);
    m.write_byte(0x202, 0xFF);
    m.write_byte(0x203, 0x01);
    assert_eq!(m.fetch_opcode(0x202), 0xFF01);
}

#[test]
fn load_program_copies_bytes() {
    let mut m = Memory::new();
    let program: Vec<u8> = vec![0xDE, 0xAD, 0xBE, 0xEF];
    m.load_program(&program, 0x200);
    assert_eq!(m.read_byte(0x200), 0xDE);
    assert_eq!(m.read_byte(0x201), 0xAD);
    assert_eq!(m.read_byte(0x202), 0xBE);
    assert_eq!(m.read_byte(0x203), 0xEF);
    assert_eq!(m.read_byte(0x1FF), 0);
    assert_eq!(m.read_byte(0x204), 0);
}

#[test]
fn reset_zeroes_and_reinstalls_font() {
    let mut m = Memory::new();
    m.write_byte(0x300, 0x77);
    m.write_byte(0, 0x00);
    m.reset();
    assert_eq!(m.read_byte(0x300), 0);
    assert_eq!(m.read_byte(0), 0xF0);
    assert_eq!(m.read_byte(79), 0x80);
}
