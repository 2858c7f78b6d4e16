use chip8_vm::instr::{decode, Instruction};

#[test]
fn decode_clear_and_return() {
    assert_eq!(decode(0x00E0), Instruction::ClearDisplay);
    assert_eq!(decode(0x00EE), Instruction::Return);
}

#[test]
fn decode_jumps_and_calls() {
    assert_eq!(decode(0x1ABC), Instruction::Jump(0xABC));
    assert_eq!(decode(0x2123), Instruction::Call(0x123));
    assert_eq!(decode(0xB456), Instruction::JumpOffset(0x456));
}

#[test]
fn decode_skips() {
    assert_eq!(decode(0x3A55), Instruction::SkipEqImm(0xA, 0x55));
    assert_eq!(decode(0x4B66), Instruction::SkipNeImm(0xB, 0x66));
    assert_eq!(decode(0x5AB0), Instruction::SkipEqReg(0xA, 0xB));
    assert_eq!(decode(0x9CD0), Instruction::SkipNeReg(0xC, 0xD));
}

#[test]
fn decode_immediates() {
    assert_eq!(decode(0x6A12), Instruction::LoadImm(0xA, 0x12));
    assert_eq!(decode(0x7B34), Instruction::AddImm(0xB, 0x34));
}

#[test]
fn decode_register_ops() {
    assert_eq!(decode(0x8AB0), Instruction::RegCopy(0xA, 0xB));
    assert_eq!(decode(0x8AB1), Instruction::RegOr(0xA, 0xB));
    assert_eq!(decode(0x8AB2), Instruction::RegAnd(0xA, 0xB));
    assert_eq!(decode(0x8AB3), Instruction::RegXor(0xA, 0xB));
    assert_eq!(decode(0x8AB4), Instruction::RegAdd(0xA, 0xB));
    assert_eq!(decode(0x8AB5), Instruction::RegSub(0xA, 0xB));
    assert_eq!(decode(0x8AB6), Instruction::RegShr(0xA));
    assert_eq!(decode(0x8AB7), Instruction::RegSubRev(0xA, 0xB));
    assert_eq!(decode(0x8ABE), Instruction::RegShl(0xA));
}

#[test]
fn decode_index_random_draw() {
    assert_eq!(decode(0xA123), Instruction::SetIndex(0x123));
    assert_eq!(decode(0xCA0F), Instruction::Random(0xA, 0x0F));
    assert_eq!(decode(0xDAB5), Instruction::Draw(0xA, 0xB, 5));
}

#[test]
fn decode_key_instructions() {
    assert_eq!(decode(0xEA9E), Instruction::SkipKeyPressed(0xA));
    assert_eq!(decode(0xEAA1), Instruction::SkipKeyNotPressed(0xA));
    assert_eq!(decode(0xF30A), Instruction::WaitKey(3));
}

#[test]
fn decode_timer_and_memory_instructions() {
    assert_eq!(decode(0xF107), Instruction::ReadDelay(1));
    assert_eq!(decode(0xF215), Instruction::SetDelay(2));
    assert_eq!(decode(0xF318), Instruction::SetSound(3));
    assert_eq!(decode(0xF41E), Instruction::AddIndex(4));
    assert_eq!(decode(0xF529), Instruction::FontAddress(5));
    assert_eq!(decode(0xF633), Instruction::StoreBcd(6));
    assert_eq!(decode(0xF755), Instruction::StoreRegs(7));
    assert_eq!(decode(0xF865), Instruction::LoadRegs(8));
}

#[test]
fn decode_unknown_patterns() {
    assert_eq!(decode(0x0123), Instruction::Unknown);
    assert_eq!(decode(0x00FF), Instruction::Unknown);
    assert_eq!(decode(0x8AB8), Instruction::Unknown);
    assert_eq!(decode(0xEAFF), Instruction::Unknown);
    assert_eq!(decode(0xFAFF), Instruction::Unknown);
}
