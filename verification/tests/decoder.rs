use chip8::cpu::CPU;
use chip8::decode::{classify, decode, join, Opcode, Operands};

#[test]
fn decode_splits_every_field() {
    let fields = decode(0xD12F);
    assert_eq!(fields, Operands { op: 0xD, x: 0x1, y: 0x2, n: 0xF, nn: 0x2F, nnn: 0x12F });
}

#[test]
fn decode_is_total_at_the_extremes() {
    assert_eq!(decode(0x0000), Operands { op: 0, x: 0, y: 0, n: 0, nn: 0, nnn: 0 });
    assert_eq!(
        decode(0xFFFF),
        Operands { op: 0xF, x: 0xF, y: 0xF, n: 0xF, nn: 0xFF, nnn: 0xFFF }
    );
}

#[test]
fn join_puts_the_high_byte_first() {
    assert_eq!(join(0x12, 0x34), 0x1234);
    assert_eq!(join(0x00, 0xE0), 0x00E0);
    assert_eq!(join(0xFF, 0xFF), 0xFFFF);
}

#[test]
fn classify_knows_the_whole_table() {
    let table: Vec<(u16, Opcode)> = vec![
        (0x00E0, Opcode::ClearScreen),
        (0x00EE, Opcode::Return),
        (0x1ABC, Opcode::Jump),
        (0x2ABC, Opcode::Call),
        (0x3A12, Opcode::SkipEqImm),
        (0x4A12, Opcode::SkipNeImm),
        (0x5AB0, Opcode::SkipEqReg),
        (0x6A12, Opcode::LoadImm),
        (0x7A12, Opcode::AddImm),
        (0x8AB0, Opcode::Move),
        (0x8AB1, Opcode::Or),
        (0x8AB2, Opcode::And),
        (0x8AB3, Opcode::Xor),
        (0x8AB4, Opcode::AddReg),
        (0x8AB5, Opcode::SubReg),
        (0x8AB6, Opcode::ShiftRight),
        (0x8AB7, Opcode::SubRev),
        (0x8ABE, Opcode::ShiftLeft),
        (0x9AB0, Opcode::SkipNeReg),
        (0xA123, Opcode::LoadIndex),
        (0xB123, Opcode::JumpOffset),
        (0xC1FF, Opcode::Random),
        (0xD125, Opcode::Draw),
        (0xE19E, Opcode::SkipKey),
        (0xE1A1, Opcode::SkipNoKey),
        (0xF107, Opcode::ReadDelay),
        (0xF115, Opcode::SetDelay),
        (0xF118, Opcode::SetSound),
        (0xF11E, Opcode::AddIndex),
        (0xF129, Opcode::Glyph),
        (0xF133, Opcode::Bcd),
        (0xF155, Opcode::Store),
        (0xF165, Opcode::Load),
    ];
    for (word, kind) in table {
        assert_eq!(classify(word), Some(kind), "word {:#06x}", word);
    }
}

#[test]
fn classify_rejects_unassigned_words() {
    for word in [0x0000u16, 0x00E1, 0x0123, 0x5AB1, 0x8AB8, 0x8ABF, 0x9AB1, 0xE19F, 0xE100, 0xF100, 0xF1FF] {
        assert_eq!(classify(word), None, "word {:#06x}", word);
    }
}

#[test]
fn classify_agrees_with_the_patterns_on_every_word() {
    let mut assigned: u32 = 0;
    for word in 0..=0xFFFFu16 {
        let f = decode(word);
        let expected = match f.op {
            0x0 => word == 0x00E0 || word == 0x00EE,
            0x5 | 0x9 => f.n == 0,
            0x8 => f.n <= 7 || f.n == 0xE,
            0xE => f.nn == 0x9E || f.nn == 0xA1,
            0xF => [0x07, 0x15, 0x18, 0x1E, 0x29, 0x33, 0x55, 0x65].contains(&f.nn),
            _ => true,
        };
        assert_eq!(classify(word).is_some(), expected, "word {:#06x}", word);
        if expected {
            assigned += 1;
        }
    }
    assert_eq!(assigned, 2 + 10 * 4096 + 2 * 256 + 9 * 256 + 2 * 16 + 8 * 16);
}

#[test]
fn split_byte_gives_both_nibbles() {
    let cpu = CPU::new(vec![]);
    assert_eq!(cpu.split_byte(0xA7), (0xA, 0x7));
    assert_eq!(cpu.split_byte(0x00), (0x0, 0x0));
    assert_eq!(cpu.split_byte(0xFF), (0xF, 0xF));
}

#[test]
fn split_pair_gives_four_nibbles() {
    let cpu = CPU::new(vec![]);
    assert_eq!(cpu.split_pair((0xD1, 0x2F)), (0xD, 0x1, 0x2, 0xF));
}

#[test]
fn smash_2_nib_joins_nibbles() {
    let cpu = CPU::new(vec![]);
    assert_eq!(cpu.smash_2_nib(0xA, 0x7), 0xA7);
    assert_eq!(cpu.smash_2_nib(0x0, 0x0), 0x00);
    assert_eq!(cpu.smash_2_nib(0xF, 0xF), 0xFF);
}

#[test]
fn smash_2_nib_on_wide_arguments() {
    let cpu = CPU::new(vec![]);
    assert_eq!(cpu.smash_2_nib(0x1F, 0x03), 0xF3);
    assert_eq!(cpu.smash_2_nib(0x01, 0x23), 0x33);
}

#[test]
fn smash_3_nib_joins_nibbles() {
    let cpu = CPU::new(vec![]);
    assert_eq!(cpu.smash_3_nib(0x1, 0x2, 0x3), 0x0123);
    assert_eq!(cpu.smash_3_nib(0xF, 0xF, 0xF), 0x0FFF);
    assert_eq!(cpu.smash_3_nib(0x0, 0x0, 0x0), 0x0000);
}

#[test]
fn smash_3_nib_on_wide_arguments() {
    let cpu = CPU::new(vec![]);
    assert_eq!(cpu.smash_3_nib(0x12, 0x00, 0x00), 0x1200);
    assert_eq!(cpu.smash_3_nib(0x00, 0x10, 0x01), 0x0101);
}

#[test]
fn split_then_smash_is_the_identity() {
    let cpu = CPU::new(vec![]);
    for byte in 0..=255u8 {
        let (high, low) = cpu.split_byte(byte);
        assert!(high < 16 && low < 16);
        assert_eq!(cpu.smash_2_nib(high, low), byte);
    }
}
