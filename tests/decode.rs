use chip8_rust::{Opcode, OpcodeALU};

#[test]
fn decode_covers_every_word() {
    for word in 0..=u16::MAX {
        let op = Opcode::decode(word);
        let family = word >> 12;
        let n = word & 0xF;
        if family == 0x8 {
            let valid = n <= 7 || n == 0xE;
            match op {
                Opcode::ALU { .. } => assert!(valid, "{word:#06X}"),
                Opcode::UnknownALU(raw) => {
                    assert!(!valid, "{word:#06X}");
                    assert_eq!(raw, word);
                }
                _ => panic!("family 8 word {word:#06X} decoded to {op:?}"),
            }
        }
        if let Opcode::Unknown(raw) = op {
            assert_eq!(raw, word);
        }
    }
}

#[test]
fn decode_unknown_alu_sub_operations() {
    for n in [0x8u16, 0x9, 0xA, 0xB, 0xC, 0xD, 0xF] {
        let word = 0x8120 | n;
        assert!(matches!(Opcode::decode(word), Opcode::UnknownALU(w) if w == word));
    }
}

#[test]
fn decode_alu_operations() {
    let expected = [
        (0x0u16, OpcodeALU::Assign),
        (0x1, OpcodeALU::Or),
        (0x2, OpcodeALU::And),
        (0x3, OpcodeALU::Xor),
        (0x4, OpcodeALU::Add),
        (0x5, OpcodeALU::Sub),
        (0x6, OpcodeALU::ShiftRight),
        (0x7, OpcodeALU::SubReverse),
        (0xE, OpcodeALU::ShiftLeft),
    ];
    for (n, alu) in expected {
        match Opcode::decode(0x8AB0 | n) {
            Opcode::ALU { x, y, op } => {
                assert_eq!(x.value(), 0xA);
                assert_eq!(y.value(), 0xB);
                assert_eq!(op, alu);
            }
            other => panic!("unexpected {other:?}"),
        }
    }
}

#[test]
fn decode_fixed_words() {
    assert!(matches!(Opcode::decode(0x00E0), Opcode::ClearDisplay));
    assert!(matches!(Opcode::decode(0x00EE), Opcode::Return));
    assert!(matches!(Opcode::decode(0x0123), Opcode::Unknown(0x0123)));
    assert!(matches!(Opcode::decode(0x00E1), Opcode::Unknown(0x00E1)));
}

#[test]
fn decode_address_operands() {
    assert!(matches!(Opcode::decode(0x1234), Opcode::Jump { nnn: 0x234 }));
    assert!(matches!(Opcode::decode(0x2FFF), Opcode::Call { nnn: 0xFFF }));
    assert!(matches!(Opcode::decode(0xA123), Opcode::SetIndexImm { nnn: 0x123 }));
    assert!(matches!(Opcode::decode(0xB300), Opcode::JumpWithOffset { nnn: 0x300 }));
}

#[test]
fn decode_register_operands() {
    match Opcode::decode(0x3A42) {
        Opcode::SkipRegEqualImm { x, nn } => {
            assert_eq!(x.value(), 0xA);
            assert_eq!(nn, 0x42);
        }
        other => panic!("unexpected {other:?}"),
    }
    match Opcode::decode(0xD125) {
        Opcode::Draw { x, y, n } => {
            assert_eq!((x.value(), y.value(), n.value()), (1, 2, 5));
        }
        other => panic!("unexpected {other:?}"),
    }
    match Opcode::decode(0x5120) {
        Opcode::SkipRegEqualReg { x, y } => assert_eq!((x.value(), y.value()), (1, 2)),
        other => panic!("unexpected {other:?}"),
    }
    assert!(matches!(Opcode::decode(0x5121), Opcode::Unknown(0x5121)));
    assert!(matches!(Opcode::decode(0x9121), Opcode::Unknown(0x9121)));
    assert!(matches!(Opcode::decode(0x9120), Opcode::SkipRegNotEqualReg { .. }));
}

#[test]
fn decode_key_and_misc_operands() {
    assert!(matches!(Opcode::decode(0xE39E), Opcode::SkipIfPressed { .. }));
    assert!(matches!(Opcode::decode(0xE3A1), Opcode::SkipIfNotPressed { .. }));
    assert!(matches!(Opcode::decode(0xE3A2), Opcode::Unknown(0xE3A2)));
    assert!(matches!(Opcode::decode(0xF30A), Opcode::WaitForKey { .. }));
    assert!(matches!(Opcode::decode(0xF307), Opcode::ReadDelayTimer { .. }));
    assert!(matches!(Opcode::decode(0xF315), Opcode::SetDelayTimer { .. }));
    assert!(matches!(Opcode::decode(0xF318), Opcode::SetSoundTimer { .. }));
    assert!(matches!(Opcode::decode(0xF31E), Opcode::AddIndexReg { .. }));
    assert!(matches!(Opcode::decode(0xF329), Opcode::FontChar { .. }));
    assert!(matches!(Opcode::decode(0xF333), Opcode::BCD { .. }));
    assert!(matches!(Opcode::decode(0xF355), Opcode::StoreRegs { .. }));
    assert!(matches!(Opcode::decode(0xF365), Opcode::LoadRegs { .. }));
    assert!(matches!(Opcode::decode(0xF366), Opcode::Unknown(0xF366)));
    match Opcode::decode(0xC7F0) {
        Opcode::Random { x, nn } => {
            assert_eq!(x.value(), 7);
            assert_eq!(nn, 0xF0);
        }
        other => panic!("unexpected {other:?}"),
    }
}
