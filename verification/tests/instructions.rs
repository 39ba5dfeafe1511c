use regvm::instructions::{Opcode, OperandShape, UNKNOWN_MNEMONIC};

const LEGAL: [Opcode; 16] = [
    Opcode::HLT,
    Opcode::LOAD,
    Opcode::ADD,
    Opcode::SUB,
    Opcode::MUL,
    Opcode::DIV,
    Opcode::JMP,
    Opcode::JMPF,
    Opcode::JMPB,
    Opcode::JEQ,
    Opcode::EQ,
    Opcode::NEQ,
    Opcode::GT,
    Opcode::LT,
    Opcode::GTQ,
    Opcode::LTQ,
];

#[test]
fn byte_of_each_operation_decodes_to_it() {
    for (value, opcode) in LEGAL.iter().enumerate() {
        assert_eq!(u8::from(opcode), value as u8);
        assert_eq!(Opcode::from(u8::from(opcode)), *opcode);
    }
}

#[test]
fn every_byte_decodes() {
    for byte in 0..=255u8 {
        let opcode = Opcode::from(byte);
        if byte <= 15 {
            assert_eq!(opcode, LEGAL[byte as usize]);
            assert_eq!(u8::from(&opcode), byte);
        } else {
            assert_eq!(opcode, Opcode::IGL(byte));
        }
    }
}

#[test]
fn illegal_has_the_sentinel_for_its_byte() {
    assert_eq!(UNKNOWN_MNEMONIC, 0xFF);
    assert_eq!(u8::from(&Opcode::IGL(200)), 0xFF);
    assert_eq!(u8::from(&Opcode::IGL(3)), 0xFF);
    assert_eq!(Opcode::from(0xFFu8), Opcode::IGL(0xFF));
}

#[test]
fn mnemonics_in_any_case() {
    let names = [
        "hlt", "load", "add", "sub", "mul", "div", "jmp", "jmpf", "jmpb", "jeq", "eq", "neq",
        "gt", "lt", "gtq", "ltq",
    ];
    for (name, opcode) in names.iter().zip(LEGAL.iter()) {
        assert_eq!(Opcode::from(*name), *opcode);
        assert_eq!(Opcode::from(name.to_uppercase().as_str()), *opcode);
        assert_eq!(Opcode::from_uppercase(name.to_uppercase().as_str()), *opcode);
        assert_eq!(Opcode::from_uppercase(name), Opcode::IGL(0xFF));
    }
    assert_eq!(Opcode::from("LoAd"), Opcode::LOAD);
    assert_eq!(Opcode::from("jMpB"), Opcode::JMPB);
}

#[test]
fn what_is_no_mnemonic() {
    for name in ["", "h", "hl", "hltt", "loa", "loads", "jmpx", "e q", "ad d", "ADD ", "1", "l0ad"] {
        assert_eq!(Opcode::from(name), Opcode::IGL(0xFF));
        assert_eq!(Opcode::from_uppercase(name), Opcode::IGL(0xFF));
    }
    assert_eq!(Opcode::from("h\u{fffd}lt"), Opcode::IGL(0xFF));
    assert_eq!(Opcode::from("étiquette"), Opcode::IGL(0xFF));
}

#[test]
fn letters_beyond_ascii_are_capitalised_too() {
    assert_eq!(Opcode::from("\u{17f}ub"), Opcode::SUB);
    assert_eq!(Opcode::from("d\u{131}v"), Opcode::DIV);
    assert_eq!(Opcode::from_uppercase("\u{17f}ub"), Opcode::IGL(0xFF));
}

#[test]
fn shape_of_each_operation() {
    assert_eq!(Opcode::HLT.shape(), OperandShape::Nothing);
    assert_eq!(Opcode::IGL(9).shape(), OperandShape::Nothing);
    for opcode in [Opcode::JMP, Opcode::JMPF, Opcode::JMPB, Opcode::JEQ] {
        assert_eq!(opcode.shape(), OperandShape::Register);
    }
    for opcode in [Opcode::EQ, Opcode::NEQ, Opcode::GT, Opcode::LT, Opcode::GTQ, Opcode::LTQ] {
        assert_eq!(opcode.shape(), OperandShape::RegisterRegister);
    }
    for opcode in [Opcode::ADD, Opcode::SUB, Opcode::MUL, Opcode::DIV] {
        assert_eq!(opcode.shape(), OperandShape::RegisterRegisterRegister);
    }
    assert_eq!(Opcode::LOAD.shape(), OperandShape::RegisterInteger);
}

#[test]
fn width_of_each_shape() {
    assert_eq!(OperandShape::Nothing.width(), 0);
    assert_eq!(OperandShape::Register.width(), 1);
    assert_eq!(OperandShape::RegisterRegister.width(), 2);
    assert_eq!(OperandShape::RegisterRegisterRegister.width(), 3);
    assert_eq!(OperandShape::RegisterInteger.width(), 3);
}
