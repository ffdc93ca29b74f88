use iridium::instruction::{decode_byte, decode_mnemonic, encode_opcode, Instruction, Opcode};

#[test]
fn test_create_hlt() {
    let opcode = Opcode::HLT;
    assert_eq!(opcode, Opcode::HLT);
}

#[test]
fn test_create_instruction() {
    let instruction = Instruction::new(Opcode::HLT);
    assert_eq!(instruction.opcode, Opcode::HLT);
}

#[test]
fn test_str_to_opcode() {
    let opcode = decode_mnemonic("load");
    assert_eq!(opcode, Opcode::LOAD);
    let opcode = decode_mnemonic("illegal");
    assert_eq!(opcode, Opcode::IGL);
}

#[test]
fn test_byte_decoding_is_total() {
    for b in 0..=255u8 {
        let op = decode_byte(b);
        let mapped = b <= 17;
        assert_eq!(op == Opcode::IGL, !mapped);
    }
    assert_eq!(decode_byte(200), Opcode::IGL);
    assert_eq!(decode_byte(18), Opcode::IGL);
    assert_eq!(decode_byte(0), Opcode::LOAD);
    assert_eq!(decode_byte(5), Opcode::HLT);
    assert_eq!(decode_byte(15), Opcode::JMPE);
    assert_eq!(decode_byte(16), Opcode::ALOC);
    assert_eq!(decode_byte(17), Opcode::INC);
}

#[test]
fn test_byte_decoding_inverts_encoding() {
    let real = [
        Opcode::LOAD,
        Opcode::ADD,
        Opcode::SUB,
        Opcode::MUL,
        Opcode::DIV,
        Opcode::HLT,
        Opcode::JMP,
        Opcode::JMPF,
        Opcode::JMPB,
        Opcode::EQ,
        Opcode::NEQ,
        Opcode::GTE,
        Opcode::LTE,
        Opcode::LT,
        Opcode::GT,
        Opcode::JMPE,
        Opcode::ALOC,
        Opcode::INC,
    ];
    for op in real {
        assert_eq!(decode_byte(encode_opcode(op)), op);
    }
}

#[test]
fn test_mnemonic_decoding_is_total() {
    assert_eq!(decode_mnemonic("notanopcode"), Opcode::IGL);
    assert_eq!(decode_mnemonic(""), Opcode::IGL);
    assert_eq!(decode_mnemonic("LOAD"), Opcode::IGL);
    let table = [
        ("load", Opcode::LOAD),
        ("add", Opcode::ADD),
        ("sub", Opcode::SUB),
        ("mul", Opcode::MUL),
        ("div", Opcode::DIV),
        ("hlt", Opcode::HLT),
        ("jmp", Opcode::JMP),
        ("jmpf", Opcode::JMPF),
        ("jmpb", Opcode::JMPB),
        ("eq", Opcode::EQ),
        ("neq", Opcode::NEQ),
        ("gte", Opcode::GTE),
        ("lte", Opcode::LTE),
        ("lt", Opcode::LT),
        ("gt", Opcode::GT),
        ("jmpe", Opcode::JMPE),
        ("aloc", Opcode::ALOC),
        ("inc", Opcode::INC),
    ];
    for (word, op) in table {
        assert_eq!(decode_mnemonic(word), op);
    }
}

#[test]
fn test_opcode_ordinals() {
    assert_eq!(encode_opcode(Opcode::LOAD), 0);
    assert_eq!(encode_opcode(Opcode::HLT), 5);
    assert_eq!(encode_opcode(Opcode::JMPE), 15);
    assert_eq!(encode_opcode(Opcode::ALOC), 16);
    assert_eq!(encode_opcode(Opcode::INC), 17);
    assert_eq!(encode_opcode(Opcode::IGL), 18);
}
