//! The opcode table: the closed enumeration of operations and the two
//! total decoding functions, one from a program byte and one from a
//! mnemonic.  Unknown input decodes to `IGL` rather than failing, so an
//! illegal opcode is an ordinary runtime outcome, never a decode error.
use crate::text::str_eq;
use vstd::prelude::*;

verus! {

/// The closed set of operations the virtual machine understands.
/// `IGL` is the catch-all for any byte or mnemonic that names no real
/// operation.
#[derive(Debug, PartialEq, Eq, Structural, Clone, Copy)]
pub enum Opcode {
    LOAD,
    ADD,
    SUB,
    MUL,
    DIV,
    HLT,
    JMP,
    JMPF,
    JMPB,
    EQ,
    NEQ,
    GTE,
    LTE,
    LT,
    GT,
    JMPE,
    ALOC,
    INC,
    IGL,
}

/// The byte the assembler emits for an opcode: its position in the
/// declaration order of the enumeration.
pub open spec fn opcode_ordinal(c: Opcode) -> u8 {
    match c {
        Opcode::LOAD => 0,
        Opcode::ADD => 1,
        Opcode::SUB => 2,
        Opcode::MUL => 3,
        Opcode::DIV => 4,
        Opcode::HLT => 5,
        Opcode::JMP => 6,
        Opcode::JMPF => 7,
        Opcode::JMPB => 8,
        Opcode::EQ => 9,
        Opcode::NEQ => 10,
        Opcode::GTE => 11,
        Opcode::LTE => 12,
        Opcode::LT => 13,
        Opcode::GT => 14,
        Opcode::JMPE => 15,
        Opcode::ALOC => 16,
        Opcode::INC => 17,
        Opcode::IGL => 18,
    }
}

/// The opcode a program byte stands for: the inverse of
/// [`opcode_ordinal`] on the eighteen real opcodes, so the wire format
/// is one and the same for the assembler that emits it and the machine
/// that decodes it.  Every byte from 18 up is illegal.
pub open spec fn byte_opcode(b: u8) -> Opcode {
    if b == 0 {
        Opcode::LOAD
    } else if b == 1 {
        Opcode::ADD
    } else if b == 2 {
        Opcode::SUB
    } else if b == 3 {
        Opcode::MUL
    } else if b == 4 {
        Opcode::DIV
    } else if b == 5 {
        Opcode::HLT
    } else if b == 6 {
        Opcode::JMP
    } else if b == 7 {
        Opcode::JMPF
    } else if b == 8 {
        Opcode::JMPB
    } else if b == 9 {
        Opcode::EQ
    } else if b == 10 {
        Opcode::NEQ
    } else if b == 11 {
        Opcode::GTE
    } else if b == 12 {
        Opcode::LTE
    } else if b == 13 {
        Opcode::LT
    } else if b == 14 {
        Opcode::GT
    } else if b == 15 {
        Opcode::JMPE
    } else if b == 16 {
        Opcode::ALOC
    } else if b == 17 {
        Opcode::INC
    } else {
        Opcode::IGL
    }
}

/// The opcode a mnemonic stands for.  Exact lower-case words only;
/// anything else is illegal.
pub open spec fn mnemonic_opcode(s: Seq<char>) -> Opcode {
    if s == "load"@ {
        Opcode::LOAD
    } else if s == "add"@ {
        Opcode::ADD
    } else if s == "sub"@ {
        Opcode::SUB
    } else if s == "mul"@ {
        Opcode::MUL
    } else if s == "div"@ {
        Opcode::DIV
    } else if s == "hlt"@ {
        Opcode::HLT
    } else if s == "jmp"@ {
        Opcode::JMP
    } else if s == "jmpf"@ {
        Opcode::JMPF
    } else if s == "jmpb"@ {
        Opcode::JMPB
    } else if s == "eq"@ {
        Opcode::EQ
    } else if s == "neq"@ {
        Opcode::NEQ
    } else if s == "gte"@ {
        Opcode::GTE
    } else if s == "lte"@ {
        Opcode::LTE
    } else if s == "lt"@ {
        Opcode::LT
    } else if s == "gt"@ {
        Opcode::GT
    } else if s == "jmpe"@ {
        Opcode::JMPE
    } else if s == "aloc"@ {
        Opcode::ALOC
    } else if s == "inc"@ {
        Opcode::INC
    } else {
        Opcode::IGL
    }
}

/// Decode one program byte into an opcode.  Total: every byte decodes,
/// unmapped bytes to IGL.
pub fn decode_byte(b: u8) -> (r: Opcode)
    ensures
        r == byte_opcode(b),
{
    if b == 0 {
        Opcode::LOAD
    } else if b == 1 {
        Opcode::ADD
    } else if b == 2 {
        Opcode::SUB
    } else if b == 3 {
        Opcode::MUL
    } else if b == 4 {
        Opcode::DIV
    } else if b == 5 {
        Opcode::HLT
    } else if b == 6 {
        Opcode::JMP
    } else if b == 7 {
        Opcode::JMPF
    } else if b == 8 {
        Opcode::JMPB
    } else if b == 9 {
        Opcode::EQ
    } else if b == 10 {
        Opcode::NEQ
    } else if b == 11 {
        Opcode::GTE
    } else if b == 12 {
        Opcode::LTE
    } else if b == 13 {
        Opcode::LT
    } else if b == 14 {
        Opcode::GT
    } else if b == 15 {
        Opcode::JMPE
    } else if b == 16 {
        Opcode::ALOC
    } else if b == 17 {
        Opcode::INC
    } else {
        Opcode::IGL
    }
}

/// Decode a mnemonic into an opcode.  Total: every string decodes,
/// unknown words to IGL.
pub fn decode_mnemonic(s: &str) -> (r: Opcode)
    ensures
        r == mnemonic_opcode(s@),
{
    if str_eq(s, "load") {
        Opcode::LOAD
    } else if str_eq(s, "add") {
        Opcode::ADD
    } else if str_eq(s, "sub") {
        Opcode::SUB
    } else if str_eq(s, "mul") {
        Opcode::MUL
    } else if str_eq(s, "div") {
        Opcode::DIV
    } else if str_eq(s, "hlt") {
        Opcode::HLT
    } else if str_eq(s, "jmp") {
        Opcode::JMP
    } else if str_eq(s, "jmpf") {
        Opcode::JMPF
    } else if str_eq(s, "jmpb") {
        Opcode::JMPB
    } else if str_eq(s, "eq") {
        Opcode::EQ
    } else if str_eq(s, "neq") {
        Opcode::NEQ
    } else if str_eq(s, "gte") {
        Opcode::GTE
    } else if str_eq(s, "lte") {
        Opcode::LTE
    } else if str_eq(s, "lt") {
        Opcode::LT
    } else if str_eq(s, "gt") {
        Opcode::GT
    } else if str_eq(s, "jmpe") {
        Opcode::JMPE
    } else if str_eq(s, "aloc") {
        Opcode::ALOC
    } else if str_eq(s, "inc") {
        Opcode::INC
    } else {
        Opcode::IGL
    }
}

/// Emit the byte an opcode assembles to: its ordinal.
pub fn encode_opcode(c: Opcode) -> (r: u8)
    ensures
        r == opcode_ordinal(c),
{
    match c {
        Opcode::LOAD => 0,
        Opcode::ADD => 1,
        Opcode::SUB => 2,
        Opcode::MUL => 3,
        Opcode::DIV => 4,
        Opcode::HLT => 5,
        Opcode::JMP => 6,
        Opcode::JMPF => 7,
        Opcode::JMPB => 8,
        Opcode::EQ => 9,
        Opcode::NEQ => 10,
        Opcode::GTE => 11,
        Opcode::LTE => 12,
        Opcode::LT => 13,
        Opcode::GT => 14,
        Opcode::JMPE => 15,
        Opcode::ALOC => 16,
        Opcode::INC => 17,
        Opcode::IGL => 18,
    }
}

/// Decoding a byte is total and defaults to IGL: exactly the bytes 0
/// through 17 name an operation, and everything above names none.
pub proof fn lemma_byte_decoding_defaults_to_illegal()
    ensures
        forall|b: u8| b >= 18 ==> byte_opcode(b) == Opcode::IGL,
        forall|b: u8| b <= 17 ==> byte_opcode(b) != Opcode::IGL,
{
}

/// Decoding inverts encoding: the byte the assembler emits for any
/// real opcode decodes back to that opcode, and a mapped byte encodes
/// back to itself, so both sides of the wire format agree.
pub proof fn lemma_byte_decoding_inverts_encoding()
    ensures
        forall|c: Opcode| c != Opcode::IGL ==> byte_opcode(opcode_ordinal(c)) == c,
        forall|b: u8| b <= 17 ==> opcode_ordinal(byte_opcode(b)) == b,
{
}

/// Decoding a mnemonic is total and defaults to IGL: a word decodes to
/// a real opcode exactly when it is one of the eighteen mnemonics.
pub proof fn lemma_mnemonic_decoding_defaults_to_illegal(s: Seq<char>)
    ensures
        mnemonic_opcode(s) != Opcode::IGL <==> (s == "load"@ || s == "add"@ || s == "sub"@
            || s == "mul"@ || s == "div"@ || s == "hlt"@ || s == "jmp"@ || s == "jmpf"@
            || s == "jmpb"@ || s == "eq"@ || s == "neq"@ || s == "gte"@ || s == "lte"@
            || s == "lt"@ || s == "gt"@ || s == "jmpe"@ || s == "aloc"@ || s == "inc"@),
{
}

/// One decoded instruction, as the interactive front end keeps it.
#[derive(Debug, PartialEq)]
pub struct Instruction {
    pub opcode: Opcode,
}

impl Instruction {
    pub fn new(opcode: Opcode) -> (r: Instruction)
        ensures
            r.opcode == opcode,
    {
        Instruction { opcode }
    }
}

} // verus!

