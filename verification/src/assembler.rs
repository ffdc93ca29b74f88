//! The assembly side: the token and instruction-record types the
//! scanner produces, the symbol table, the binary encoding of a record,
//! and the two-phase assembler that drives them.
//!
//! Encoding is total over well-shaped records and reports every failure
//! as a value: a record without an opcode token, an operand slot that
//! holds something that is not an operand, and a label reference that
//! the symbol table cannot resolve each name their own error.
use crate::instruction::{encode_opcode, opcode_ordinal, Opcode};
use crate::text::str_eq;
use crate::vm::{step, with_pc, with_reg, VmState};
use vstd::arithmetic::div_mod::{lemma_fundamental_div_mod, lemma_mod_multiples_vanish};
use vstd::prelude::*;

verus! {

broadcast use vstd::std_specs::vec::axiom_spec_len;

/// One lexical token of the instruction language.
#[derive(Debug, PartialEq)]
pub enum Token {
    Op { code: Opcode },
    Register { reg_num: u8 },
    IntOperand { value: i32 },
    LabelDecl { name: String },
    LabelUsage { name: String },
    Directive { name: String },
    IrString { name: String },
}

/// The mathematical shape of a token: names as character sequences.
pub enum TokenModel {
    Op(Opcode),
    Register(u8),
    IntOperand(i32),
    LabelDecl(Seq<char>),
    LabelUsage(Seq<char>),
    Directive(Seq<char>),
    IrString(Seq<char>),
}

impl View for Token {
    type V = TokenModel;

    open spec fn view(&self) -> TokenModel {
        match self {
            Token::Op { code } => TokenModel::Op(*code),
            Token::Register { reg_num } => TokenModel::Register(*reg_num),
            Token::IntOperand { value } => TokenModel::IntOperand(*value),
            Token::LabelDecl { name } => TokenModel::LabelDecl(name@),
            Token::LabelUsage { name } => TokenModel::LabelUsage(name@),
            Token::Directive { name } => TokenModel::Directive(name@),
            Token::IrString { name } => TokenModel::IrString(name@),
        }
    }
}

/// The view of an optional token slot.
pub open spec fn opt_token_view(o: Option<Token>) -> Option<TokenModel> {
    match o {
        Option::None => Option::None,
        Option::Some(t) => Option::Some(t@),
    }
}

/// One parsed instruction record: an optional label declaration, an
/// optional directive (reserved and unused by the execution core), the
/// opcode token, and up to three operand tokens.
#[derive(Debug, PartialEq)]
pub struct AssemblerInstruction {
    pub label: Option<Token>,
    pub directive: Option<Token>,
    pub opcode: Option<Token>,
    pub operand1: Option<Token>,
    pub operand2: Option<Token>,
    pub operand3: Option<Token>,
}

/// The mathematical shape of an instruction record.
pub struct InstrModel {
    pub label: Option<TokenModel>,
    pub directive: Option<TokenModel>,
    pub opcode: Option<TokenModel>,
    pub operand1: Option<TokenModel>,
    pub operand2: Option<TokenModel>,
    pub operand3: Option<TokenModel>,
}

impl View for AssemblerInstruction {
    type V = InstrModel;

    open spec fn view(&self) -> InstrModel {
        InstrModel {
            label: opt_token_view(self.label),
            directive: opt_token_view(self.directive),
            opcode: opt_token_view(self.opcode),
            operand1: opt_token_view(self.operand1),
            operand2: opt_token_view(self.operand2),
            operand3: opt_token_view(self.operand3),
        }
    }
}

impl DeepView for AssemblerInstruction {
    type V = InstrModel;

    open spec fn deep_view(&self) -> InstrModel {
        self.view()
    }
}

/// A whole parsed program: the records in source order.
#[derive(Debug, PartialEq)]
pub struct Program {
    pub instructions: Vec<AssemblerInstruction>,
}

impl View for Program {
    type V = Seq<InstrModel>;

    open spec fn view(&self) -> Seq<InstrModel> {
        self.instructions.deep_view()
    }
}

/// What can go wrong while assembling: the source text held no
/// instruction at all, the program was too long for 32-bit offsets,
/// a record without an opcode token, an operand slot holding a
/// non-operand token, or a label reference no declaration matches.
#[derive(Debug, PartialEq)]
pub enum AssembleError {
    Parse,
    TooLarge,
    MissingOpcode,
    BadOperand,
    UnknownLabel(String),
}

/// The mathematical shape of an assembly error.
pub enum AsmErrorModel {
    Parse,
    TooLarge,
    MissingOpcode,
    BadOperand,
    UnknownLabel(Seq<char>),
}

impl View for AssembleError {
    type V = AsmErrorModel;

    open spec fn view(&self) -> AsmErrorModel {
        match self {
            AssembleError::Parse => AsmErrorModel::Parse,
            AssembleError::TooLarge => AsmErrorModel::TooLarge,
            AssembleError::MissingOpcode => AsmErrorModel::MissingOpcode,
            AssembleError::BadOperand => AsmErrorModel::BadOperand,
            AssembleError::UnknownLabel(name) => AsmErrorModel::UnknownLabel(name@),
        }
    }
}

/// The view of a byte-emission result.
pub open spec fn bytes_result_view(r: Result<Vec<u8>, AssembleError>) -> Result<
    Seq<u8>,
    AsmErrorModel,
> {
    match r {
        Result::Ok(v) => Result::Ok(v@),
        Result::Err(e) => Result::Err(e@),
    }
}

/// What kind a symbol is; only labels exist in this core.
#[derive(Debug, PartialEq, Eq, Structural, Clone, Copy)]
pub enum SymbolType {
    Label,
}

impl Default for SymbolType {
    fn default() -> (r: Self)
        ensures
            r == SymbolType::Label,
    {
        SymbolType::Label
    }
}

/// One symbol: a name bound to a byte offset from the program start.
#[derive(Debug)]
pub struct Symbol {
    pub name: String,
    pub offset: u32,
    pub symbol_type: SymbolType,
}

/// The mathematical shape of a symbol: what lookup depends on.
pub struct SymbolModel {
    pub name: Seq<char>,
    pub offset: u32,
}

impl View for Symbol {
    type V = SymbolModel;

    open spec fn view(&self) -> SymbolModel {
        SymbolModel { name: self.name@, offset: self.offset }
    }
}

impl DeepView for Symbol {
    type V = SymbolModel;

    open spec fn deep_view(&self) -> SymbolModel {
        self.view()
    }
}

impl Symbol {
    pub fn new(name: &str, symbol_type: SymbolType, offset: u32) -> (r: Self)
        ensures
            r@.name == name@,
            r@.offset == offset,
            r.symbol_type == symbol_type,
    {
        Symbol { name: name.to_owned(), symbol_type, offset }
    }
}

/// First-match lookup, scanning from position `i`.
pub open spec fn lookup_from(syms: Seq<SymbolModel>, name: Seq<char>, i: int) -> Option<u32>
    decreases syms.len() - i,
{
    if i < 0 || i >= syms.len() {
        Option::None
    } else if syms[i].name == name {
        Option::Some(syms[i].offset)
    } else {
        lookup_from(syms, name, i + 1)
    }
}

/// The offset bound to a name: the first entry with that name wins,
/// so a duplicate declaration never shadows an earlier one.
pub open spec fn lookup_symbol(syms: Seq<SymbolModel>, name: Seq<char>) -> Option<u32> {
    lookup_from(syms, name, 0)
}

/// The label bindings of one assembly, in insertion order.
#[derive(Debug)]
pub struct SymbolTable {
    pub symbols: Vec<Symbol>,
}

impl View for SymbolTable {
    type V = Seq<SymbolModel>;

    open spec fn view(&self) -> Seq<SymbolModel> {
        self.symbols.deep_view()
    }
}

impl SymbolTable {
    pub fn new() -> (r: Self)
        ensures
            r@ == Seq::<SymbolModel>::empty(),
    {
        let r = SymbolTable { symbols: Vec::new() };
        proof {
            assert(r@ =~= Seq::<SymbolModel>::empty());
        }
        r
    }

    /// Insert a symbol at the end; an existing entry with the same
    /// name is kept and keeps winning lookups.
    pub fn add_symbol(&mut self, s: Symbol)
        ensures
            final(self)@ == old(self)@.push(s@),
    {
        self.symbols.push(s);
        proof {
            assert(self@ =~= old(self)@.push(self.symbols@[old(self)@.len() as int]@));
        }
    }

    /// The offset bound to a name, if any: a linear scan returning the
    /// first structurally equal name.
    pub fn symbol_value(&self, s: &str) -> (r: Option<u32>)
        ensures
            r == lookup_symbol(self@, s@),
    {
        let n = self.symbols.len();
        let mut i: usize = 0;
        while i < n
            invariant
                n == self.symbols.len(),
                i <= n,
                lookup_symbol(self@, s@) == lookup_from(self@, s@, i as int),
            decreases n - i,
        {
            if str_eq(self.symbols[i].name.as_str(), s) {
                return Some(self.symbols[i].offset);
            }
            i = i + 1;
        }
        None
    }
}

/// The low 16 bits of an integer literal, the part the encoding keeps.
pub open spec fn imm_low16(v: i32) -> int {
    (v as int) % 0x10000
}

/// High byte of the encoded 16-bit immediate.
pub open spec fn imm_hi(v: i32) -> u8 {
    (imm_low16(v) / 256) as u8
}

/// Low byte of the encoded 16-bit immediate.
pub open spec fn imm_lo(v: i32) -> u8 {
    (imm_low16(v) % 256) as u8
}

/// High byte of the two label-offset bytes the encoding keeps: only
/// the low 16 bits of the 32-bit offset are embedded, a documented
/// truncation for programs past 65535 bytes.
pub open spec fn offset_hi(off: u32) -> u8 {
    ((off / 256) % 256) as u8
}

/// Low byte of the two label-offset bytes the encoding keeps.
pub open spec fn offset_lo(off: u32) -> u8 {
    (off % 256) as u8
}

/// Split an integer literal into the two big-endian bytes it encodes
/// to, reinterpreting it as its low 16 bits.
fn imm16_bytes(v: i32) -> (r: (u8, u8))
    ensures
        r.0 == imm_hi(v),
        r.1 == imm_lo(v),
{
    let w: u32 = if v >= 0 {
        v as u32
    } else {
        let y: i32 = (v + 2147483647) + 1;
        (y as u32) + 2147483648
    };
    proof {
        if v < 0 {
            lemma_mod_multiples_vanish(65536, v as int, 65536);
        }
    }
    let t = w % 65536;
    (((t / 256) as u8), ((t % 256) as u8))
}

/// The bytes one operand token contributes, reading label references
/// out of the symbol table.
pub open spec fn operand_bytes(t: TokenModel, syms: Seq<SymbolModel>) -> Result<
    Seq<u8>,
    AsmErrorModel,
> {
    match t {
        TokenModel::Register(r) => Result::Ok(seq![r]),
        TokenModel::IntOperand(v) => Result::Ok(seq![imm_hi(v), imm_lo(v)]),
        TokenModel::LabelUsage(n) => match lookup_symbol(syms, n) {
            Option::Some(off) => Result::Ok(seq![offset_hi(off), offset_lo(off)]),
            Option::None => Result::Err(AsmErrorModel::UnknownLabel(n)),
        },
        _ => Result::Err(AsmErrorModel::BadOperand),
    }
}

/// The bytes an operand slot contributes: nothing when empty.
pub open spec fn slot_bytes(o: Option<TokenModel>, syms: Seq<SymbolModel>) -> Result<
    Seq<u8>,
    AsmErrorModel,
> {
    match o {
        Option::None => Result::Ok(Seq::empty()),
        Option::Some(t) => operand_bytes(t, syms),
    }
}

/// The bytes one record encodes to: the opcode's ordinal byte, then
/// each populated operand slot in declared order.
pub open spec fn instr_bytes(i: InstrModel, syms: Seq<SymbolModel>) -> Result<
    Seq<u8>,
    AsmErrorModel,
> {
    match i.opcode {
        Option::Some(TokenModel::Op(c)) => match slot_bytes(i.operand1, syms) {
            Result::Err(e) => Result::Err(e),
            Result::Ok(b1) => match slot_bytes(i.operand2, syms) {
                Result::Err(e) => Result::Err(e),
                Result::Ok(b2) => match slot_bytes(i.operand3, syms) {
                    Result::Err(e) => Result::Err(e),
                    Result::Ok(b3) => Result::Ok(seq![opcode_ordinal(c)] + b1 + b2 + b3),
                },
            },
        },
        _ => Result::Err(AsmErrorModel::MissingOpcode),
    }
}

impl AssemblerInstruction {
    /// The label this record declares, if any.
    pub fn label_name(&self) -> (r: Option<&str>)
        ensures
            match self@.label {
                Option::Some(TokenModel::LabelDecl(n)) => r is Some && r->0@ == n,
                _ => r is None,
            },
    {
        match &self.label {
            Some(Token::LabelDecl { name }) => Some(name.as_str()),
            _ => None,
        }
    }

    /// Append the bytes one operand token contributes, or report why
    /// it cannot contribute any.
    fn extract_operand(t: &Token, results: &mut Vec<u8>, symbols: &SymbolTable) -> (r: Result<
        (),
        AssembleError,
    >)
        ensures
            match operand_bytes(t@, symbols@) {
                Result::Ok(b) => r is Ok && final(results)@ == old(results)@ + b,
                Result::Err(e) => r is Err && r->Err_0@ == e && final(results)@ == old(results)@,
            },
    {
        match t {
            Token::Register { reg_num } => {
                results.push(*reg_num);
                proof {
                    assert(results@ =~= old(results)@ + seq![*reg_num]);
                }
                Ok(())
            },
            Token::IntOperand { value } => {
                let (hi, lo) = imm16_bytes(*value);
                results.push(hi);
                results.push(lo);
                proof {
                    assert(results@ =~= old(results)@ + seq![hi, lo]);
                }
                Ok(())
            },
            Token::LabelUsage { name } => match symbols.symbol_value(name.as_str()) {
                Some(v) => {
                    let hi = ((v / 256) % 256) as u8;
                    let lo = (v % 256) as u8;
                    results.push(hi);
                    results.push(lo);
                    proof {
                        assert(results@ =~= old(results)@ + seq![hi, lo]);
                    }
                    Ok(())
                },
                None => Err(AssembleError::UnknownLabel(name.clone())),
            },
            _ => Err(AssembleError::BadOperand),
        }
    }

    /// The bytes this record encodes to, with labels resolved through
    /// the given symbol table.
    pub fn as_bytes(&self, symbols: &SymbolTable) -> (r: Result<Vec<u8>, AssembleError>)
        ensures
            bytes_result_view(r) == instr_bytes(self@, symbols@),
    {
        let mut results: Vec<u8> = Vec::new();
        match &self.opcode {
            Some(Token::Op { code }) => {
                results.push(encode_opcode(*code));
            },
            _ => {
                return Err(AssembleError::MissingOpcode);
            },
        }
        proof {
            assert(results@ =~= seq![
                opcode_ordinal(self.opcode->0@->Op_0),
            ]);
        }
        if let Some(t) = &self.operand1 {
            if let Err(e) = Self::extract_operand(t, &mut results, symbols) {
                return Err(e);
            }
        }
        if let Some(t) = &self.operand2 {
            if let Err(e) = Self::extract_operand(t, &mut results, symbols) {
                return Err(e);
            }
        }
        if let Some(t) = &self.operand3 {
            if let Err(e) = Self::extract_operand(t, &mut results, symbols) {
                return Err(e);
            }
        }
        proof {
            let c = self.opcode->0@->Op_0;
            let b1 = slot_bytes(self@.operand1, symbols@)->Ok_0;
            let b2 = slot_bytes(self@.operand2, symbols@)->Ok_0;
            let b3 = slot_bytes(self@.operand3, symbols@)->Ok_0;
            assert(results@ =~= seq![opcode_ordinal(c)] + b1 + b2 + b3);
        }
        Ok(results)
    }
}

/// The bytes a whole record sequence emits, from position `k` on:
/// each record's bytes in order, stopping at the first failure.
pub open spec fn program_bytes_from(
    instrs: Seq<InstrModel>,
    syms: Seq<SymbolModel>,
    k: int,
) -> Result<Seq<u8>, AsmErrorModel>
    decreases instrs.len() - k,
{
    if k < 0 || k >= instrs.len() {
        Result::Ok(Seq::empty())
    } else {
        match instr_bytes(instrs[k], syms) {
            Result::Err(e) => Result::Err(e),
            Result::Ok(b) => match program_bytes_from(instrs, syms, k + 1) {
                Result::Err(e) => Result::Err(e),
                Result::Ok(rest) => Result::Ok(b + rest),
            },
        }
    }
}

impl Program {
    /// The bytes the whole program emits against a symbol table, in
    /// record order, or the first record's failure.
    pub fn to_bytes(&self, symbols: &SymbolTable) -> (r: Result<Vec<u8>, AssembleError>)
        ensures
            bytes_result_view(r) == program_bytes_from(self@, symbols@, 0),
    {
        let mut assembled: Vec<u8> = Vec::new();
        let n = self.instructions.len();
        let mut i: usize = 0;
        proof {
            assert(Seq::<u8>::empty() + program_bytes_from(self@, symbols@, 0)->Ok_0
                =~= program_bytes_from(self@, symbols@, 0)->Ok_0);
        }
        while i < n
            invariant
                n == self.instructions.len(),
                i <= n,
                match program_bytes_from(self@, symbols@, i as int) {
                    Result::Ok(rest) => program_bytes_from(self@, symbols@, 0) == Result::<
                        Seq<u8>,
                        AsmErrorModel,
                    >::Ok(assembled@ + rest),
                    Result::Err(e) => program_bytes_from(self@, symbols@, 0) == Result::<
                        Seq<u8>,
                        AsmErrorModel,
                    >::Err(e),
                },
            decreases n - i,
        {
            match self.instructions[i].as_bytes(symbols) {
                Ok(mut bytes) => {
                    proof {
                        let b = bytes@;
                        let rest2 = program_bytes_from(self@, symbols@, i + 1)->Ok_0;
                        assert((assembled@ + b) + rest2 =~= assembled@ + (b + rest2));
                    }
                    assembled.append(&mut bytes);
                },
                Err(e) => {
                    return Err(e);
                },
            }
            i = i + 1;
        }
        proof {
            assert(assembled@ + Seq::<u8>::empty() =~= assembled@);
        }
        Ok(assembled)
    }
}

/// Which phase of an assembly is under way; label extraction strictly
/// precedes code emission, and a fresh assembler starts in the first.
#[derive(Debug, PartialEq, Eq, Structural, Clone, Copy)]
pub enum AssemblerPhase {
    First,
    Second,
}

impl Default for AssemblerPhase {
    fn default() -> (r: Self)
        ensures
            r == AssemblerPhase::First,
    {
        AssemblerPhase::First
    }
}

/// The symbols one record contributes during label extraction, given
/// its position in the record sequence: its declared label, if any,
/// bound to a fixed four bytes per preceding record.
pub open spec fn record_syms(i: InstrModel, k: int) -> Seq<SymbolModel> {
    match i.label {
        Option::Some(TokenModel::LabelDecl(n)) => seq![
            SymbolModel { name: n, offset: (4 * k) as u32 },
        ],
        _ => Seq::empty(),
    }
}

/// Every symbol the first phase extracts from position `k` on, in
/// declaration order.
pub open spec fn phase1_syms(instrs: Seq<InstrModel>, k: int) -> Seq<SymbolModel>
    decreases instrs.len() - k,
{
    if k < 0 || k >= instrs.len() {
        Seq::empty()
    } else {
        record_syms(instrs[k], k) + phase1_syms(instrs, k + 1)
    }
}

/// The longest record sequence whose fixed-stride offsets all fit a
/// 32-bit symbol table entry.
pub const MAX_PROGRAM_RECORDS: usize = 0x3FFF_FFFF;

/// The two-phase assembler: one walk to bind every label to its
/// offset, a second walk to emit bytes with every label resolvable,
/// forward references included.
///
/// Duplicate declarations are not rejected; the first one wins, by
/// decision.  That holds across assemblies too: an interactive session
/// keeps one assembler, whose table accumulates run after run, so a
/// label declared in an earlier program keeps its binding.  A program
/// that should start from a clean table gets a fresh assembler.
#[derive(Debug)]
pub struct Assembler {
    pub phase: AssemblerPhase,
    pub symbols: SymbolTable,
}

impl Assembler {
    pub fn new() -> (r: Assembler)
        ensures
            r.phase == AssemblerPhase::First,
            r.symbols@ == Seq::<SymbolModel>::empty(),
    {
        Assembler { phase: AssemblerPhase::First, symbols: SymbolTable::new() }
    }

    /// Phase one: walk the records in order, binding each declared
    /// label to a running offset that advances a fixed four bytes per
    /// record.  The bindings are appended to whatever the table
    /// already holds, and earlier entries keep winning lookups.
    fn phase1_extract_labels(&mut self, p: &Program)
        requires
            p.instructions.len() <= MAX_PROGRAM_RECORDS,
        ensures
            final(self).symbols@ == old(self).symbols@ + phase1_syms(p@, 0),
            final(self).phase == old(self).phase,
    {
        let n = p.instructions.len();
        let mut c: u32 = 0;
        let mut i: usize = 0;
        proof {
            assert(old(self).symbols@ + phase1_syms(p@, 0) =~= self.symbols@ + phase1_syms(
                p@,
                0,
            ));
        }
        while i < n
            invariant
                n == p.instructions.len(),
                n <= MAX_PROGRAM_RECORDS,
                i <= n,
                c == 4 * i,
                self.phase == old(self).phase,
                old(self).symbols@ + phase1_syms(p@, 0) == self.symbols@ + phase1_syms(
                    p@,
                    i as int,
                ),
            decreases n - i,
        {
            let ghost syms_before = self.symbols@;
            match p.instructions[i].label_name() {
                Some(name) => {
                    let s = Symbol::new(name, SymbolType::Label, c);
                    self.symbols.add_symbol(s);
                    proof {
                        assert(self.symbols@ =~= syms_before + record_syms(p@[i as int], i as int));
                    }
                },
                None => {
                    proof {
                        assert(self.symbols@ =~= syms_before + record_syms(p@[i as int], i as int));
                    }
                },
            }
            proof {
                assert((syms_before + record_syms(p@[i as int], i as int)) + phase1_syms(
                    p@,
                    i + 1,
                ) =~= syms_before + (record_syms(p@[i as int], i as int) + phase1_syms(p@, i + 1)));
            }
            c = c + 4;
            i = i + 1;
        }
        proof {
            assert(self.symbols@ + phase1_syms(p@, n as int) =~= self.symbols@);
        }
    }

    /// Phase two: emit every record's bytes against the table phase
    /// one filled.
    fn phase2_process(&mut self, p: &Program) -> (r: Result<Vec<u8>, AssembleError>)
        ensures
            bytes_result_view(r) == program_bytes_from(p@, old(self).symbols@, 0),
            *final(self) == *old(self),
    {
        p.to_bytes(&self.symbols)
    }

    /// Assemble a whole source text: parse it into records, bind every
    /// label (phase one), then emit the binary code with every label
    /// resolvable (phase two).  Nothing partial is ever returned: a
    /// source with no instruction, an oversized program, and every
    /// emission failure each come back as their error.
    pub fn assemble(&mut self, raw: &str) -> (r: Result<Vec<u8>, AssembleError>)
        ensures
            bytes_result_view(r) == assemble_result(raw@, old(self).symbols@),
            ({
                let instrs = crate::parse::spec_parse_program(raw@, 0).0;
                if instrs.len() == 0 || instrs.len() > MAX_PROGRAM_RECORDS {
                    *final(self) == *old(self)
                } else {
                    final(self).symbols@ == old(self).symbols@ + phase1_syms(instrs, 0)
                        && final(self).phase == AssemblerPhase::Second
                }
            }),
    {
        match crate::parse::parse_program(raw) {
            None => Err(AssembleError::Parse),
            Some(p) => {
                if p.instructions.len() > MAX_PROGRAM_RECORDS {
                    return Err(AssembleError::TooLarge);
                }
                self.phase1_extract_labels(&p);
                self.phase = AssemblerPhase::Second;
                self.phase2_process(&p)
            },
        }
    }
}

/// What a whole assembly returns: the records scanned from the source,
/// their labels bound at four bytes per record, and the bytes emitted
/// against that table appended to whatever the table already held.
pub open spec fn assemble_result(src: Seq<char>, syms0: Seq<SymbolModel>) -> Result<
    Seq<u8>,
    AsmErrorModel,
> {
    let instrs = crate::parse::spec_parse_program(src, 0).0;
    if instrs.len() == 0 {
        Result::Err(AsmErrorModel::Parse)
    } else if instrs.len() > MAX_PROGRAM_RECORDS {
        Result::Err(AsmErrorModel::TooLarge)
    } else {
        program_bytes_from(instrs, syms0 + phase1_syms(instrs, 0), 0)
    }
}

/// How many bytes an operand slot contributes when emission succeeds:
/// one for a register, two for an integer literal or label reference.
pub open spec fn slot_size(o: Option<TokenModel>) -> int {
    match o {
        Option::Some(TokenModel::Register(_)) => 1,
        Option::Some(TokenModel::IntOperand(_)) => 2,
        Option::Some(TokenModel::LabelUsage(_)) => 2,
        _ => 0,
    }
}

/// A record that encodes at all encodes to exactly one opcode byte
/// plus the sizes of its populated operand slots.
pub proof fn lemma_record_bytes_length(i: InstrModel, syms: Seq<SymbolModel>)
    requires
        instr_bytes(i, syms) is Ok,
    ensures
        instr_bytes(i, syms)->Ok_0.len() == 1 + slot_size(i.operand1) + slot_size(i.operand2)
            + slot_size(i.operand3),
{
}

/// The four-byte stride: a record holding a register and an integer
/// literal, or three registers, always encodes to exactly four bytes,
/// whatever the symbol table holds.  (Not every record does: a bare
/// mnemonic such as `hlt` encodes to its opcode byte alone.)
pub proof fn lemma_four_byte_stride(i: InstrModel, syms: Seq<SymbolModel>)
    requires
        i.opcode matches Option::Some(TokenModel::Op(_)),
        (i.operand1 matches Option::Some(TokenModel::Register(_)) && i.operand2 matches
            Option::Some(TokenModel::IntOperand(_)) && i.operand3 is None) || (
        i.operand1 matches Option::Some(TokenModel::Register(_)) && i.operand2 matches
            Option::Some(TokenModel::Register(_)) && i.operand3 matches Option::Some(
            TokenModel::Register(_),
        )),
    ensures
        instr_bytes(i, syms) is Ok,
        instr_bytes(i, syms)->Ok_0.len() == 4,
{
    lemma_record_bytes_length(i, syms);
}

/// Whether a record declares the given label name.
pub open spec fn declares_label(i: InstrModel, name: Seq<char>) -> bool {
    match i.label {
        Option::Some(TokenModel::LabelDecl(n)) => n == name,
        _ => false,
    }
}

proof fn lemma_lookup_shift(x: SymbolModel, rest: Seq<SymbolModel>, name: Seq<char>, i: int)
    requires
        i >= 0,
    ensures
        lookup_from(seq![x] + rest, name, i + 1) == lookup_from(rest, name, i),
    decreases rest.len() - i,
{
    if i < rest.len() {
        assert((seq![x] + rest)[i + 1] == rest[i]);
        lemma_lookup_shift(x, rest, name, i + 1);
    }
}

proof fn lemma_phase1_first_decl(instrs: Seq<InstrModel>, j: int, k: int, name: Seq<char>)
    requires
        instrs.len() <= MAX_PROGRAM_RECORDS,
        0 <= j <= k < instrs.len(),
        declares_label(instrs[k], name),
        forall|m: int| j <= m < k ==> !declares_label(instrs[m], name),
    ensures
        lookup_symbol(phase1_syms(instrs, j), name) == Option::Some((4 * k) as u32),
    decreases k - j,
{
    let rest = phase1_syms(instrs, j + 1);
    if j == k {
        let x = SymbolModel { name, offset: (4 * k) as u32 };
        assert(phase1_syms(instrs, j) == seq![x] + rest);
        assert((seq![x] + rest)[0] == x);
    } else {
        lemma_phase1_first_decl(instrs, j + 1, k, name);
        match instrs[j].label {
            Option::Some(TokenModel::LabelDecl(n)) => {
                let x = SymbolModel { name: n, offset: (4 * j) as u32 };
                assert(phase1_syms(instrs, j) == seq![x] + rest);
                assert((seq![x] + rest)[0] == x);
                assert(n != name);
                lemma_lookup_shift(x, rest, name, 0);
            },
            _ => {
                assert(phase1_syms(instrs, j) =~= rest);
            },
        }
    }
}

/// Two-phase label resolution: a label reference emits the offset the
/// first phase bound to the name's first declaration, four bytes per
/// preceding record — and nothing else enters, so a forward reference
/// (used before declared) and a backward one to the same declaration
/// emit the same two bytes.  The whole table is built before any byte
/// is emitted.
pub proof fn lemma_two_phase_resolution(instrs: Seq<InstrModel>, k: int, name: Seq<char>)
    requires
        instrs.len() <= MAX_PROGRAM_RECORDS,
        0 <= k < instrs.len(),
        declares_label(instrs[k], name),
        forall|m: int| 0 <= m < k ==> !declares_label(instrs[m], name),
    ensures
        operand_bytes(TokenModel::LabelUsage(name), phase1_syms(instrs, 0)) == Result::<
            Seq<u8>,
            AsmErrorModel,
        >::Ok(seq![offset_hi((4 * k) as u32), offset_lo((4 * k) as u32)]),
{
    lemma_phase1_first_decl(instrs, 0, k, name);
}

/// The LOAD round trip: executing the bytes a LOAD record encodes to
/// puts the record's own literal into the record's own register, and
/// the machine carries on past the four bytes.
pub proof fn lemma_load_round_trip(
    i: InstrModel,
    syms: Seq<SymbolModel>,
    m: VmState,
    r: u8,
    v: i32,
)
    requires
        r < 32,
        0 <= v <= 0xFFFF,
        i.opcode == Option::Some(TokenModel::Op(Opcode::LOAD)),
        i.operand1 == Option::Some(TokenModel::Register(r)),
        i.operand2 == Option::Some(TokenModel::IntOperand(v)),
        i.operand3 == Option::<TokenModel>::None,
        m.prog == instr_bytes(i, syms)->Ok_0,
        m.pc == 0,
        m.regs.len() == 32,
    ensures
        step(m) == (with_reg(with_pc(m, 4), r as int, v), true),
{
    let bytes = instr_bytes(i, syms)->Ok_0;
    assert(bytes =~= seq![0u8, r, imm_hi(v), imm_lo(v)]);
    assert(imm_low16(v) == v);
    lemma_fundamental_div_mod(v as int, 256);
    assert(imm_hi(v) * 256 + imm_lo(v) == v);
}

} // verus!
