use iridium::assembler::{
    AssembleError, Assembler, AssemblerInstruction, AssemblerPhase, Symbol, SymbolTable,
    SymbolType, Token,
};
use iridium::instruction::Opcode;
use iridium::vm::VM;

#[test]
fn test_symbol_table() {
    let mut sym = SymbolTable::new();
    let new_symbol = Symbol::new("test", SymbolType::Label, 12);
    sym.add_symbol(new_symbol);
    assert_eq!(sym.symbols.len(), 1);
    let v = sym.symbol_value("test");
    assert_eq!(true, v.is_some());
    let v = v.unwrap();
    assert_eq!(v, 12);
    let v = sym.symbol_value("does_not_exist");
    assert_eq!(v.is_some(), false);
}

#[test]
fn test_assemble_program() {
    let mut assembler = Assembler::new();
    let test_string =
        "load $0 #100\nload $1 #1\nload $2 #0\ntest: inc $0\nneq $0 $2\njmpe @test\nhlt";
    let program = assembler.assemble(test_string).unwrap();
    let mut vm = VM::new();
    assert_eq!(program.len(), 21);
    vm.add_bytes(program);
    assert_eq!(vm.program.len(), 21);
}

#[test]
fn test_symbol_table_first_match_wins() {
    let mut sym = SymbolTable::new();
    sym.add_symbol(Symbol::new("twice", SymbolType::Label, 4));
    sym.add_symbol(Symbol::new("twice", SymbolType::Label, 8));
    assert_eq!(sym.symbol_value("twice"), Some(4));
}

#[test]
fn test_assembler_phases() {
    let mut assembler = Assembler::new();
    assert_eq!(assembler.phase, AssemblerPhase::First);
    assembler.assemble("hlt").unwrap();
    assert_eq!(assembler.phase, AssemblerPhase::Second);
    assert_eq!(assembler.symbols.symbols.len(), 0);
}

#[test]
fn test_assemble_records_labels() {
    let mut assembler = Assembler::new();
    assembler.assemble("start: load $0 #1\nmiddle: hlt\nend: hlt").unwrap();
    assert_eq!(assembler.symbols.symbol_value("start"), Some(0));
    assert_eq!(assembler.symbols.symbol_value("middle"), Some(4));
    assert_eq!(assembler.symbols.symbol_value("end"), Some(8));
}

#[test]
fn test_assemble_empty_source_is_parse_error() {
    let mut assembler = Assembler::new();
    assert_eq!(assembler.assemble(""), Err(AssembleError::Parse));
    let mut second = Assembler::new();
    assert_eq!(second.assemble("%%%"), Err(AssembleError::Parse));
}

#[test]
fn test_assemble_unknown_label_is_reported() {
    let mut assembler = Assembler::new();
    assert_eq!(
        assembler.assemble("jmpe @nowhere"),
        Err(AssembleError::UnknownLabel("nowhere".to_string()))
    );
}

#[test]
fn test_record_without_opcode_is_reported() {
    let record = AssemblerInstruction {
        label: None,
        directive: None,
        opcode: None,
        operand1: None,
        operand2: None,
        operand3: None,
    };
    let symbols = SymbolTable::new();
    assert_eq!(record.as_bytes(&symbols), Err(AssembleError::MissingOpcode));

    let record = AssemblerInstruction {
        label: None,
        directive: None,
        opcode: Some(Token::Register { reg_num: 0 }),
        operand1: None,
        operand2: None,
        operand3: None,
    };
    assert_eq!(record.as_bytes(&symbols), Err(AssembleError::MissingOpcode));
}

#[test]
fn test_opcode_in_operand_slot_is_reported() {
    let record = AssemblerInstruction {
        label: None,
        directive: None,
        opcode: Some(Token::Op { code: Opcode::LOAD }),
        operand1: Some(Token::Op { code: Opcode::HLT }),
        operand2: None,
        operand3: None,
    };
    let symbols = SymbolTable::new();
    assert_eq!(record.as_bytes(&symbols), Err(AssembleError::BadOperand));
}

#[test]
fn test_load_record_encodes_to_four_bytes() {
    let record = AssemblerInstruction {
        label: None,
        directive: None,
        opcode: Some(Token::Op { code: Opcode::LOAD }),
        operand1: Some(Token::Register { reg_num: 7 }),
        operand2: Some(Token::IntOperand { value: 1000 }),
        operand3: None,
    };
    let symbols = SymbolTable::new();
    let bytes = record.as_bytes(&symbols).unwrap();
    assert_eq!(bytes, vec![0, 7, 3, 232]);
}

#[test]
fn test_three_register_record_encodes_to_four_bytes() {
    let record = AssemblerInstruction {
        label: None,
        directive: None,
        opcode: Some(Token::Op { code: Opcode::ADD }),
        operand1: Some(Token::Register { reg_num: 0 }),
        operand2: Some(Token::Register { reg_num: 1 }),
        operand3: Some(Token::Register { reg_num: 2 }),
    };
    let symbols = SymbolTable::new();
    let bytes = record.as_bytes(&symbols).unwrap();
    assert_eq!(bytes, vec![1, 0, 1, 2]);
}

#[test]
fn test_bare_mnemonic_encodes_to_one_byte() {
    let record = AssemblerInstruction {
        label: None,
        directive: None,
        opcode: Some(Token::Op { code: Opcode::HLT }),
        operand1: None,
        operand2: None,
        operand3: None,
    };
    let symbols = SymbolTable::new();
    assert_eq!(record.as_bytes(&symbols).unwrap(), vec![5]);
}

#[test]
fn test_integer_operand_keeps_low_sixteen_bits() {
    let record = AssemblerInstruction {
        label: None,
        directive: None,
        opcode: Some(Token::Op { code: Opcode::LOAD }),
        operand1: Some(Token::Register { reg_num: 0 }),
        operand2: Some(Token::IntOperand { value: 65536 + 500 }),
        operand3: None,
    };
    let symbols = SymbolTable::new();
    assert_eq!(record.as_bytes(&symbols).unwrap(), vec![0, 0, 1, 244]);
}

#[test]
fn test_load_round_trip() {
    let mut assembler = Assembler::new();
    let bytecode = assembler.assemble("load $0 #100").unwrap();
    assert_eq!(bytecode, vec![0, 0, 0, 100]);
    let mut vm = VM::new();
    vm.add_bytes(bytecode);
    vm.run();
    assert_eq!(vm.registers[0], 100);
}

#[test]
fn test_forward_and_backward_references_resolve_alike() {
    // The label sits at record index 2 in both programs, so the
    // reference emits offset 8 whether it comes before or after the
    // declaration.
    let mut forward = Assembler::new();
    let fw = forward.assemble("jmpe @spot\nhlt\nspot: hlt").unwrap();
    assert_eq!(fw, vec![15, 0, 8, 5, 5]);

    let mut backward = Assembler::new();
    let bw = backward.assemble("hlt\nhlt\nspot: hlt\njmpe @spot").unwrap();
    assert_eq!(bw, vec![5, 5, 5, 15, 0, 8]);

    assert_eq!(fw[1..3], bw[4..6]);
}

#[test]
fn test_end_to_end_scenario() {
    let source =
        "load $0 #100\nload $1 #1\nload $2 #0\ntest: inc $0\nneq $0 $2\njmpe @test\nhlt";
    let mut assembler = Assembler::new();
    let bytecode = assembler.assemble(source).unwrap();
    assert_eq!(bytecode.len(), 21);

    let mut vm = VM::new();
    vm.add_bytes(bytecode.clone());
    vm.run();
    // The increment runs once; the comparison's discard byte then
    // swallows the jump opcode in the unpadded stream, so the machine
    // stops at the truncated tail instead of looping.
    assert_eq!(vm.registers[0], 101);
    assert_eq!(vm.registers[1], 1);
    assert_eq!(vm.registers[2], 0);
    assert_eq!(vm.equal_flag, true);
    assert_eq!(vm.pc, 19);

    // Deterministic: a second machine on the same bytes lands in the
    // same state.
    let mut again = VM::new();
    again.add_bytes(bytecode);
    again.run();
    assert_eq!(again.registers[0], vm.registers[0]);
    assert_eq!(again.pc, vm.pc);
    assert_eq!(again.equal_flag, vm.equal_flag);
}

#[test]
fn test_assembler_accumulates_symbols_across_runs() {
    let mut assembler = Assembler::new();
    assembler.assemble("one: hlt").unwrap();
    assembler.assemble("two: hlt").unwrap();
    assert_eq!(assembler.symbols.symbol_value("one"), Some(0));
    assert_eq!(assembler.symbols.symbol_value("two"), Some(0));
    assert_eq!(assembler.symbols.symbols.len(), 2);
}
