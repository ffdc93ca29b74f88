use iridium::assembler::{AssemblerInstruction, SymbolTable, Token};
use iridium::instruction::Opcode;
use iridium::parse::{
    parse_directive_declaration, parse_directive_entry, parse_instruction,
    parse_integer_operand, parse_label_declaration, parse_label_usage, parse_opcode,
    parse_program, parse_register,
};
use iridium::repl::REPL;

#[test]
fn test_parse_register() {
    let result = parse_register("$0", 0);
    assert_eq!(result.is_some(), true);
    let result = parse_register("$19", 0);
    assert_eq!(result.is_some(), true);
    assert_eq!(result.unwrap().0, Token::Register { reg_num: 19 });
    let result = parse_register("0", 0);
    assert_eq!(result.is_some(), false);
    let result = parse_register("$a", 0);
    assert_eq!(result.is_some(), false);
    let result = parse_register("$", 0);
    assert_eq!(result.is_some(), false);
}

#[test]
fn test_parse_integer_operand() {
    let result = parse_integer_operand("#10", 0);
    assert!(result.is_some());
    let (value, rest) = result.unwrap();
    assert_eq!(rest, 3);
    assert_eq!(value, Token::IntOperand { value: 10 });

    let result = parse_integer_operand("10", 0);
    assert_eq!(result.is_some(), false);
}

#[test]
fn test_parse_label_declaration() {
    let result = parse_label_declaration("test:", 0);
    assert_eq!(result.is_some(), true);
    let (token, _) = result.unwrap();
    assert_eq!(token, Token::LabelDecl { name: "test".to_string() });
    let result = parse_label_declaration("test", 0);
    assert_eq!(result.is_some(), false);
}

#[test]
fn test_parse_label_usage() {
    let result = parse_label_usage("@test", 0);
    assert_eq!(result.is_some(), true);
    let (token, _) = result.unwrap();
    assert_eq!(token, Token::LabelUsage { name: "test".to_string() });
    let result = parse_label_usage("test", 0);
    assert_eq!(result.is_some(), false);
}

#[test]
fn test_opcode() {
    let result = parse_opcode("load", 0);
    assert_eq!(result.is_some(), true);
    let (token, rest) = result.unwrap();
    assert_eq!(token, Token::Op { code: Opcode::LOAD });
    assert_eq!(rest, 4);
    let result = parse_opcode("aold", 0);
    let (token, _) = result.unwrap();
    assert_eq!(token, Token::Op { code: Opcode::IGL });
}

#[test]
fn test_parse_instruction_2() {
    let result = parse_instruction("load $0 #100\n", 0);
    assert_eq!(
        result.unwrap().0,
        AssemblerInstruction {
            label: None,
            directive: None,
            opcode: Some(Token::Op { code: Opcode::LOAD }),
            operand1: Some(Token::Register { reg_num: 0 }),
            operand2: Some(Token::IntOperand { value: 100 }),
            operand3: None,
        }
    );
}

#[test]
fn test_parse_instruction_0() {
    let result = parse_instruction("hlt\n", 0);
    assert_eq!(
        result.unwrap().0,
        AssemblerInstruction {
            label: None,
            directive: None,
            opcode: Some(Token::Op { code: Opcode::HLT }),
            operand1: None,
            operand2: None,
            operand3: None,
        }
    );
}

#[test]
fn test_parse_program() {
    let result = parse_program("load $0 #100\n");
    assert!(result.is_some());
    let p = result.unwrap();
    assert_eq!(1, p.instructions.len());
}

#[test]
fn test_program_to_bytes() {
    let result = parse_program("load $0 #100\n");
    assert!(result.is_some());
    let program = result.unwrap();
    let symbols = SymbolTable::new();
    let bytecode = program.to_bytes(&symbols).unwrap();
    assert_eq!(bytecode.len(), 4);
    println!("{:?}", bytecode);
}

#[test]
fn test_parser_directive() {
    let result = parse_directive_declaration(".data", 0);
    assert_eq!(result.is_some(), true);
    let (directive, _) = result.unwrap();
    assert_eq!(directive, Token::Directive { name: "data".to_string() })
}

#[test]
fn test_string_directive() {
    let result = parse_directive_entry("test: .asciiz 'Hello'", 0);
    assert_eq!(result.is_some(), true);
    let (directive, _) = result.unwrap();

    let correct_instruction = AssemblerInstruction {
        opcode: None,
        label: Some(Token::LabelDecl { name: "test".to_string() }),
        directive: Some(Token::Directive { name: "asciiz".to_string() }),
        operand1: Some(Token::IrString { name: "Hello".to_string() }),
        operand2: None,
        operand3: None,
    };

    assert_eq!(directive, correct_instruction);
}

#[test]
fn test_parse_program_with_labels() {
    let result = parse_program("one: hlt\ntwo: jmpe @one\n");
    assert!(result.is_some());
    let p = result.unwrap();
    assert_eq!(p.instructions.len(), 2);
    assert_eq!(
        p.instructions[1].label,
        Some(Token::LabelDecl { name: "two".to_string() })
    );
    assert_eq!(
        p.instructions[1].operand1,
        Some(Token::LabelUsage { name: "one".to_string() })
    );
}

#[test]
fn test_parse_program_rejects_non_instructions() {
    assert!(parse_program("").is_none());
    assert!(parse_program("   ").is_none());
    assert!(parse_program("%%%").is_none());
}

#[test]
fn test_register_number_must_fit_one_byte() {
    assert!(parse_register("$255", 0).is_some());
    assert!(parse_register("$256", 0).is_none());
    assert!(parse_register("$999999999999999999999999", 0).is_none());
}

#[test]
fn test_integer_literal_must_fit_i32() {
    assert!(parse_integer_operand("#2147483647", 0).is_some());
    assert!(parse_integer_operand("#2147483648", 0).is_none());
}

#[test]
fn test_parse_hex() {
    let mut repl = REPL::new();
    assert_eq!(repl.parse_hex("00 01 ff"), vec![0, 1, 255]);
    assert_eq!(repl.parse_hex("00 1F zz FF"), vec![0, 31, 255]);
    assert_eq!(repl.parse_hex("zz 10 A0"), vec![16, 160]);
    assert_eq!(repl.parse_hex("1ff"), Vec::<u8>::new());
    assert_eq!(repl.parse_hex(""), Vec::<u8>::new());
    assert_eq!(repl.parse_hex("0f  2"), vec![15, 2]);
    assert_eq!(repl.parse_hex("+1f +"), vec![31]);
    assert_eq!(repl.parse_hex("++1"), Vec::<u8>::new());
}

#[test]
fn test_repl_new_starts_empty() {
    let repl = REPL::new();
    assert_eq!(repl.command_buffer.len(), 0);
    assert_eq!(repl.vm.program.len(), 0);
    assert_eq!(repl.assembler.symbols.symbols.len(), 0);
}
