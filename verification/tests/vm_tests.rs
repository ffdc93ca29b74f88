use iridium::vm::VM;

#[test]
fn test_opcode_eq() {
    let mut test_vm = VM::get_test_vm();
    test_vm.program = vec![9, 0, 1, 0, 9, 0, 1, 0];

    test_vm.registers[0] = 10;
    test_vm.registers[1] = 10;
    test_vm.run_once();
    assert_eq!(test_vm.equal_flag, true);

    test_vm.registers[1] = 23;
    test_vm.run_once();
    assert_eq!(test_vm.equal_flag, false);
}

#[test]
fn test_opcode_neq() {
    let mut test_vm = VM::get_test_vm();
    test_vm.program = vec![10, 0, 1, 0, 10, 0, 1, 0];

    test_vm.registers[0] = 10;
    test_vm.registers[1] = 10;
    test_vm.run_once();
    assert_eq!(test_vm.equal_flag, false);

    test_vm.registers[1] = 23;
    test_vm.run_once();
    assert_eq!(test_vm.equal_flag, true);
}

#[test]
fn test_opcode_gte() {
    let mut test_vm = VM::get_test_vm();
    test_vm.program = vec![11, 0, 1, 0, 11, 0, 1, 0, 11, 0, 1, 0];

    test_vm.registers[0] = 10;
    test_vm.registers[1] = 10;
    test_vm.run_once();
    assert_eq!(test_vm.equal_flag, true);

    test_vm.registers[0] = 11;
    test_vm.registers[1] = 10;
    test_vm.run_once();
    assert_eq!(test_vm.equal_flag, true);

    test_vm.registers[0] = 11;
    test_vm.registers[1] = 23;
    test_vm.run_once();
    assert_eq!(test_vm.equal_flag, false);
}

#[test]
fn test_opcode_lte() {
    let mut test_vm = VM::get_test_vm();
    test_vm.program = vec![12, 0, 1, 0, 12, 0, 1, 0, 12, 0, 1, 0];

    test_vm.registers[0] = 10;
    test_vm.registers[1] = 10;
    test_vm.run_once();
    assert_eq!(test_vm.equal_flag, true);

    test_vm.registers[0] = 11;
    test_vm.registers[1] = 10;
    test_vm.run_once();
    assert_eq!(test_vm.equal_flag, false);

    test_vm.registers[0] = 11;
    test_vm.registers[1] = 23;
    test_vm.run_once();
    assert_eq!(test_vm.equal_flag, true);
}

#[test]
fn test_opcode_lt() {
    let mut test_vm = VM::get_test_vm();
    test_vm.program = vec![13, 0, 1, 0, 13, 0, 1, 0];

    test_vm.registers[0] = 10;
    test_vm.registers[1] = 10;
    test_vm.run_once();
    assert_eq!(test_vm.equal_flag, false);

    test_vm.registers[0] = 7;
    test_vm.run_once();
    assert_eq!(test_vm.equal_flag, true);
}

#[test]
fn test_opcode_gt() {
    let mut test_vm = VM::get_test_vm();
    test_vm.program = vec![13, 0, 1, 0, 13, 0, 1, 0];

    test_vm.registers[0] = 10;
    test_vm.registers[1] = 10;
    test_vm.run_once();
    assert_eq!(test_vm.equal_flag, false);

    test_vm.registers[0] = 17;
    test_vm.run_once();
    assert_eq!(test_vm.equal_flag, false);
}

#[test]
fn test_opcode_jmpe() {
    let mut test_vm = VM::get_test_vm();
    test_vm.registers[0] = 7;
    test_vm.equal_flag = true;
    test_vm.program = vec![15, 0, 0, 0, 42, 0, 0, 0, 99, 0, 0, 0];
    test_vm.run_once();
    assert_eq!(test_vm.pc, 7);
}

#[test]
fn test_opcode_jmp() {
    let mut test_vm = VM::get_test_vm();
    test_vm.registers[0] = 4;
    test_vm.program = vec![6, 0, 0, 0];
    test_vm.run_once();
    assert_eq!(test_vm.pc, 4);
}

#[test]
fn test_opcode_jmpf() {
    let mut test_vm = VM::get_test_vm();
    test_vm.registers[0] = 2;
    test_vm.program = vec![7, 0, 0, 0, 5, 0, 0, 0];
    test_vm.run_once();
    assert_eq!(test_vm.pc, 4);
}

#[test]
fn test_opcode_jmpb() {
    let mut test_vm = VM::get_test_vm();
    test_vm.registers[1] = 6;
    test_vm.program = vec![0, 0, 0, 10, 8, 1, 0, 0];
    test_vm.run_once();
    test_vm.run_once();
    assert_eq!(test_vm.pc, 0);
}

#[test]
fn test_opcode_add() {
    let mut test_vm = VM::get_test_vm();
    test_vm.program = vec![1, 0, 1, 2];
    test_vm.run_once();
    assert_eq!(test_vm.registers[2], 15);
}

#[test]
fn test_opcode_sub() {
    let mut test_vm = VM::get_test_vm();
    test_vm.program = vec![2, 0, 1, 2];
    test_vm.registers[0] = 50;
    test_vm.registers[1] = 5;
    test_vm.run_once();
    assert_eq!(test_vm.registers[2], 45);
}

#[test]
fn test_opcode_mul() {
    let mut test_vm = VM::get_test_vm();
    test_vm.program = vec![3, 0, 1, 2];
    test_vm.registers[0] = 50;
    test_vm.registers[1] = 5;
    test_vm.run_once();
    assert_eq!(test_vm.registers[2], 250);
}

#[test]
fn test_opcode_div() {
    let mut test_vm = VM::get_test_vm();
    test_vm.program = vec![4, 0, 1, 2];
    test_vm.registers[0] = 50;
    test_vm.registers[1] = 5;
    test_vm.run_once();
    assert_eq!(test_vm.registers[2], 10);
}

#[test]
fn test_opcode_load() {
    let mut test_vm = VM::new();
    test_vm.program = vec![0, 0, 1, 244];
    test_vm.run();
    assert_eq!(test_vm.registers[0], 500);
}

#[test]
fn test_opcode_hlt() {
    let mut test_vm = VM::new();
    let test_bytes = vec![5, 0, 0, 0];
    test_vm.program = test_bytes;
    test_vm.run();
    assert_eq!(test_vm.pc, 1);
}

#[test]
fn test_opcode_igl() {
    let mut test_vm = VM::new();
    let test_bytes = vec![200, 0, 0, 0];
    test_vm.program = test_bytes;
    test_vm.run();
    assert_eq!(test_vm.pc, 1);
}

#[test]
fn test_create_vm() {
    let test_vm = VM::new();
    assert_eq!(test_vm.registers[31], 0);
    assert_eq!(test_vm.program, vec![]);
    assert_eq!(test_vm.pc, 0);
    assert_eq!(test_vm.remainder, 0);
    assert_eq!(test_vm.equal_flag, false);
}

#[test]
fn test_div_sets_remainder() {
    let mut test_vm = VM::new();
    test_vm.program = vec![4, 0, 1, 2];
    test_vm.registers[0] = 53;
    test_vm.registers[1] = 5;
    test_vm.run_once();
    assert_eq!(test_vm.registers[2], 10);
    assert_eq!(test_vm.remainder, 3);
}

#[test]
fn test_div_by_zero_halts_cleanly() {
    let mut test_vm = VM::new();
    test_vm.program = vec![4, 0, 1, 2, 5, 0, 0, 0];
    test_vm.registers[0] = 9;
    test_vm.registers[1] = 0;
    let cont = test_vm.run_once();
    assert!(!cont);
    assert_eq!(test_vm.registers[2], 0);
    assert_eq!(test_vm.pc, 4);
}

#[test]
fn test_register_index_out_of_range_halts_cleanly() {
    let mut test_vm = VM::new();
    test_vm.program = vec![0, 77, 0, 5];
    let cont = test_vm.run_once();
    assert!(!cont);
    assert_eq!(test_vm.pc, 4);
    for i in 0..32 {
        assert_eq!(test_vm.registers[i], 0);
    }
}

#[test]
fn test_jmpb_underflow_halts_cleanly() {
    let mut test_vm = VM::new();
    test_vm.program = vec![8, 0, 0, 0];
    test_vm.registers[0] = 100;
    let cont = test_vm.run_once();
    assert!(!cont);
    assert_eq!(test_vm.pc, 2);
}

#[test]
fn test_opcode_inc() {
    let mut test_vm = VM::new();
    test_vm.program = vec![17, 3, 17, 3];
    test_vm.registers[3] = 41;
    test_vm.run_once();
    test_vm.run_once();
    assert_eq!(test_vm.registers[3], 43);
    assert_eq!(test_vm.pc, 4);
}

#[test]
fn test_opcode_aloc_is_a_placeholder() {
    let mut test_vm = VM::get_test_vm();
    test_vm.program = vec![16, 0];
    let cont = test_vm.run_once();
    assert!(cont);
    assert_eq!(test_vm.pc, 2);
    assert_eq!(test_vm.registers[0], 5);
}

#[test]
fn test_jmpe_consumes_operand_when_flag_down() {
    let mut test_vm = VM::get_test_vm();
    test_vm.equal_flag = false;
    test_vm.registers[0] = 9;
    test_vm.program = vec![15, 0, 5, 0];
    let cont = test_vm.run_once();
    assert!(cont);
    assert_eq!(test_vm.pc, 2);
}

#[test]
fn test_comparison_then_conditional_jump() {
    let mut test_vm = VM::new();
    test_vm.registers[0] = 7;
    test_vm.registers[1] = 7;
    test_vm.program = vec![9, 0, 1, 0, 15, 0, 0, 0];
    test_vm.run_once();
    assert_eq!(test_vm.equal_flag, true);
    test_vm.run_once();
    assert_eq!(test_vm.pc, 7);
}

#[test]
fn test_inspection_reads_do_not_mutate() {
    let mut test_vm = VM::get_test_vm();
    test_vm.program = vec![9, 0, 1, 0];
    test_vm.pc = 3;
    test_vm.remainder = 8;
    test_vm.equal_flag = true;

    let regs_seen = *test_vm.register_file();
    let prog_seen = test_vm.program_buffer().clone();
    let pc_seen = test_vm.current_pc();
    let flag_seen = test_vm.comparison_flag();

    assert_eq!(regs_seen, test_vm.registers);
    assert_eq!(prog_seen, test_vm.program);
    assert_eq!(pc_seen, 3);
    assert_eq!(flag_seen, true);
    assert_eq!(test_vm.registers[0], 5);
    assert_eq!(test_vm.registers[1], 10);
    assert_eq!(test_vm.program, vec![9, 0, 1, 0]);
    assert_eq!(test_vm.pc, 3);
    assert_eq!(test_vm.remainder, 8);
    assert_eq!(test_vm.equal_flag, true);
}

#[test]
fn test_run_to_end_of_program() {
    let mut test_vm = VM::new();
    test_vm.program = vec![0, 0, 0, 10, 0, 1, 0, 20];
    test_vm.run();
    assert_eq!(test_vm.registers[0], 10);
    assert_eq!(test_vm.registers[1], 20);
    assert_eq!(test_vm.pc, 8);
}
