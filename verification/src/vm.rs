//! The virtual machine: a register file, a program buffer, a program
//! counter, a remainder register and a comparison flag, driven by a
//! fetch-decode-execute cycle.
//!
//! The whole cycle is described by the spec function [`step`], which is
//! total: where a naive interpreter would run off the ends of a value
//! (operand bytes missing, a register index past the file,
//! division by zero, an arithmetic overflow, a jump to a negative
//! offset or one underflowing the counter), the machine instead stops
//! cleanly with its state left inspectable, the opcode byte and any
//! consumed operand bytes reflected in the counter.
use crate::instruction::{byte_opcode, Opcode};
use crate::instruction::decode_byte;
use vstd::prelude::*;

verus! {

broadcast use vstd::std_specs::vec::axiom_spec_len;

/// The abstract machine state the contracts speak of: the register
/// file, the loaded program, the program counter as a byte offset, the
/// remainder set by DIV, and the equality flag set by the comparisons.
pub struct VmState {
    pub regs: Seq<i32>,
    pub prog: Seq<u8>,
    pub pc: nat,
    pub remainder: u32,
    pub flag: bool,
}

/// The same state with the counter moved.
pub open spec fn with_pc(m: VmState, pc: nat) -> VmState {
    VmState { pc, ..m }
}

/// The same state with one register overwritten.
pub open spec fn with_reg(m: VmState, r: int, v: i32) -> VmState {
    VmState { regs: m.regs.update(r, v), ..m }
}

/// A signed value reinterpreted as the unsigned 32-bit word with the
/// same two's-complement bits.
pub open spec fn wrap_u32(x: i32) -> u32 {
    if x >= 0 {
        x as u32
    } else {
        (x + 0x1_0000_0000) as u32
    }
}

/// One LOAD: a register byte, then a big-endian 16-bit immediate that
/// is zero-extended into the register.
pub open spec fn step_load(m: VmState, p1: nat) -> (VmState, bool) {
    if p1 + 3 > m.prog.len() {
        (with_pc(m, p1), false)
    } else {
        let r = m.prog[p1 as int];
        let hi = m.prog[p1 as int + 1];
        let lo = m.prog[p1 as int + 2];
        let m2 = with_pc(m, (p1 + 3) as nat);
        if r < 32 {
            (with_reg(m2, r as int, (hi * 256 + lo) as i32), true)
        } else {
            (m2, false)
        }
    }
}

/// One ADD, SUB, MUL or DIV: three register bytes, destination last.
/// DIV also stores the truncating remainder, reinterpreted unsigned.
pub open spec fn step_arith(m: VmState, p1: nat, op: Opcode) -> (VmState, bool) {
    if p1 + 3 > m.prog.len() {
        (with_pc(m, p1), false)
    } else {
        let i1 = m.prog[p1 as int];
        let i2 = m.prog[p1 as int + 1];
        let i3 = m.prog[p1 as int + 2];
        let m2 = with_pc(m, (p1 + 3) as nat);
        if i1 < 32 && i2 < 32 && i3 < 32 {
            let a = m.regs[i1 as int];
            let b = m.regs[i2 as int];
            match op {
                Opcode::ADD => match a.checked_add(b) {
                    Some(v) => (with_reg(m2, i3 as int, v), true),
                    None => (m2, false),
                },
                Opcode::SUB => match a.checked_sub(b) {
                    Some(v) => (with_reg(m2, i3 as int, v), true),
                    None => (m2, false),
                },
                Opcode::MUL => match a.checked_mul(b) {
                    Some(v) => (with_reg(m2, i3 as int, v), true),
                    None => (m2, false),
                },
                Opcode::DIV => match (a.checked_div(b), a.checked_rem(b)) {
                    (Some(q), Some(rm)) => (
                        VmState {
                            regs: m2.regs.update(i3 as int, q),
                            remainder: wrap_u32(rm),
                            ..m2
                        },
                        true,
                    ),
                    _ => (m2, false),
                },
                _ => (m2, false),
            }
        } else {
            (m2, false)
        }
    }
}

/// The outcome of one comparison opcode on two register values.
pub open spec fn compare_values(op: Opcode, a: i32, b: i32) -> bool {
    match op {
        Opcode::EQ => a == b,
        Opcode::NEQ => a != b,
        Opcode::GTE => a >= b,
        Opcode::LTE => a <= b,
        Opcode::LT => a < b,
        Opcode::GT => a > b,
        _ => false,
    }
}

/// One comparison: two register bytes, then one trailing byte that is
/// consumed and discarded.  Sets the equality flag.
pub open spec fn step_cmp(m: VmState, p1: nat, op: Opcode) -> (VmState, bool) {
    if p1 + 3 > m.prog.len() {
        (with_pc(m, p1), false)
    } else {
        let i1 = m.prog[p1 as int];
        let i2 = m.prog[p1 as int + 1];
        let m2 = with_pc(m, (p1 + 3) as nat);
        if i1 < 32 && i2 < 32 {
            let a = m.regs[i1 as int];
            let b = m.regs[i2 as int];
            (VmState { flag: compare_values(op, a, b), ..m2 }, true)
        } else {
            (m2, false)
        }
    }
}

/// One JMP: the register holds an absolute byte offset.
pub open spec fn step_jmp(m: VmState, p1: nat) -> (VmState, bool) {
    if p1 + 1 > m.prog.len() {
        (with_pc(m, p1), false)
    } else {
        let i1 = m.prog[p1 as int];
        let m2 = with_pc(m, (p1 + 1) as nat);
        if i1 < 32 && m.regs[i1 as int] >= 0 {
            (with_pc(m, m.regs[i1 as int] as nat), true)
        } else {
            (m2, false)
        }
    }
}

/// One JMPF: the counter moves forward by the register value.
pub open spec fn step_jmpf(m: VmState, p1: nat) -> (VmState, bool) {
    if p1 + 1 > m.prog.len() {
        (with_pc(m, p1), false)
    } else {
        let i1 = m.prog[p1 as int];
        let m2 = with_pc(m, (p1 + 1) as nat);
        if i1 < 32 && m.regs[i1 as int] >= 0 && p1 + 1 + m.regs[i1 as int] <= usize::MAX {
            (with_pc(m, (p1 + 1 + m.regs[i1 as int]) as nat), true)
        } else {
            (m2, false)
        }
    }
}

/// One JMPB: the counter moves backward by the register value.
pub open spec fn step_jmpb(m: VmState, p1: nat) -> (VmState, bool) {
    if p1 + 1 > m.prog.len() {
        (with_pc(m, p1), false)
    } else {
        let i1 = m.prog[p1 as int];
        let m2 = with_pc(m, (p1 + 1) as nat);
        if i1 < 32 && m.regs[i1 as int] >= 0 && m.regs[i1 as int] <= p1 + 1 {
            (with_pc(m, (p1 + 1 - m.regs[i1 as int]) as nat), true)
        } else {
            (m2, false)
        }
    }
}

/// One JMPE: the operand byte is consumed either way; the jump itself
/// happens only when the equality flag is set.
pub open spec fn step_jmpe(m: VmState, p1: nat) -> (VmState, bool) {
    if p1 + 1 > m.prog.len() {
        (with_pc(m, p1), false)
    } else {
        let i1 = m.prog[p1 as int];
        let m2 = with_pc(m, (p1 + 1) as nat);
        if !m.flag {
            (m2, true)
        } else if i1 < 32 && m.regs[i1 as int] >= 0 {
            (with_pc(m, m.regs[i1 as int] as nat), true)
        } else {
            (m2, false)
        }
    }
}

/// One ALOC: a placeholder with no heap semantics in this core; the
/// register byte is consumed and nothing else happens.
pub open spec fn step_aloc(m: VmState, p1: nat) -> (VmState, bool) {
    if p1 + 1 > m.prog.len() {
        (with_pc(m, p1), false)
    } else {
        (with_pc(m, (p1 + 1) as nat), true)
    }
}

/// One INC: the named register is incremented.
pub open spec fn step_inc(m: VmState, p1: nat) -> (VmState, bool) {
    if p1 + 1 > m.prog.len() {
        (with_pc(m, p1), false)
    } else {
        let i1 = m.prog[p1 as int];
        let m2 = with_pc(m, (p1 + 1) as nat);
        if i1 < 32 && m.regs[i1 as int] < i32::MAX {
            (with_reg(m2, i1 as int, (m.regs[i1 as int] + 1) as i32), true)
        } else {
            (m2, false)
        }
    }
}

/// One full machine cycle: fetch the opcode byte (which always advances
/// the counter when one is available), then consume that opcode's
/// operand bytes and perform its effect.  Returns the next state and
/// whether execution continues; a counter at or past the end of the
/// program is normal completion, HLT and IGL are terminal, and every
/// boundary violation stops the machine instead of faulting the host.
pub open spec fn step(m: VmState) -> (VmState, bool) {
    if m.pc >= m.prog.len() {
        (m, false)
    } else {
        let p1 = (m.pc + 1) as nat;
        match byte_opcode(m.prog[m.pc as int]) {
            Opcode::LOAD => step_load(m, p1),
            Opcode::ADD => step_arith(m, p1, Opcode::ADD),
            Opcode::SUB => step_arith(m, p1, Opcode::SUB),
            Opcode::MUL => step_arith(m, p1, Opcode::MUL),
            Opcode::DIV => step_arith(m, p1, Opcode::DIV),
            Opcode::HLT => (with_pc(m, p1), false),
            Opcode::JMP => step_jmp(m, p1),
            Opcode::JMPF => step_jmpf(m, p1),
            Opcode::JMPB => step_jmpb(m, p1),
            Opcode::EQ => step_cmp(m, p1, Opcode::EQ),
            Opcode::NEQ => step_cmp(m, p1, Opcode::NEQ),
            Opcode::GTE => step_cmp(m, p1, Opcode::GTE),
            Opcode::LTE => step_cmp(m, p1, Opcode::LTE),
            Opcode::LT => step_cmp(m, p1, Opcode::LT),
            Opcode::GT => step_cmp(m, p1, Opcode::GT),
            Opcode::JMPE => step_jmpe(m, p1),
            Opcode::ALOC => step_aloc(m, p1),
            Opcode::INC => step_inc(m, p1),
            Opcode::IGL => (with_pc(m, p1), false),
        }
    }
}

/// The machine after `n` turns of the driver loop: each turn steps
/// once more unless an earlier step already said to stop.
pub open spec fn run_n(m: VmState, n: nat) -> (VmState, bool)
    decreases n,
{
    if n == 0 {
        (m, true)
    } else {
        let prev = run_n(m, (n - 1) as nat);
        if prev.1 {
            step(prev.0)
        } else {
            (prev.0, false)
        }
    }
}

/// Halt semantics: an HLT byte and an illegal byte both stop the
/// machine after the opcode byte alone is consumed, so the counter
/// always advances past the byte that was decoded.
pub proof fn lemma_halt_semantics(m: VmState)
    requires
        m.pc < m.prog.len(),
        byte_opcode(m.prog[m.pc as int]) == Opcode::HLT || byte_opcode(
            m.prog[m.pc as int],
        ) == Opcode::IGL,
    ensures
        step(m) == (with_pc(m, (m.pc + 1) as nat), false),
{
}

/// Execution never rewrites the loaded program: one cycle changes
/// registers, counter, remainder and flag at most.
pub proof fn lemma_step_preserves_program(m: VmState)
    ensures
        step(m).0.prog == m.prog,
{
}

/// Neither does any number of cycles.
pub proof fn lemma_run_preserves_program(m: VmState, n: nat)
    ensures
        run_n(m, n).0.prog == m.prog,
    decreases n,
{
    if n > 0 {
        lemma_run_preserves_program(m, (n - 1) as nat);
        lemma_step_preserves_program(run_n(m, (n - 1) as nat).0);
    }
}

/// Halt semantics at the driver level: when the program's first byte
/// is HLT or illegal, every run of at least one turn stops with the
/// counter at exactly 1 and nothing else changed — decoding always
/// advances the counter past the opcode byte before halting.
pub proof fn lemma_run_halts_at_one(m: VmState, n: nat)
    requires
        m.pc == 0,
        m.prog.len() >= 1,
        byte_opcode(m.prog[0]) == Opcode::HLT || byte_opcode(m.prog[0]) == Opcode::IGL,
        n >= 1,
    ensures
        run_n(m, n) == (with_pc(m, 1nat), false),
    decreases n,
{
    if n == 1 {
        lemma_halt_semantics(m);
        assert(run_n(m, 0) == (m, true));
        assert(run_n(m, 1) == step(m));
    } else {
        lemma_run_halts_at_one(m, (n - 1) as nat);
        assert(run_n(m, n).0 == run_n(m, (n - 1) as nat).0);
    }
}

/// The machine itself.  The register file and the program buffer are
/// public so that a driving front end can inspect them; inspection is
/// read-only (see the borrowing accessors below) and never changes the
/// state.
#[derive(Debug)]
pub struct VM {
    pub registers: [i32; 32],
    pub program: Vec<u8>,
    pub pc: usize,
    pub remainder: u32,
    pub equal_flag: bool,
}

impl View for VM {
    type V = VmState;

    open spec fn view(&self) -> VmState {
        VmState {
            regs: self.registers@,
            prog: self.program@,
            pc: self.pc as nat,
            remainder: self.remainder,
            flag: self.equal_flag,
        }
    }
}

impl VM {
    /// A fresh machine: all registers zero, nothing loaded, counter at
    /// the start, remainder clear, flag down.
    pub fn new() -> (r: VM)
        ensures
            r@.regs.len() == 32,
            forall|i: int| 0 <= i < 32 ==> r@.regs[i] == 0,
            r@.prog.len() == 0,
            r@.pc == 0,
            r@.remainder == 0,
            r@.flag == false,
    {
        VM {
            registers: [0; 32],
            program: Vec::new(),
            pc: 0,
            remainder: 0,
            equal_flag: false,
        }
    }

    /// A fresh machine with registers 0 and 1 preset, as the unit
    /// scenarios expect.
    pub fn get_test_vm() -> (r: VM)
        ensures
            r@.regs.len() == 32,
            r@.regs[0] == 5,
            r@.regs[1] == 10,
            forall|i: int| 2 <= i < 32 ==> r@.regs[i] == 0,
            r@.prog.len() == 0,
            r@.pc == 0,
            r@.remainder == 0,
            r@.flag == false,
    {
        let mut test_vm = VM::new();
        test_vm.registers[0] = 5;
        test_vm.registers[1] = 10;
        test_vm
    }

    /// Append one byte to the program buffer.
    pub fn add_byte(&mut self, b: u8)
        ensures
            final(self)@.prog == old(self)@.prog.push(b),
            final(self)@.regs == old(self)@.regs,
            final(self)@.pc == old(self)@.pc,
            final(self)@.remainder == old(self)@.remainder,
            final(self)@.flag == old(self)@.flag,
    {
        self.program.push(b);
    }

    /// Append a whole byte sequence to the program buffer, in order.
    pub fn add_bytes(&mut self, b: Vec<u8>)
        ensures
            final(self)@.prog == old(self)@.prog + b@,
            final(self)@.regs == old(self)@.regs,
            final(self)@.pc == old(self)@.pc,
            final(self)@.remainder == old(self)@.remainder,
            final(self)@.flag == old(self)@.flag,
    {
        let mut rest = b;
        self.program.append(&mut rest);
    }

    /// Read the register file without touching the machine.
    pub fn register_file(&self) -> (r: &[i32; 32])
        ensures
            r@ == self@.regs,
    {
        &self.registers
    }

    /// Read the loaded program without touching the machine.
    pub fn program_buffer(&self) -> (r: &Vec<u8>)
        ensures
            r@ == self@.prog,
    {
        &self.program
    }

    /// Read the program counter without touching the machine.
    pub fn current_pc(&self) -> (r: usize)
        ensures
            r == self@.pc,
    {
        self.pc
    }

    /// Read the equality flag without touching the machine.
    pub fn comparison_flag(&self) -> (r: bool)
        ensures
            r == self@.flag,
    {
        self.equal_flag
    }

    /// Run until a terminal condition: normal completion past the end
    /// of the program, HLT, an illegal opcode, or a boundary violation.
    /// The driver loop carries an explicit budget of `u64::MAX` turns
    /// so that it provably terminates; no execution that ever stops is
    /// cut short by it, since one that long could not finish on any
    /// real machine.
    pub fn run(&mut self)
        ensures
            exists|n: nat|
                n <= u64::MAX && final(self)@ == run_n(old(self)@, n).0 && (run_n(
                    old(self)@,
                    n,
                ).1 == false || n == u64::MAX),
    {
        let ghost m0 = old(self)@;
        let mut fuel: u64 = u64::MAX;
        let mut executing = true;
        while executing && fuel > 0
            invariant
                fuel <= u64::MAX,
                (self@, executing) == run_n(m0, (u64::MAX - fuel) as nat),
            decreases fuel,
        {
            let ghost n_before = (u64::MAX - fuel) as nat;
            executing = self.execute_instruction();
            fuel = fuel - 1;
            proof {
                assert(run_n(m0, (n_before + 1) as nat) == (self@, executing));
            }
        }
        proof {
            let n = (u64::MAX - fuel) as nat;
            assert(final(self)@ == run_n(m0, n).0);
            assert(run_n(m0, n).1 == false || n == u64::MAX);
        }
    }

    /// Execute exactly one instruction; the result says whether
    /// execution should continue, which lets a front end single-step.
    pub fn run_once(&mut self) -> (r: bool)
        ensures
            final(self)@ == step(old(self)@).0,
            r == step(old(self)@).1,
    {
        self.execute_instruction()
    }

    /// One turn of the cycle, exactly as [`step`] describes it.
    fn execute_instruction(&mut self) -> (r: bool)
        ensures
            final(self)@ == step(old(self)@).0,
            r == step(old(self)@).1,
    {
        if self.pc >= self.program.len() {
            return false;
        }
        let op = self.decode_opcode();
        match op {
            Opcode::LOAD => {
                if self.program.len() - self.pc < 3 {
                    return false;
                }
                let r = self.next_8_bits();
                let number = self.next_16_bits();
                if r >= 32 {
                    return false;
                }
                self.registers[r as usize] = number as i32;
                true
            },
            Opcode::ADD => {
                if self.program.len() - self.pc < 3 {
                    return false;
                }
                let i1 = self.next_8_bits();
                let i2 = self.next_8_bits();
                let i3 = self.next_8_bits();
                if i1 >= 32 || i2 >= 32 || i3 >= 32 {
                    return false;
                }
                let a = self.registers[i1 as usize];
                let b = self.registers[i2 as usize];
                match a.checked_add(b) {
                    Some(v) => {
                        self.registers[i3 as usize] = v;
                        true
                    },
                    None => false,
                }
            },
            Opcode::SUB => {
                if self.program.len() - self.pc < 3 {
                    return false;
                }
                let i1 = self.next_8_bits();
                let i2 = self.next_8_bits();
                let i3 = self.next_8_bits();
                if i1 >= 32 || i2 >= 32 || i3 >= 32 {
                    return false;
                }
                let a = self.registers[i1 as usize];
                let b = self.registers[i2 as usize];
                match a.checked_sub(b) {
                    Some(v) => {
                        self.registers[i3 as usize] = v;
                        true
                    },
                    None => false,
                }
            },
            Opcode::MUL => {
                if self.program.len() - self.pc < 3 {
                    return false;
                }
                let i1 = self.next_8_bits();
                let i2 = self.next_8_bits();
                let i3 = self.next_8_bits();
                if i1 >= 32 || i2 >= 32 || i3 >= 32 {
                    return false;
                }
                let a = self.registers[i1 as usize];
                let b = self.registers[i2 as usize];
                match a.checked_mul(b) {
                    Some(v) => {
                        self.registers[i3 as usize] = v;
                        true
                    },
                    None => false,
                }
            },
            Opcode::DIV => {
                if self.program.len() - self.pc < 3 {
                    return false;
                }
                let i1 = self.next_8_bits();
                let i2 = self.next_8_bits();
                let i3 = self.next_8_bits();
                if i1 >= 32 || i2 >= 32 || i3 >= 32 {
                    return false;
                }
                let a = self.registers[i1 as usize];
                let b = self.registers[i2 as usize];
                match a.checked_div(b) {
                    Some(q) => match a.checked_rem(b) {
                        Some(rm) => {
                            self.registers[i3 as usize] = q;
                            self.remainder = wrap_to_u32(rm);
                            true
                        },
                        None => false,
                    },
                    None => false,
                }
            },
            Opcode::HLT => false,
            Opcode::JMP => {
                if self.program.len() - self.pc < 1 {
                    return false;
                }
                let i1 = self.next_8_bits();
                if i1 >= 32 {
                    return false;
                }
                let t = self.registers[i1 as usize];
                if t < 0 {
                    return false;
                }
                self.pc = t as usize;
                true
            },
            Opcode::JMPF => {
                if self.program.len() - self.pc < 1 {
                    return false;
                }
                let i1 = self.next_8_bits();
                if i1 >= 32 {
                    return false;
                }
                let t = self.registers[i1 as usize];
                if t < 0 {
                    return false;
                }
                match self.pc.checked_add(t as usize) {
                    Some(p) => {
                        self.pc = p;
                        true
                    },
                    None => false,
                }
            },
            Opcode::JMPB => {
                if self.program.len() - self.pc < 1 {
                    return false;
                }
                let i1 = self.next_8_bits();
                if i1 >= 32 {
                    return false;
                }
                let t = self.registers[i1 as usize];
                if t < 0 {
                    return false;
                }
                let d = t as usize;
                if d > self.pc {
                    return false;
                }
                self.pc = self.pc - d;
                true
            },
            Opcode::EQ => {
                if self.program.len() - self.pc < 3 {
                    return false;
                }
                let i1 = self.next_8_bits();
                let i2 = self.next_8_bits();
                let _pad = self.next_8_bits();
                if i1 >= 32 || i2 >= 32 {
                    return false;
                }
                self.equal_flag = self.registers[i1 as usize] == self.registers[i2 as usize];
                true
            },
            Opcode::NEQ => {
                if self.program.len() - self.pc < 3 {
                    return false;
                }
                let i1 = self.next_8_bits();
                let i2 = self.next_8_bits();
                let _pad = self.next_8_bits();
                if i1 >= 32 || i2 >= 32 {
                    return false;
                }
                self.equal_flag = self.registers[i1 as usize] != self.registers[i2 as usize];
                true
            },
            Opcode::GTE => {
                if self.program.len() - self.pc < 3 {
                    return false;
                }
                let i1 = self.next_8_bits();
                let i2 = self.next_8_bits();
                let _pad = self.next_8_bits();
                if i1 >= 32 || i2 >= 32 {
                    return false;
                }
                self.equal_flag = self.registers[i1 as usize] >= self.registers[i2 as usize];
                true
            },
            Opcode::LTE => {
                if self.program.len() - self.pc < 3 {
                    return false;
                }
                let i1 = self.next_8_bits();
                let i2 = self.next_8_bits();
                let _pad = self.next_8_bits();
                if i1 >= 32 || i2 >= 32 {
                    return false;
                }
                self.equal_flag = self.registers[i1 as usize] <= self.registers[i2 as usize];
                true
            },
            Opcode::LT => {
                if self.program.len() - self.pc < 3 {
                    return false;
                }
                let i1 = self.next_8_bits();
                let i2 = self.next_8_bits();
                let _pad = self.next_8_bits();
                if i1 >= 32 || i2 >= 32 {
                    return false;
                }
                self.equal_flag = self.registers[i1 as usize] < self.registers[i2 as usize];
                true
            },
            Opcode::GT => {
                if self.program.len() - self.pc < 3 {
                    return false;
                }
                let i1 = self.next_8_bits();
                let i2 = self.next_8_bits();
                let _pad = self.next_8_bits();
                if i1 >= 32 || i2 >= 32 {
                    return false;
                }
                self.equal_flag = self.registers[i1 as usize] > self.registers[i2 as usize];
                true
            },
            Opcode::JMPE => {
                if self.program.len() - self.pc < 1 {
                    return false;
                }
                let i1 = self.next_8_bits();
                if !self.equal_flag {
                    return true;
                }
                if i1 >= 32 {
                    return false;
                }
                let t = self.registers[i1 as usize];
                if t < 0 {
                    return false;
                }
                self.pc = t as usize;
                true
            },
            Opcode::ALOC => {
                if self.program.len() - self.pc < 1 {
                    return false;
                }
                let _r = self.next_8_bits();
                true
            },
            Opcode::INC => {
                if self.program.len() - self.pc < 1 {
                    return false;
                }
                let i1 = self.next_8_bits();
                if i1 >= 32 {
                    return false;
                }
                let v = self.registers[i1 as usize];
                if v == i32::MAX {
                    return false;
                }
                self.registers[i1 as usize] = v + 1;
                true
            },
            Opcode::IGL => false,
        }
    }

    /// Consume one operand byte, advancing the counter past it.
    fn next_8_bits(&mut self) -> (r: u8)
        requires
            old(self).pc < old(self).program.len(),
        ensures
            r == old(self)@.prog[old(self)@.pc as int],
            final(self)@ == with_pc(old(self)@, (old(self)@.pc + 1) as nat),
    {
        let result = self.program[self.pc];
        self.pc = self.pc + 1;
        result
    }

    /// Consume two operand bytes as one big-endian 16-bit value.
    fn next_16_bits(&mut self) -> (r: u16)
        requires
            old(self).pc + 2 <= old(self).program.len(),
        ensures
            r == old(self)@.prog[old(self)@.pc as int] * 256 + old(self)@.prog[old(
                self,
            )@.pc as int + 1],
            final(self)@ == with_pc(old(self)@, (old(self)@.pc + 2) as nat),
    {
        let hi = self.program[self.pc];
        let lo = self.program[self.pc + 1];
        self.pc = self.pc + 2;
        (hi as u16) * 256 + (lo as u16)
    }

    /// Consume the opcode byte and decode it.
    fn decode_opcode(&mut self) -> (r: Opcode)
        requires
            old(self).pc < old(self).program.len(),
        ensures
            r == byte_opcode(old(self)@.prog[old(self)@.pc as int]),
            final(self)@ == with_pc(old(self)@, (old(self)@.pc + 1) as nat),
    {
        let opcode = decode_byte(self.program[self.pc]);
        self.pc = self.pc + 1;
        opcode
    }
}

/// Reinterpret a signed value as the unsigned word with the same bits.
fn wrap_to_u32(x: i32) -> (r: u32)
    ensures
        r == wrap_u32(x),
{
    if x >= 0 {
        x as u32
    } else {
        let y: i32 = (x + 2147483647) + 1;
        (y as u32) + 2147483648
    }
}

} // verus!
