//! The CPU: four registers, a program counter and an owned memory, driven by
//! a fetch-decode-execute loop.
//!
//! Every instruction takes four cells, `[opcode, dest, src_a, src_b]`, where
//! the three operands are register indices. Arithmetic is 32-bit signed; a
//! result that does not fit (including `i32::MIN / -1`) is an `Overflow`
//! fault rather than a wrapped value. A fault leaves the registers and the
//! program counter as they were before the faulting instruction.

use vstd::prelude::*;
use crate::memory::{Memory, MemoryError, read_result};

verus! {

/// The number of registers.
pub const NUM_REGISTERS: usize = 4;

/// The number of memory cells that every instruction occupies.
pub const INSTRUCTION_WIDTH: usize = 4;

/// Stop cleanly; the program counter stays on this cell.
pub const OP_HALT: i32 = 0;
/// `dest = src_a + src_b`
pub const OP_ADD: i32 = 1;
/// `dest = src_a - src_b`
pub const OP_SUB: i32 = 2;
/// `dest = src_a * src_b`
pub const OP_MUL: i32 = 3;
/// `dest = src_a / src_b`, truncating toward zero
pub const OP_DIV: i32 = 4;

/// Why the machine stopped abnormally, or why a register access was refused.
#[derive(Debug, Clone, Copy, PartialEq, Eq, Structural)]
pub enum CpuError {
    /// A register index, given or decoded, lies outside `[0, NUM_REGISTERS)`.
    InvalidRegister(i128),
    /// The decoded opcode names no instruction.
    UnknownOpcode(i32),
    /// A `DIV` whose divisor register holds zero.
    DivisionByZero,
    /// An arithmetic result that does not fit in 32 bits.
    Overflow,
    /// Fetching an opcode or an operand read past the end of memory.
    MemoryFault(MemoryError),
}

/// What a single instruction did when it did not fault.
#[derive(Debug, Clone, Copy, PartialEq, Eq, Structural)]
pub enum Step {
    /// An arithmetic instruction ran; the program counter moved on.
    Continue,
    /// A `HALT` was decoded; the program counter still points at it.
    Halt,
}

/// Represents the CPU of the virtual machine.
pub struct CPU {
    pub registers: [i32; 4],
    pub pc: usize,
    pub memory: Memory,
}

/// Division truncating toward zero, as Rust's `/` on integers.
pub open spec fn trunc_div(a: int, b: int) -> int {
    let na = if a < 0 { -a } else { a };
    let nb = if b < 0 { -b } else { b };
    if (a < 0) == (b < 0) {
        na / nb
    } else {
        -(na / nb)
    }
}

/// The exact result of arithmetic opcode `op` on `a` and `b`.
pub open spec fn exact_result(op: i32, a: int, b: int) -> int {
    if op == OP_ADD {
        a + b
    } else if op == OP_SUB {
        a - b
    } else if op == OP_MUL {
        a * b
    } else {
        trunc_div(a, b)
    }
}

/// The outcome of arithmetic opcode `op` on register values `a` and `b`.
pub open spec fn arith_result(op: i32, a: i32, b: i32) -> Result<i32, CpuError> {
    if op == OP_DIV && b == 0 {
        Err(CpuError::DivisionByZero)
    } else if exact_result(op, a as int, b as int) < i32::MIN || i32::MAX < exact_result(
        op,
        a as int,
        b as int,
    ) {
        Err(CpuError::Overflow)
    } else {
        Ok(exact_result(op, a as int, b as int) as i32)
    }
}

/// Whether `index` names a register.
pub open spec fn is_register(index: int) -> bool {
    0 <= index < NUM_REGISTERS
}

/// The register named by operand cell `k` of the instruction at `pc`.
pub open spec fn operand(mem: Seq<i32>, pc: usize, k: usize) -> Result<usize, CpuError> {
    match read_result(mem, (pc + k) as usize) {
        Err(e) => Err(CpuError::MemoryFault(e)),
        Ok(v) => if is_register(v as int) {
            Ok(v as usize)
        } else {
            Err(CpuError::InvalidRegister(v as i128))
        },
    }
}

/// The registers after arithmetic opcode `op` at `pc` runs on `regs`.
pub open spec fn execute_result(regs: Seq<i32>, pc: usize, mem: Seq<i32>, op: i32) -> Result<
    Seq<i32>,
    CpuError,
> {
    match operand(mem, pc, 1) {
        Err(e) => Err(e),
        Ok(d) => match operand(mem, pc, 2) {
            Err(e) => Err(e),
            Ok(a) => match operand(mem, pc, 3) {
                Err(e) => Err(e),
                Ok(b) => match arith_result(op, regs[a as int], regs[b as int]) {
                    Err(e) => Err(e),
                    Ok(v) => Ok(regs.update(d as int, v)),
                },
            },
        },
    }
}

/// Registers, program counter and outcome after one instruction at `pc`.
pub open spec fn step_result(regs: Seq<i32>, pc: usize, mem: Seq<i32>) -> (
    Seq<i32>,
    usize,
    Result<Step, CpuError>,
) {
    match read_result(mem, pc) {
        Err(e) => (regs, pc, Err(CpuError::MemoryFault(e))),
        Ok(op) => if op == OP_HALT {
            (regs, pc, Ok(Step::Halt))
        } else if OP_ADD <= op <= OP_DIV {
            match execute_result(regs, pc, mem, op) {
                Err(e) => (regs, pc, Err(e)),
                Ok(next) => (next, (pc + INSTRUCTION_WIDTH) as usize, Ok(Step::Continue)),
            }
        } else {
            (regs, pc, Err(CpuError::UnknownOpcode(op)))
        },
    }
}

/// Registers, program counter and outcome when the machine runs from `pc`
/// until it halts or faults.
pub open spec fn run_result(regs: Seq<i32>, pc: usize, mem: Seq<i32>) -> (
    Seq<i32>,
    usize,
    Result<(), CpuError>,
)
    decreases mem.len() - pc,
    when mem.len() <= usize::MAX
    via run_result_decreases
{
    let (next, next_pc, outcome) = step_result(regs, pc, mem);
    match outcome {
        Err(e) => (regs, pc, Err(e)),
        Ok(Step::Halt) => (regs, pc, Ok(())),
        Ok(Step::Continue) => run_result(next, next_pc, mem),
    }
}

/// An instruction that runs to completion lay wholly inside memory, and the
/// program counter moves past it.
pub proof fn lemma_step_advances(regs: Seq<i32>, pc: usize, mem: Seq<i32>)
    requires
        mem.len() <= usize::MAX,
    ensures
        step_result(regs, pc, mem).2 == Ok::<Step, CpuError>(Step::Continue) ==> pc + 3 < mem.len()
            && step_result(regs, pc, mem).1 == pc + INSTRUCTION_WIDTH,
{
}

#[via_fn]
proof fn run_result_decreases(regs: Seq<i32>, pc: usize, mem: Seq<i32>) {
    lemma_step_advances(regs, pc, mem);
}

/// An opcode that names no instruction stops the run with `UnknownOpcode`,
/// leaving the registers and the program counter as they were.
pub proof fn lemma_unknown_opcode_faults(regs: Seq<i32>, pc: usize, mem: Seq<i32>)
    requires
        mem.len() <= usize::MAX,
        pc < mem.len(),
        mem[pc as int] < OP_HALT || mem[pc as int] > OP_DIV,
    ensures
        run_result(regs, pc, mem) == (regs, pc, Err::<(), CpuError>(
            CpuError::UnknownOpcode(mem[pc as int]),
        )),
{
}

/// An instruction that faults changes neither the registers nor the program
/// counter, and the run stops there with that fault.
pub proof fn lemma_fault_keeps_state(regs: Seq<i32>, pc: usize, mem: Seq<i32>)
    requires
        mem.len() <= usize::MAX,
        step_result(regs, pc, mem).2 is Err,
    ensures
        step_result(regs, pc, mem).0 == regs,
        step_result(regs, pc, mem).1 == pc,
        run_result(regs, pc, mem) == (regs, pc, Err::<(), CpuError>(
            step_result(regs, pc, mem).2->Err_0,
        )),
{
}

/// A well-formed `DIV` whose divisor register holds zero stops the run with
/// `DivisionByZero`, before any register is written.
pub proof fn lemma_division_by_zero(regs: Seq<i32>, pc: usize, mem: Seq<i32>)
    requires
        mem.len() <= usize::MAX,
        regs.len() == NUM_REGISTERS,
        pc + 3 < mem.len(),
        mem[pc as int] == OP_DIV,
        is_register(mem[pc + 1] as int),
        is_register(mem[pc + 2] as int),
        is_register(mem[pc + 3] as int),
        regs[mem[pc + 3] as int] == 0,
    ensures
        run_result(regs, pc, mem) == (regs, pc, Err::<(), CpuError>(CpuError::DivisionByZero)),
{
}

/// A run that halts stops on a `HALT`; running again from where it stopped
/// halts at once and changes nothing.
pub proof fn lemma_rerun_after_halt(regs: Seq<i32>, pc: usize, mem: Seq<i32>)
    requires
        mem.len() <= usize::MAX,
        run_result(regs, pc, mem).2 is Ok,
    ensures
        run_result(run_result(regs, pc, mem).0, run_result(regs, pc, mem).1, mem) == run_result(
            regs,
            pc,
            mem,
        ),
        read_result(mem, run_result(regs, pc, mem).1) == Ok::<i32, MemoryError>(OP_HALT),
    decreases mem.len() - pc,
{
    lemma_step_advances(regs, pc, mem);
    let (next, next_pc, outcome) = step_result(regs, pc, mem);
    if outcome == Ok::<Step, CpuError>(Step::Continue) {
        lemma_rerun_after_halt(next, next_pc, mem);
    }
}

/// The value of register `index`, or why there is none.
pub open spec fn register_result(regs: Seq<i32>, index: usize) -> Result<i32, CpuError> {
    if index < NUM_REGISTERS {
        Ok(regs[index as int])
    } else {
        Err(CpuError::InvalidRegister(index as i128))
    }
}

/// Applies arithmetic opcode `op` to `a` and `b`.
pub fn arith(op: i32, a: i32, b: i32) -> (r: Result<i32, CpuError>)
    requires
        OP_ADD <= op <= OP_DIV,
    ensures
        r == arith_result(op, a, b),
{
    let checked = if op == OP_ADD {
        a.checked_add(b)
    } else if op == OP_SUB {
        a.checked_sub(b)
    } else if op == OP_MUL {
        a.checked_mul(b)
    } else if b == 0 {
        return Err(CpuError::DivisionByZero);
    } else {
        a.checked_div(b)
    };
    match checked {
        Some(v) => Ok(v),
        None => Err(CpuError::Overflow),
    }
}

impl CPU {
    /// Creates a CPU with zeroed registers, the program counter at 0 and a
    /// zeroed memory of `memory_size` cells.
    pub fn new(memory_size: usize) -> (cpu: Self)
        ensures
            cpu.registers@ == seq![0i32, 0, 0, 0],
            cpu.pc == 0,
            cpu.memory@.len() == memory_size,
            forall|a: int| 0 <= a < memory_size ==> #[trigger] cpu.memory@[a] == 0,
    {
        let cpu = CPU { registers: [0; 4], pc: 0, memory: Memory::new(memory_size) };
        assert(cpu.registers@ =~= seq![0i32, 0, 0, 0]);
        cpu
    }

    /// Sets register `reg` to `value`.
    pub fn input(&mut self, reg: usize, value: i32) -> (r: Result<(), CpuError>)
        ensures
            reg < NUM_REGISTERS ==> r == Ok::<(), CpuError>(()) && final(self).registers@ == old(
                self,
            ).registers@.update(reg as int, value),
            reg >= NUM_REGISTERS ==> r == Err::<(), CpuError>(CpuError::InvalidRegister(reg as i128))
                && final(self).registers == old(self).registers,
            final(self).pc == old(self).pc,
            final(self).memory@ == old(self).memory@,
    {
        if reg < NUM_REGISTERS {
            self.registers[reg] = value;
            Ok(())
        } else {
            Err(CpuError::InvalidRegister(reg as i128))
        }
    }

    /// Returns the value of register `reg`.
    pub fn output(&self, reg: usize) -> (r: Result<i32, CpuError>)
        ensures
            r == register_result(self.registers@, reg),
    {
        if reg < NUM_REGISTERS {
            Ok(self.registers[reg])
        } else {
            Err(CpuError::InvalidRegister(reg as i128))
        }
    }

    /// Reads operand cell `k` of the current instruction as a register index.
    fn fetch_register(&self, k: usize) -> (r: Result<usize, CpuError>)
        requires
            1 <= k <= 3,
            self.pc + k - 1 < self.memory@.len(),
        ensures
            r == operand(self.memory@, self.pc, k),
            r matches Ok(i) ==> i < NUM_REGISTERS && self.pc + k < self.memory@.len(),
    {
        proof {
            self.memory.lemma_size_fits();
        }
        match self.memory.read(self.pc + k) {
            Err(e) => Err(CpuError::MemoryFault(e)),
            Ok(v) => if 0 <= v && v < NUM_REGISTERS as i32 {
                Ok(v as usize)
            } else {
                Err(CpuError::InvalidRegister(v as i128))
            },
        }
    }

    /// Executes the instruction at the program counter.
    pub fn step(&mut self) -> (r: Result<Step, CpuError>)
        ensures
            (final(self).registers@, final(self).pc, r) == step_result(
                old(self).registers@,
                old(self).pc,
                old(self).memory@,
            ),
            final(self).memory@ == old(self).memory@,
    {
        let opcode = match self.memory.read(self.pc) {
            Ok(v) => v,
            Err(e) => return Err(CpuError::MemoryFault(e)),
        };
        if opcode == OP_HALT {
            return Ok(Step::Halt);
        }
        if opcode < OP_ADD || opcode > OP_DIV {
            return Err(CpuError::UnknownOpcode(opcode));
        }
        let dest = match self.fetch_register(1) {
            Ok(i) => i,
            Err(e) => return Err(e),
        };
        let src_a = match self.fetch_register(2) {
            Ok(i) => i,
            Err(e) => return Err(e),
        };
        let src_b = match self.fetch_register(3) {
            Ok(i) => i,
            Err(e) => return Err(e),
        };
        let value = match arith(opcode, self.registers[src_a], self.registers[src_b]) {
            Ok(v) => v,
            Err(e) => return Err(e),
        };
        self.registers[dest] = value;
        proof {
            self.memory.lemma_size_fits();
        }
        self.pc = self.pc + INSTRUCTION_WIDTH;
        Ok(Step::Continue)
    }

    /// Runs the program in memory from the program counter until it halts
    /// (`Ok`) or faults (`Err`).
    pub fn run(&mut self) -> (r: Result<(), CpuError>)
        ensures
            (final(self).registers@, final(self).pc, r) == run_result(
                old(self).registers@,
                old(self).pc,
                old(self).memory@,
            ),
            final(self).memory@ == old(self).memory@,
    {
        loop
            invariant
                self.memory@ == old(self).memory@,
                run_result(self.registers@, self.pc, self.memory@) == run_result(
                    old(self).registers@,
                    old(self).pc,
                    old(self).memory@,
                ),
            decreases self.memory@.len() - self.pc,
        {
            proof {
                self.memory.lemma_size_fits();
                lemma_step_advances(self.registers@, self.pc, self.memory@);
            }
            match self.step() {
                Ok(Step::Halt) => return Ok(()),
                Ok(Step::Continue) => {},
                Err(e) => return Err(e),
            }
        }
    }
}

} // verus!
