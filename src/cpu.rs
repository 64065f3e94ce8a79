//! The processor: its register file and the fetch-decode-execute loop.
use vstd::prelude::*;

use crate::memory::{Memory, MEM_SIZE};
use crate::opcode::{decode, instruction_length, Opcode, END_BYTE};

verus! {

broadcast use Memory::lemma_len;

/// Register file and power/cycle state of the processor.
#[derive(Clone, Copy, Debug, PartialEq, Eq, Structural)]
pub struct CPU {
    /// True until the machine halts; never set again afterwards.
    pub running: bool,
    /// Number of instructions executed or skipped.
    pub cycle_count: u64,
    /// The last opcode byte fetched.
    pub instruction_register: u8,
    /// The last operand byte fetched.
    pub operand_register: u8,
    /// The general-purpose register.
    pub accumulator: u8,
}

/// `a + b` modulo 256.
pub open spec fn add_wrapped(a: u8, b: u8) -> u8 {
    ((a + b) % 256) as u8
}

/// `a - b` modulo 256.
pub open spec fn sub_wrapped(a: u8, b: u8) -> u8 {
    ((a - b) % 256) as u8
}

/// The accumulator after executing opcode byte `op` with operand `operand`.
pub open spec fn apply(op: u8, acc: u8, operand: u8) -> u8 {
    match decode(op) {
        Some(Opcode::Mov) => operand,
        Some(Opcode::Add) => add_wrapped(acc, operand),
        Some(Opcode::Sub) => sub_wrapped(acc, operand),
        _ => acc,
    }
}

/// The state `c` with the machine halted.
pub open spec fn halted(c: CPU) -> CPU {
    CPU { running: false, ..c }
}

/// The state after the handler of `op` ran on operand `operand`: only the
/// accumulator changes, except that the terminator halts.
pub open spec fn executed(c: CPU, op: u8, operand: u8) -> CPU {
    CPU {
        running: c.running && op != END_BYTE,
        accumulator: apply(op, c.accumulator, operand),
        ..c
    }
}

/// The state `c` with the fetched opcode and operand latched into the
/// instruction and operand registers.
pub open spec fn fetched(c: CPU, op: u8, operand: u8) -> CPU {
    CPU { instruction_register: op, operand_register: operand, ..c }
}

/// One turn of the loop at `cursor` over memory contents `mem`.
///
/// A halted machine stays as it is. A fetch outside memory halts. A fetched
/// terminator halts without reading an operand, as does an operand that lies
/// past the end. Otherwise the instruction runs, one cycle is counted, and the
/// machine halts if the advanced cursor leaves memory. Running out of memory
/// is an ordinary halt, not told apart from the terminator.
pub open spec fn step_state(mem: Seq<u8>, cursor: int, c: CPU) -> CPU {
    if !c.running {
        c
    } else if cursor < 0 || cursor >= mem.len() {
        halted(c)
    } else if mem[cursor] == END_BYTE || cursor + 1 >= mem.len() {
        halted(CPU { instruction_register: mem[cursor], ..c })
    } else {
        let after = CPU {
            cycle_count: (c.cycle_count + 1) as u64,
            ..executed(fetched(c, mem[cursor], mem[cursor + 1]), mem[cursor], mem[cursor + 1])
        };
        if cursor + instruction_length(mem[cursor]) >= mem.len() {
            halted(after)
        } else {
            after
        }
    }
}

/// The final state of the loop started at `cursor` in state `c`.
pub open spec fn run_from(mem: Seq<u8>, cursor: int, c: CPU) -> CPU
    decreases mem.len() - cursor,
{
    let next = step_state(mem, cursor, c);
    if next.running {
        run_from(mem, cursor + instruction_length(mem[cursor]), next)
    } else {
        next
    }
}

impl CPU {
    /// A running processor with every register and counter at zero.
    pub fn new() -> (r: CPU)
        ensures
            r == (CPU {
                running: true,
                cycle_count: 0,
                instruction_register: 0,
                operand_register: 0,
                accumulator: 0,
            }),
    {
        CPU { running: true, cycle_count: 0, instruction_register: 0, operand_register: 0, accumulator: 0 }
    }

    /// Counts one cycle.
    pub fn cycle(&mut self)
        requires
            old(self).cycle_count < u64::MAX,
        ensures
            *final(self) == (CPU { cycle_count: (old(self).cycle_count + 1) as u64, ..*old(self) }),
    {
        self.cycle_count = self.cycle_count + 1;
    }

    /// Adds the operand register to the accumulator, wrapping; returns the
    /// instruction length.
    pub fn add(&mut self) -> (r: usize)
        ensures
            *final(self) == (CPU {
                accumulator: add_wrapped(old(self).accumulator, old(self).operand_register),
                ..*old(self)
            }),
            r == 2,
    {
        self.accumulator = self.accumulator.wrapping_add(self.operand_register);
        2
    }

    /// Subtracts the operand register from the accumulator, wrapping; returns
    /// the instruction length.
    pub fn sub(&mut self) -> (r: usize)
        ensures
            *final(self) == (CPU {
                accumulator: sub_wrapped(old(self).accumulator, old(self).operand_register),
                ..*old(self)
            }),
            r == 2,
    {
        self.accumulator = self.accumulator.wrapping_sub(self.operand_register);
        2
    }

    /// Sets the accumulator to `value`; returns the instruction length.
    pub fn set_rax(&mut self, value: u8) -> (r: usize)
        ensures
            *final(self) == (CPU { accumulator: value, ..*old(self) }),
            r == 2,
    {
        self.accumulator = value;
        2
    }

    /// Runs the handler of `opcode` on `operand`; returns how far the cursor
    /// advances. Only the accumulator changes, except that the terminator
    /// halts the machine.
    /// The program memory is passed for handlers that read it; none changes it.
    pub fn execute(&mut self, opcode: u8, operand: u8, _memory: &Memory) -> (r: usize)
        ensures
            *final(self) == executed(*old(self), opcode, operand),
            r == instruction_length(opcode),
    {
        match Opcode::from_u8(opcode) {
            Some(Opcode::Add) => {
                self.accumulator = self.accumulator.wrapping_add(operand);
                2
            },
            Some(Opcode::Sub) => {
                self.accumulator = self.accumulator.wrapping_sub(operand);
                2
            },
            Some(Opcode::Mov) => self.set_rax(operand),
            Some(Opcode::Nop) => 2,
            Some(Opcode::End) => {
                self.running = false;
                1
            },
            None => 1,
        }
    }

    /// Runs one turn of the loop at `cursor`. Returns the cursor of the next
    /// fetch, or `None` once the machine has halted.
    pub fn step(&mut self, memory: &Memory, cursor: usize) -> (next: Option<usize>)
        requires
            old(self).cycle_count < u64::MAX,
        ensures
            *final(self) == step_state(memory@, cursor as int, *old(self)),
            match next {
                Some(n) => final(self).running && n == cursor + instruction_length(
                    memory@[cursor as int],
                ),
                None => !final(self).running,
            },
    {
        if !self.running {
            return None;
        }
        let op = match memory.read(cursor) {
            Ok(b) => b,
            Err(_) => {
                self.running = false;
                return None;
            },
        };
        self.instruction_register = op;
        if let Some(Opcode::End) = Opcode::from_u8(op) {
            self.running = false;
            return None;
        }
        let operand = match memory.read(cursor + 1) {
            Ok(b) => b,
            Err(_) => {
                self.running = false;
                return None;
            },
        };
        self.operand_register = operand;
        let length = self.execute(op, operand, memory);
        self.cycle();
        let next = cursor + length;
        if next >= MEM_SIZE {
            self.running = false;
            return None;
        }
        Some(next)
    }

    /// Runs the loop from the start of memory until the machine halts.
    pub fn run(&mut self, memory: &Memory)
        requires
            old(self).cycle_count <= u64::MAX - MEM_SIZE,
        ensures
            *final(self) == run_from(memory@, 0, *old(self)),
            !final(self).running,
            old(self).cycle_count <= final(self).cycle_count <= old(self).cycle_count + MEM_SIZE
                - 1,
    {
        let ghost start = *self;
        let mut cursor: usize = 0;
        loop
            invariant_except_break
                cursor < MEM_SIZE,
                run_from(memory@, cursor as int, *self) == run_from(memory@, 0, start),
                start.cycle_count <= self.cycle_count <= start.cycle_count + cursor,
            invariant
                start.cycle_count <= u64::MAX - MEM_SIZE,
            ensures
                *self == run_from(memory@, 0, start),
                !self.running,
                start.cycle_count <= self.cycle_count <= start.cycle_count + MEM_SIZE,
            decreases MEM_SIZE - cursor,
        {
            match self.step(memory, cursor) {
                Some(n) => cursor = n,
                None => break,
            }
        }
        proof {
            lemma_run_halts(memory@, 0, start);
        }
    }
}

/// The loop halts on every memory contents, from every cursor and state:
/// the final state is never running, and the cycle count only grows, by at
/// most one per byte of memory after the first, since every counted
/// instruction reads an operand byte inside memory.
pub proof fn lemma_run_halts(mem: Seq<u8>, cursor: int, c: CPU)
    ensures
        !run_from(mem, cursor, c).running,
        0 <= cursor < mem.len() && c.cycle_count + (mem.len() - cursor) <= u64::MAX ==> c.cycle_count
            <= run_from(mem, cursor, c).cycle_count <= c.cycle_count + (mem.len() - cursor - 1),
    decreases mem.len() - cursor,
{
    let next = step_state(mem, cursor, c);
    if next.running {
        lemma_run_halts(mem, cursor + instruction_length(mem[cursor]), next);
    }
}

/// On a memory of NOPs only, a running machine takes one cycle per whole
/// two-byte instruction from `cursor` to the end, leaving the accumulator as
/// it was.
pub proof fn lemma_nops_from(mem: Seq<u8>, cursor: int, c: CPU)
    requires
        forall|i: int| 0 <= i < mem.len() ==> mem[i] == 0,
        c.running,
        0 <= cursor <= mem.len(),
        c.cycle_count + (mem.len() - cursor) <= u64::MAX,
    ensures
        run_from(mem, cursor, c).cycle_count == c.cycle_count + (mem.len() - cursor) / 2,
        run_from(mem, cursor, c).accumulator == c.accumulator,
    decreases mem.len() - cursor,
{
    let next = step_state(mem, cursor, c);
    if next.running {
        lemma_nops_from(mem, cursor + 2, next);
    }
}

/// A memory of `n` NOP bytes with no terminator runs exactly `n / 2`
/// instructions and then halts, with the accumulator unchanged.
pub proof fn lemma_all_nops(mem: Seq<u8>, c: CPU)
    requires
        forall|i: int| 0 <= i < mem.len() ==> mem[i] == 0,
        c.running,
        c.cycle_count + mem.len() <= u64::MAX,
    ensures
        run_from(mem, 0, c).cycle_count == c.cycle_count + mem.len() / 2,
        run_from(mem, 0, c).accumulator == c.accumulator,
        !run_from(mem, 0, c).running,
{
    lemma_nops_from(mem, 0, c);
    lemma_run_halts(mem, 0, c);
}

/// A byte outside the instruction set at the cursor is skipped on its own:
/// one cycle is counted, the accumulator is untouched, the machine keeps
/// running, and the next fetch is at the following byte.
pub proof fn lemma_unknown_opcode_skips_one(mem: Seq<u8>, cursor: int, c: CPU)
    requires
        decode(mem[cursor]) is None,
        c.running,
        0 <= cursor,
        cursor + 1 < mem.len(),
        c.cycle_count < u64::MAX,
    ensures
        step_state(mem, cursor, c) == (CPU {
            cycle_count: (c.cycle_count + 1) as u64,
            instruction_register: mem[cursor],
            operand_register: mem[cursor + 1],
            ..c
        }),
        instruction_length(mem[cursor]) == 1,
        run_from(mem, cursor, c) == run_from(mem, cursor + 1, step_state(mem, cursor, c)),
{
}

} // verus!
