//! The execution engine: registers, instruction decoding, and the
//! fetch-decode-execute cycle.

use vstd::prelude::*;

use crate::memory::Addressable;
use crate::memory::LinearMemory;
use crate::memory::lemma_word_of_parts;
use crate::memory::spec_read;
use crate::memory::spec_read2;
use crate::memory::spec_write;
use crate::memory::spec_write_ok;

verus! {

/// The closed set of register names. Each register holds an unsigned
/// 16-bit value.
#[derive(Clone, Copy, Debug, PartialEq, Eq, Structural)]
pub enum Register {
    A,
    B,
    C,
    SP,
    PC,
    BP,
    FLAGS,
}

impl Register {
    /// The register's slot in the register file.
    pub open spec fn index(self) -> int {
        match self {
            Register::A => 0,
            Register::B => 1,
            Register::C => 2,
            Register::SP => 3,
            Register::PC => 4,
            Register::BP => 5,
            Register::FLAGS => 6,
        }
    }

    /// The register's slot in the register file, as a usize for indexing.
    pub fn idx(self) -> (i: usize)
        ensures
            i as int == self.index(),
            i < 7,
    {
        match self {
            Register::A => 0,
            Register::B => 1,
            Register::C => 2,
            Register::SP => 3,
            Register::PC => 4,
            Register::BP => 5,
            Register::FLAGS => 6,
        }
    }
}

/// The register that byte `sel` selects in a register-addressed operand,
/// or nothing when `sel` names no register.
pub open spec fn spec_register(sel: u8) -> Option<Register> {
    if sel == 0 {
        Some(Register::A)
    } else if sel == 1 {
        Some(Register::B)
    } else if sel == 2 {
        Some(Register::C)
    } else if sel == 3 {
        Some(Register::SP)
    } else if sel == 4 {
        Some(Register::PC)
    } else if sel == 5 {
        Some(Register::BP)
    } else if sel == 6 {
        Some(Register::FLAGS)
    } else {
        None
    }
}

/// The closed set of instructions. Every instruction occupies exactly two
/// bytes: the low byte selects the operation, the high byte carries its
/// operand (an 8-bit immediate or a register selector).
#[derive(Clone, Copy, Debug, PartialEq, Eq, Structural)]
pub enum Op {
    /// No effect.
    Nop,
    /// Push an 8-bit immediate onto the stack.
    Push(u8),
    /// Pop the top stack byte, zero-extended, into a register.
    PopReg(Register),
    /// Pop two bytes and push their sum modulo 256.
    AddStack,
}

/// Why a step failed. Every fault is returned to the caller of `step`;
/// nothing is retried or swallowed inside the engine.
#[derive(Clone, Copy, Debug, PartialEq, Eq, Structural)]
pub enum ErrorKind {
    /// The two-byte instruction fetch at the program counter failed; the
    /// program counter was not advanced.
    FetchFault,
    /// The byte carried names no known opcode (or, for a
    /// register-addressed operand, no known register); the program
    /// counter has already advanced past the fetched word.
    DecodeFault(u8),
    /// A stack-relative access went out of bounds; the program counter
    /// has advanced, registers and memory are otherwise unchanged.
    StackFault,
}

/// Opcode byte of `Nop`.
pub const OP_NOP: u8 = 0;

/// Opcode byte of `Push`.
pub const OP_PUSH: u8 = 1;

/// Opcode byte of `PopReg`.
pub const OP_POP_REG: u8 = 2;

/// Opcode byte of `AddStack`.
pub const OP_ADD_STACK: u8 = 3;

/// What decoding an instruction word yields: the instruction, or a
/// `DecodeFault` carrying the offending byte — the opcode byte when it
/// names no operation, the operand byte when it names no register.
pub open spec fn spec_decode(lo: u8, hi: u8) -> Result<Op, ErrorKind> {
    if lo == OP_NOP {
        Ok(Op::Nop)
    } else if lo == OP_PUSH {
        Ok(Op::Push(hi))
    } else if lo == OP_POP_REG {
        match spec_register(hi) {
            Some(r) => Ok(Op::PopReg(r)),
            None => Err(ErrorKind::DecodeFault(hi)),
        }
    } else if lo == OP_ADD_STACK {
        Ok(Op::AddStack)
    } else {
        Err(ErrorKind::DecodeFault(lo))
    }
}

/// Decode an instruction word: `lo` is the opcode byte, `hi` the operand.
pub fn decode(lo: u8, hi: u8) -> (r: Result<Op, ErrorKind>)
    ensures
        r == spec_decode(lo, hi),
{
    match lo {
        OP_NOP => Ok(Op::Nop),
        OP_PUSH => Ok(Op::Push(hi)),
        OP_POP_REG => match hi {
            0 => Ok(Op::PopReg(Register::A)),
            1 => Ok(Op::PopReg(Register::B)),
            2 => Ok(Op::PopReg(Register::C)),
            3 => Ok(Op::PopReg(Register::SP)),
            4 => Ok(Op::PopReg(Register::PC)),
            5 => Ok(Op::PopReg(Register::BP)),
            6 => Ok(Op::PopReg(Register::FLAGS)),
            _ => Err(ErrorKind::DecodeFault(hi)),
        },
        OP_ADD_STACK => Ok(Op::AddStack),
        _ => Err(ErrorKind::DecodeFault(lo)),
    }
}

/// The next address down, wrapping around the 16-bit address space.
/// The stack grows downward: pushing moves the stack pointer this way.
pub open spec fn dec16(x: u16) -> u16 {
    if x == 0 {
        0xffff
    } else {
        (x - 1) as u16
    }
}

/// The next address up, wrapping around the 16-bit address space.
/// Popping moves the stack pointer this way, back toward its origin.
pub open spec fn inc16(x: u16) -> u16 {
    if x == 0xffff {
        0
    } else {
        (x + 1) as u16
    }
}

/// The address two past `x`, wrapping around the 16-bit address space:
/// where the program counter lands after a fetch.
pub open spec fn add2_16(x: u16) -> u16 {
    if x <= 0xfffd {
        (x + 2) as u16
    } else {
        (x - 0xfffe) as u16
    }
}

/// What executing one decoded instruction does to the register file and
/// the memory, and what the caller is told. `regs` already holds the
/// advanced program counter. A faulting instruction changes nothing
/// beyond that advance.
pub open spec fn spec_exec(regs: Seq<u16>, mem: Seq<u8>, op: Op) -> (
    Seq<u16>,
    Seq<u8>,
    Result<(), ErrorKind>,
) {
    match op {
        Op::Nop => (regs, mem, Ok(())),
        Op::Push(v) => {
            let sp = regs[Register::SP.index()];
            if (sp as int) < mem.len() {
                (regs.update(Register::SP.index(), dec16(sp)), mem.update(sp as int, v), Ok(()))
            } else {
                (regs, mem, Err(ErrorKind::StackFault))
            }
        },
        Op::PopReg(r) => {
            let top = inc16(regs[Register::SP.index()]);
            if (top as int) < mem.len() {
                (
                    regs.update(Register::SP.index(), top).update(
                        r.index(),
                        mem[top as int] as u16,
                    ),
                    mem,
                    Ok(()),
                )
            } else {
                (regs, mem, Err(ErrorKind::StackFault))
            }
        },
        Op::AddStack => {
            let first = inc16(regs[Register::SP.index()]);
            let second = inc16(first);
            if (first as int) < mem.len() && (second as int) < mem.len() {
                let sum = ((mem[first as int] + mem[second as int]) % 256) as u8;
                (
                    regs.update(Register::SP.index(), first),
                    mem.update(second as int, sum),
                    Ok(()),
                )
            } else {
                (regs, mem, Err(ErrorKind::StackFault))
            }
        },
    }
}

/// What one fetch-decode-execute step does to the machine state, and what
/// it returns. A failed fetch leaves the state untouched; after a
/// successful fetch the program counter has advanced by two, whatever the
/// instruction then does.
pub open spec fn spec_step(regs: Seq<u16>, mem: Seq<u8>) -> (
    Seq<u16>,
    Seq<u8>,
    Result<(), ErrorKind>,
) {
    let pc = regs[Register::PC.index()];
    match spec_read2(mem, pc) {
        None => (regs, mem, Err(ErrorKind::FetchFault)),
        Some(instr) => {
            let lo = (instr & 0xff) as u8;
            let hi = ((instr >> 8) & 0xff) as u8;
            let advanced = regs.update(Register::PC.index(), add2_16(pc));
            match spec_decode(lo, hi) {
                Ok(op) => spec_exec(advanced, mem, op),
                Err(e) => (advanced, mem, Err(e)),
            }
        },
    }
}

/// One virtual machine: a file of seven 16-bit registers and one
/// exclusively owned linear memory. All mutable state lives here; several
/// machines can run side by side without sharing anything.
pub struct Machine {
    registers: [u16; 7],
    /// The machine's memory. A driver seeds a program into it before
    /// stepping, and may inspect or patch it between steps.
    pub memory: LinearMemory,
}

impl Machine {
    /// The contents of the register file, by register index.
    pub closed spec fn regs(self) -> Seq<u16> {
        self.registers@
    }

    /// The bytes of the machine's memory.
    pub closed spec fn mem(self) -> Seq<u8> {
        self.memory.mem()
    }

    /// Read one memory byte, as a driver inspecting the machine between
    /// steps does.
    pub fn read_memory(&self, addr: u16) -> (r: Option<u8>)
        ensures
            r == spec_read(self.mem(), addr),
    {
        self.memory.read(addr)
    }

    /// Write one memory byte, as a driver seeding a program or patching
    /// data between steps does. Registers are untouched.
    pub fn write_memory(&mut self, addr: u16, value: u8) -> (r: bool)
        ensures
            r == spec_write_ok(old(self).mem(), addr),
            final(self).mem() == spec_write(old(self).mem(), addr, value),
            final(self).regs() == old(self).regs(),
    {
        self.memory.write(addr, value)
    }

    /// Create a machine with `n` bytes of zeroed memory and all
    /// registers zero.
    pub fn with_capacity(n: usize) -> (m: Machine)
        ensures
            m.regs().len() == 7,
            forall|i: int| 0 <= i < 7 ==> m.regs()[i] == 0u16,
            m.mem().len() == n,
            forall|i: int| 0 <= i < n ==> m.mem()[i] == 0u8,
    {
        Machine { registers: [0u16; 7], memory: LinearMemory::new(n) }
    }

    /// Create a machine with the default 8192 bytes of zeroed memory and
    /// all registers zero.
    pub fn new() -> (m: Machine)
        ensures
            m.regs().len() == 7,
            forall|i: int| 0 <= i < 7 ==> m.regs()[i] == 0u16,
            m.mem().len() == 8192,
            forall|i: int| 0 <= i < 8192 ==> m.mem()[i] == 0u8,
    {
        Machine::with_capacity(8 * 1024)
    }

    /// Read one register.
    pub fn get_register(&self, r: Register) -> (v: u16)
        ensures
            v == self.regs()[r.index()],
    {
        let i = r.idx();
        self.registers[i]
    }

    /// Overwrite one register, leaving the rest of the machine untouched.
    pub fn set_register(&mut self, r: Register, value: u16)
        ensures
            final(self).regs() == old(self).regs().update(r.index(), value),
            final(self).mem() == old(self).mem(),
    {
        let i = r.idx();
        self.registers[i] = value;
    }

    /// Apply one decoded instruction to the machine state. The program
    /// counter has already advanced past the instruction; a `StackFault`
    /// leaves everything but that advance unchanged.
    pub fn execute(&mut self, op: Op) -> (r: Result<(), ErrorKind>)
        ensures
            (final(self).regs(), final(self).mem(), r) == spec_exec(
                old(self).regs(),
                old(self).mem(),
                op,
            ),
    {
        let sp_i = Register::SP.idx();
        match op {
            Op::Nop => Ok(()),
            Op::Push(v) => {
                let sp = self.registers[sp_i];
                if self.memory.write(sp, v) {
                    self.registers[sp_i] = if sp == 0 {
                        0xffff
                    } else {
                        sp - 1
                    };
                    Ok(())
                } else {
                    Err(ErrorKind::StackFault)
                }
            },
            Op::PopReg(r) => {
                let sp = self.registers[sp_i];
                let top = if sp == 0xffff {
                    0
                } else {
                    sp + 1
                };
                match self.memory.read(top) {
                    Some(v) => {
                        self.registers[sp_i] = top;
                        let r_i = r.idx();
                        self.registers[r_i] = v as u16;
                        Ok(())
                    },
                    None => Err(ErrorKind::StackFault),
                }
            },
            Op::AddStack => {
                let sp = self.registers[sp_i];
                let first = if sp == 0xffff {
                    0
                } else {
                    sp + 1
                };
                let second = if first == 0xffff {
                    0
                } else {
                    first + 1
                };
                let x = match self.memory.read(first) {
                    Some(x) => x,
                    None => {
                        return Err(ErrorKind::StackFault);
                    },
                };
                let y = match self.memory.read(second) {
                    Some(y) => y,
                    None => {
                        return Err(ErrorKind::StackFault);
                    },
                };
                let sum = (((x as u16) + (y as u16)) % 256) as u8;
                self.memory.write(second, sum);
                self.registers[sp_i] = first;
                Ok(())
            },
        }
    }

    /// Run one fetch-decode-execute cycle: fetch the two-byte instruction
    /// word at the program counter, advance the program counter by two,
    /// decode, and apply the instruction. A failed fetch reports
    /// `FetchFault` and leaves the whole machine state untouched, the
    /// program counter included.
    pub fn step(&mut self) -> (r: Result<(), ErrorKind>)
        ensures
            (final(self).regs(), final(self).mem(), r) == spec_step(
                old(self).regs(),
                old(self).mem(),
            ),
    {
        let pc_i = Register::PC.idx();
        let pc = self.registers[pc_i];
        let instruction = match self.memory.read2(pc) {
            Some(w) => w,
            None => {
                return Err(ErrorKind::FetchFault);
            },
        };
        let lo = (instruction & 0xff) as u8;
        let hi = ((instruction >> 8) & 0xff) as u8;
        self.registers[pc_i] = if pc <= 0xfffd {
            pc + 2
        } else {
            pc - 0xfffe
        };
        match decode(lo, hi) {
            Ok(op) => self.execute(op),
            Err(e) => Err(e),
        }
    }
}

/// Law: a step that decodes `Nop` advances the program counter by exactly
/// two and changes no other register and no memory byte.
pub proof fn lemma_step_nop(regs: Seq<u16>, mem: Seq<u8>, instr: u16)
    requires
        spec_read2(mem, regs[Register::PC.index()]) == Some(instr),
        instr & 0xff == OP_NOP,
    ensures
        spec_step(regs, mem) == (
            regs.update(Register::PC.index(), add2_16(regs[Register::PC.index()])),
            mem,
            Ok::<(), ErrorKind>(()),
        ),
{
    assert((instr & 0xff) as u8 == OP_NOP);
}

/// Law: a fetch whose second byte lies at or beyond the end of memory —
/// or whose first byte does, or sits at the very top of the address
/// space — fails with `FetchFault` and leaves the whole machine state,
/// the program counter included, unchanged.
pub proof fn lemma_step_fetch_fault(regs: Seq<u16>, mem: Seq<u8>)
    requires
        regs[Register::PC.index()] as int + 1 >= mem.len() || regs[Register::PC.index()]
            == 0xffff,
    ensures
        spec_step(regs, mem) == (regs, mem, Err::<(), ErrorKind>(ErrorKind::FetchFault)),
{
}

/// Law: a fetched word whose opcode byte names no instruction yields
/// `DecodeFault` carrying that byte, with the program counter already
/// advanced by two and nothing else changed.
pub proof fn lemma_step_decode_fault(regs: Seq<u16>, mem: Seq<u8>, instr: u16)
    requires
        spec_read2(mem, regs[Register::PC.index()]) == Some(instr),
        instr & 0xff > OP_ADD_STACK,
    ensures
        spec_step(regs, mem) == (
            regs.update(Register::PC.index(), add2_16(regs[Register::PC.index()])),
            mem,
            Err::<(), ErrorKind>(ErrorKind::DecodeFault((instr & 0xff) as u8)),
        ),
{
    assert(instr & 0xff <= 0xff) by (bit_vector);
}

/// Law: pushing an immediate and then popping it into a general register
/// (one that is neither the stack pointer nor the program counter) leaves
/// that register holding the pushed byte, zero-extended, and the stack
/// pointer exactly where it was before the push. The pushed byte remains
/// in memory in the slot it was written to; nothing else changes. The two
/// instructions must not overlap the stack slot they use.
pub proof fn lemma_push_then_pop(regs: Seq<u16>, mem: Seq<u8>, v: u8, r: Register)
    requires
        regs.len() == 7,
        r.index() != Register::SP.index(),
        r.index() != Register::PC.index(),
        ({
            let pc = regs[Register::PC.index()];
            let sp = regs[Register::SP.index()];
            &&& pc + 3 < mem.len()
            &&& pc + 3 <= 0xffff
            &&& mem[pc as int] == OP_PUSH
            &&& mem[pc as int + 1] == v
            &&& mem[pc as int + 2] == OP_POP_REG
            &&& mem[pc as int + 3] as int == r.index()
            &&& (sp as int) < mem.len()
            &&& sp as int != pc + 2
            &&& sp as int != pc + 3
        }),
    ensures
        ({
            let pc = regs[Register::PC.index()];
            let sp = regs[Register::SP.index()];
            let (regs1, mem1, res1) = spec_step(regs, mem);
            let (regs2, mem2, res2) = spec_step(regs1, mem1);
            &&& res1 == Ok::<(), ErrorKind>(())
            &&& res2 == Ok::<(), ErrorKind>(())
            &&& regs2[r.index()] == v as u16
            &&& regs2[Register::SP.index()] == sp
            &&& regs2[Register::PC.index()] == add2_16(add2_16(pc))
            &&& forall|i: int|
                0 <= i < 7 && i != r.index() && i != Register::PC.index() ==> regs2[i] == regs[i]
            &&& mem2 == mem.update(sp as int, v)
        }),
{
    let pc = regs[Register::PC.index()];
    let sp = regs[Register::SP.index()];
    lemma_word_of_parts(OP_PUSH, v);
    lemma_word_of_parts(OP_POP_REG, mem[pc as int + 3]);
    let (regs1, mem1, res1) = spec_step(regs, mem);
    assert(regs1 == regs.update(Register::PC.index(), add2_16(pc)).update(
        Register::SP.index(),
        dec16(sp),
    ));
    assert(mem1 == mem.update(sp as int, v));
    assert(mem1[pc as int + 2] == OP_POP_REG);
    assert(mem1[pc as int + 3] == mem[pc as int + 3]);
    assert(spec_register(mem[pc as int + 3]) == Some(r));
    assert(inc16(dec16(sp)) == sp);
}

/// Law: pushing two immediates, adding them on the stack, and popping the
/// result into a general register (neither the stack pointer nor the
/// program counter) leaves that register holding the sum of the two bytes
/// modulo 256, zero-extended, and the stack pointer exactly where it
/// started. Memory keeps the sum and the second immediate in the two
/// stack slots used; every other byte and register is unchanged. The four
/// instructions must not overlap the two stack slots.
pub proof fn lemma_push_push_add_pop(regs: Seq<u16>, mem: Seq<u8>, x: u8, y: u8, r: Register)
    requires
        regs.len() == 7,
        r.index() != Register::SP.index(),
        r.index() != Register::PC.index(),
        ({
            let pc = regs[Register::PC.index()];
            let sp = regs[Register::SP.index()];
            &&& pc + 7 < mem.len()
            &&& pc + 7 <= 0xffff
            &&& mem[pc as int] == OP_PUSH
            &&& mem[pc as int + 1] == x
            &&& mem[pc as int + 2] == OP_PUSH
            &&& mem[pc as int + 3] == y
            &&& mem[pc as int + 4] == OP_ADD_STACK
            &&& mem[pc as int + 6] == OP_POP_REG
            &&& mem[pc as int + 7] as int == r.index()
            &&& 1 <= sp
            &&& (sp as int) < mem.len()
            &&& (sp as int) < pc || (sp as int) - 1 > pc + 7
        }),
    ensures
        ({
            let pc = regs[Register::PC.index()];
            let sp = regs[Register::SP.index()];
            let (regs1, mem1, res1) = spec_step(regs, mem);
            let (regs2, mem2, res2) = spec_step(regs1, mem1);
            let (regs3, mem3, res3) = spec_step(regs2, mem2);
            let (regs4, mem4, res4) = spec_step(regs3, mem3);
            &&& res1 == Ok::<(), ErrorKind>(())
            &&& res2 == Ok::<(), ErrorKind>(())
            &&& res3 == Ok::<(), ErrorKind>(())
            &&& res4 == Ok::<(), ErrorKind>(())
            &&& regs4[r.index()] == ((x + y) % 256) as u16
            &&& regs4[Register::SP.index()] == sp
            &&& regs4[Register::PC.index()] == add2_16(add2_16(add2_16(add2_16(pc))))
            &&& forall|i: int|
                0 <= i < 7 && i != r.index() && i != Register::PC.index() ==> regs4[i] == regs[i]
            &&& mem4[sp as int] == ((x + y) % 256) as u8
            &&& mem4[sp as int - 1] == y
            &&& mem4.len() == mem.len()
            &&& forall|j: int|
                0 <= j < mem.len() && j != sp as int && j != sp as int - 1 ==> mem4[j] == mem[j]
        }),
{
    let pc = regs[Register::PC.index()];
    let sp = regs[Register::SP.index()];
    lemma_word_of_parts(OP_PUSH, x);
    lemma_word_of_parts(OP_PUSH, y);
    lemma_word_of_parts(OP_ADD_STACK, mem[pc as int + 5]);
    lemma_word_of_parts(OP_POP_REG, mem[pc as int + 7]);
    let (regs1, mem1, res1) = spec_step(regs, mem);
    assert(regs1 == regs.update(Register::PC.index(), add2_16(pc)).update(
        Register::SP.index(),
        dec16(sp),
    ));
    assert(mem1 == mem.update(sp as int, x));
    let (regs2, mem2, res2) = spec_step(regs1, mem1);
    assert(mem1[pc as int + 2] == OP_PUSH && mem1[pc as int + 3] == y);
    assert(dec16(sp) == sp - 1);
    assert(regs2 == regs1.update(Register::PC.index(), add2_16(add2_16(pc))).update(
        Register::SP.index(),
        dec16((sp - 1) as u16),
    ));
    assert(mem2 == mem1.update(sp as int - 1, y));
    let (regs3, mem3, res3) = spec_step(regs2, mem2);
    assert(mem2[pc as int + 4] == OP_ADD_STACK);
    assert(inc16(dec16((sp - 1) as u16)) == (sp - 1) as u16);
    assert(inc16((sp - 1) as u16) == sp);
    assert(mem2[sp as int - 1] == y && mem2[sp as int] == x);
    assert(regs3 == regs2.update(Register::PC.index(), add2_16(add2_16(add2_16(pc)))).update(
        Register::SP.index(),
        (sp - 1) as u16,
    ));
    assert(mem3 == mem2.update(sp as int, ((y + x) % 256) as u8));
    let (regs4, mem4, res4) = spec_step(regs3, mem3);
    assert(mem3[pc as int + 6] == OP_POP_REG && mem3[pc as int + 7] == mem[pc as int + 7]);
    assert(spec_register(mem[pc as int + 7]) == Some(r));
    assert(mem3[sp as int] == ((y + x) % 256) as u8);
    assert(res4 == Ok::<(), ErrorKind>(()));
    assert(regs4[Register::SP.index()] == sp);
}

} // verus!
