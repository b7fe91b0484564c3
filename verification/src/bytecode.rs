//! Bytecode: instructions, the literal pool, and the cursor that reads them.
use crate::array::ArraySize;
use crate::error::{alloc_error, err_eval, ErrorKind, RuntimeError};
use crate::list::{bounds_error, full_error, List};
use crate::memory::{AllocError, Ptr};
use crate::taggedptr::Value;
use vstd::prelude::*;

verus! {

/// The index of a register: a slot of the register stack.
pub type Register = u8;

/// The index of a literal in a bytecode object's literal pool.
pub type LiteralId = u16;

/// The distance of a jump: the number of instructions skipped, counted from
/// the instruction behind the jump. Jumps only go forward.
pub type JumpOffset = u32;

/// The operations of the virtual machine.
#[allow(non_camel_case_types)]
#[derive(Clone, Copy, Debug, PartialEq, Eq, Structural)]
pub enum Opcode {
    HALT,
    RETURN,
    LOADLIT,
    NIL,
    ATOM,
    CAR,
    CDR,
    CONS,
    EQ,
    JMP,
    JMPT,
    JMPNT,
    LOADNIL,
    LOADGLOBAL,
    STOREGLOBAL,
}

/// One instruction: an operation and its operands. An operation reads only
/// the operands it has; the others are zero in what the builders emit.
#[derive(Clone, Copy, Debug, PartialEq, Eq, Structural)]
pub struct Instruction {
    pub op: Opcode,
    pub acc: Register,
    pub reg1: Register,
    pub reg2: Register,
    pub literal: LiteralId,
    pub offset: JumpOffset,
}

/// An instruction without operands.
pub open spec fn op0(op: Opcode) -> Instruction {
    Instruction { op, acc: 0, reg1: 0, reg2: 0, literal: 0, offset: 0 }
}

/// An instruction with the one register `acc`.
pub open spec fn op1(op: Opcode, acc: Register) -> Instruction {
    Instruction { op, acc, reg1: 0, reg2: 0, literal: 0, offset: 0 }
}

/// An instruction with a destination and one source register.
pub open spec fn op2(op: Opcode, acc: Register, reg1: Register) -> Instruction {
    Instruction { op, acc, reg1, reg2: 0, literal: 0, offset: 0 }
}

/// An instruction with a destination and two source registers.
pub open spec fn op3(op: Opcode, acc: Register, reg1: Register, reg2: Register) -> Instruction {
    Instruction { op, acc, reg1, reg2, literal: 0, offset: 0 }
}

/// The instruction that loads literal `literal` into register `acc`.
pub open spec fn loadlit(acc: Register, literal: LiteralId) -> Instruction {
    Instruction { op: Opcode::LOADLIT, acc, reg1: 0, reg2: 0, literal, offset: 0 }
}

/// The unconditional jump over `offset` instructions.
pub open spec fn jump(offset: JumpOffset) -> Instruction {
    Instruction { op: Opcode::JMP, acc: 0, reg1: 0, reg2: 0, literal: 0, offset }
}

/// The jump `op` over `offset` instructions that tests register `reg`.
pub open spec fn cond_jump(op: Opcode, reg: Register, offset: JumpOffset) -> Instruction {
    Instruction { op, acc: 0, reg1: reg, reg2: 0, literal: 0, offset }
}

impl Instruction {
    /// The same instruction with the jump distance `offset`.
    pub open spec fn with_offset(self, offset: JumpOffset) -> Instruction {
        Instruction { offset, ..self }
    }
}

/// A sequence of instructions and the pool of literals they refer to.
#[derive(Debug, PartialEq, Eq)]
pub struct ByteCode {
    code: Vec<Instruction>,
    literals: List,
}

/// A bytecode object as contracts speak of it.
pub struct ByteCodeView {
    pub code: Seq<Instruction>,
    pub literals: Seq<Value>,
}

impl ByteCodeView {
    /// The bytecode with one more instruction at its end.
    pub open spec fn push(self, instruction: Instruction) -> ByteCodeView {
        ByteCodeView { code: self.code.push(instruction), ..self }
    }
}

impl View for ByteCode {
    type V = ByteCodeView;

    closed spec fn view(&self) -> ByteCodeView {
        ByteCodeView { code: self.code@, literals: self.literals@ }
    }
}

impl ByteCode {
    /// Both sequences have lengths that fit an array size.
    pub closed spec fn wf(&self) -> bool {
        &&& self.code@.len() <= ArraySize::MAX
        &&& self.literals.wf()
    }

    /// Lengths are within the array size, as `wf` says.
    pub proof fn lemma_wf_bounds(&self)
        requires
            self.wf(),
        ensures
            self@.code.len() <= ArraySize::MAX,
            self@.literals.len() <= ArraySize::MAX,
    {
        self.literals.lemma_wf_bounds();
    }

    /// Bytecode without instructions and without literals.
    pub fn new() -> (bytecode: ByteCode)
        ensures
            bytecode.wf(),
            bytecode@.code == Seq::<Instruction>::empty(),
            bytecode@.literals == Seq::<Value>::empty(),
    {
        ByteCode { code: Vec::new(), literals: List::new() }
    }

    /// Appends `instruction`, or fails with `BadAllocationRequest`, and
    /// changes nothing, where the code has the greatest length it can have.
    pub fn push(&mut self, instruction: Instruction) -> (r: Result<(), RuntimeError>)
        requires
            old(self).wf(),
        ensures
            final(self).wf(),
            old(self)@.code.len() < ArraySize::MAX ==> r is Ok && final(self)@ == old(self)@.push(
                instruction,
            ),
            old(self)@.code.len() >= ArraySize::MAX ==> r is Err && r->Err_0@ == full_error()
                && final(self)@ == old(self)@,
    {
        if self.code.len() < (ArraySize::MAX as usize) {
            self.code.push(instruction);
            Ok(())
        } else {
            Err(RuntimeError::new(ErrorKind::BadAllocationRequest))
        }
    }

    /// Appends an instruction without operands.
    pub fn push_op0(&mut self, op: Opcode) -> (r: Result<(), RuntimeError>)
        requires
            old(self).wf(),
        ensures
            final(self).wf(),
            old(self)@.code.len() < ArraySize::MAX ==> r is Ok && final(self)@ == old(self)@.push(
                op0(op),
            ),
            old(self)@.code.len() >= ArraySize::MAX ==> r is Err && r->Err_0@ == full_error()
                && final(self)@ == old(self)@,
    {
        self.push(Instruction { op, acc: 0, reg1: 0, reg2: 0, literal: 0, offset: 0 })
    }

    /// Appends an instruction with one register.
    pub fn push_op1(&mut self, op: Opcode, acc: Register) -> (r: Result<(), RuntimeError>)
        requires
            old(self).wf(),
        ensures
            final(self).wf(),
            old(self)@.code.len() < ArraySize::MAX ==> r is Ok && final(self)@ == old(self)@.push(
                op1(op, acc),
            ),
            old(self)@.code.len() >= ArraySize::MAX ==> r is Err && r->Err_0@ == full_error()
                && final(self)@ == old(self)@,
    {
        self.push(Instruction { op, acc, reg1: 0, reg2: 0, literal: 0, offset: 0 })
    }

    /// Appends an instruction with a destination and one source register.
    pub fn push_op2(&mut self, op: Opcode, acc: Register, reg1: Register) -> (r: Result<
        (),
        RuntimeError,
    >)
        requires
            old(self).wf(),
        ensures
            final(self).wf(),
            old(self)@.code.len() < ArraySize::MAX ==> r is Ok && final(self)@ == old(self)@.push(
                op2(op, acc, reg1),
            ),
            old(self)@.code.len() >= ArraySize::MAX ==> r is Err && r->Err_0@ == full_error()
                && final(self)@ == old(self)@,
    {
        self.push(Instruction { op, acc, reg1, reg2: 0, literal: 0, offset: 0 })
    }

    /// Appends an instruction with a destination and two source registers.
    pub fn push_op3(&mut self, op: Opcode, acc: Register, reg1: Register, reg2: Register) -> (r:
        Result<(), RuntimeError>)
        requires
            old(self).wf(),
        ensures
            final(self).wf(),
            old(self)@.code.len() < ArraySize::MAX ==> r is Ok && final(self)@ == old(self)@.push(
                op3(op, acc, reg1, reg2),
            ),
            old(self)@.code.len() >= ArraySize::MAX ==> r is Err && r->Err_0@ == full_error()
                && final(self)@ == old(self)@,
    {
        self.push(Instruction { op, acc, reg1, reg2, literal: 0, offset: 0 })
    }

    /// Appends the load of literal `literal` into register `acc`.
    pub fn push_loadlit(&mut self, acc: Register, literal: LiteralId) -> (r: Result<
        (),
        RuntimeError,
    >)
        requires
            old(self).wf(),
        ensures
            final(self).wf(),
            old(self)@.code.len() < ArraySize::MAX ==> r is Ok && final(self)@ == old(self)@.push(
                loadlit(acc, literal),
            ),
            old(self)@.code.len() >= ArraySize::MAX ==> r is Err && r->Err_0@ == full_error()
                && final(self)@ == old(self)@,
    {
        self.push(
            Instruction { op: Opcode::LOADLIT, acc, reg1: 0, reg2: 0, literal, offset: 0 },
        )
    }

    /// Appends an unconditional jump whose distance is still to be written.
    pub fn push_jump(&mut self) -> (r: Result<(), RuntimeError>)
        requires
            old(self).wf(),
        ensures
            final(self).wf(),
            old(self)@.code.len() < ArraySize::MAX ==> r is Ok && final(self)@ == old(self)@.push(
                jump(0),
            ),
            old(self)@.code.len() >= ArraySize::MAX ==> r is Err && r->Err_0@ == full_error()
                && final(self)@ == old(self)@,
    {
        self.push(
            Instruction { op: Opcode::JMP, acc: 0, reg1: 0, reg2: 0, literal: 0, offset: 0 },
        )
    }

    /// Appends a jump that tests `reg` and whose distance is still to be
    /// written.
    pub fn push_cond_jump(&mut self, op: Opcode, reg: Register) -> (r: Result<(), RuntimeError>)
        requires
            old(self).wf(),
        ensures
            final(self).wf(),
            old(self)@.code.len() < ArraySize::MAX ==> r is Ok && final(self)@ == old(self)@.push(
                cond_jump(op, reg, 0),
            ),
            old(self)@.code.len() >= ArraySize::MAX ==> r is Err && r->Err_0@ == full_error()
                && final(self)@ == old(self)@,
    {
        self.push(Instruction { op, acc: 0, reg1: reg, reg2: 0, literal: 0, offset: 0 })
    }

    /// Writes the distance of the jump at `address`; a bounds error, and no
    /// change, where there is no instruction at `address`.
    pub fn write_jump_offset(&mut self, address: ArraySize, offset: JumpOffset) -> (r: Result<
        (),
        RuntimeError,
    >)
        requires
            old(self).wf(),
        ensures
            final(self).wf(),
            final(self)@.literals == old(self)@.literals,
            address < old(self)@.code.len() ==> r is Ok && final(self)@.code == old(self)@.code.update(address as int, old(self)@.code[address as int].with_offset(offset)),
            address >= old(self)@.code.len() ==> r is Err && r->Err_0@ == bounds_error()
                && final(self)@ == old(self)@,
    {
        if (address as usize) < self.code.len() {
            let instruction = self.code[address as usize];
            self.code.set(address as usize, Instruction { offset, ..instruction });
            Ok(())
        } else {
            Err(err_eval("Index out of bounds"))
        }
    }

    /// Appends `literal` to the pool and returns its index; fails with
    /// `BadAllocationRequest`, and changes nothing, where no literal index
    /// is left for it.
    pub fn push_lit(&mut self, literal: Value) -> (r: Result<LiteralId, RuntimeError>)
        requires
            old(self).wf(),
        ensures
            final(self).wf(),
            final(self)@.code == old(self)@.code,
            old(self)@.literals.len() <= LiteralId::MAX ==> r is Ok && r->Ok_0 == old(self)@.literals.len() && final(self)@.literals == old(self)@.literals.push(literal),
            old(self)@.literals.len() > LiteralId::MAX ==> r is Err && r->Err_0@ == full_error()
                && final(self)@ == old(self)@,
    {
        let length = self.literals.length();
        if length > (LiteralId::MAX as ArraySize) {
            return Err(RuntimeError::new(ErrorKind::BadAllocationRequest));
        }
        let pushed = self.literals.push(literal);
        match pushed {
            Ok(()) => Ok(length as LiteralId),
            Err(e) => Err(e),
        }
    }

    /// The address that the next instruction pushed will have.
    pub fn next_instruction(&self) -> (address: ArraySize)
        requires
            self.wf(),
        ensures
            address == self@.code.len(),
    {
        self.code.len() as ArraySize
    }

    /// The address of the instruction pushed last.
    pub fn last_instruction(&self) -> (address: ArraySize)
        requires
            self.wf(),
            self@.code.len() > 0,
        ensures
            address == self@.code.len() - 1,
    {
        (self.code.len() - 1) as ArraySize
    }

    /// The instruction at `address`, or a bounds error.
    pub fn get_instruction(&self, address: ArraySize) -> (r: Result<Instruction, RuntimeError>)
        ensures
            address < self@.code.len() ==> r == Ok::<Instruction, RuntimeError>(
                self@.code[address as int],
            ),
            address >= self@.code.len() ==> r is Err && r->Err_0@ == bounds_error(),
    {
        if (address as usize) < self.code.len() {
            Ok(self.code[address as usize])
        } else {
            Err(err_eval("Index out of bounds"))
        }
    }

    /// The literal with the index `id`, or a bounds error.
    pub fn get_literal(&self, id: LiteralId) -> (r: Result<Value, RuntimeError>)
        ensures
            id < self@.literals.len() ==> r == Ok::<Value, RuntimeError>(
                self@.literals[id as int],
            ),
            id >= self@.literals.len() ==> r is Err && r->Err_0@ == bounds_error(),
    {
        self.literals.get(id as ArraySize)
    }
}

/// A cursor over a bytecode object: the address of the next instruction to
/// fetch, and the instruction fetched last.
#[derive(Clone, Copy, Debug, PartialEq, Eq)]
pub struct InstructionStream {
    pub code: Ptr<ByteCode>,
    pub ip: ArraySize,
    pub current: Instruction,
}

impl View for InstructionStream {
    type V = InstructionStream;

    open spec fn view(&self) -> InstructionStream {
        *self
    }
}

impl InstructionStream {
    /// The stream after a fetch of `instruction`: one instruction further.
    pub open spec fn fetched(self, instruction: Instruction) -> InstructionStream
        recommends
            self.ip < ArraySize::MAX,
    {
        InstructionStream { code: self.code, ip: (self.ip + 1) as ArraySize, current: instruction }
    }

    /// The stream after the jump that the current instruction holds. A
    /// target beyond the greatest address is that address, at which no
    /// instruction can stand.
    pub open spec fn jumped(self) -> InstructionStream {
        InstructionStream {
            ip: if self.ip + self.current.offset > ArraySize::MAX {
                ArraySize::MAX
            } else {
                (self.ip + self.current.offset) as ArraySize
            },
            ..self
        }
    }

    /// A cursor at the first instruction of `code`.
    pub open spec fn start(code: Ptr<ByteCode>) -> InstructionStream {
        InstructionStream { code, ip: 0, current: op0(Opcode::HALT) }
    }

    /// A cursor at the first instruction of `code`.
    pub fn new(code: Ptr<ByteCode>) -> (stream: InstructionStream)
        ensures
            stream == InstructionStream::start(code),
    {
        InstructionStream {
            code,
            ip: 0,
            current: Instruction {
                op: Opcode::HALT,
                acc: 0,
                reg1: 0,
                reg2: 0,
                literal: 0,
                offset: 0,
            },
        }
    }

    /// Fetches the instruction at the cursor from `code`, which is the
    /// bytecode this stream reads, and moves the cursor behind it; a bounds
    /// error, and no change, where the cursor is behind the last instruction.
    pub fn get_next_opcode(&mut self, code: &ByteCode) -> (r: Result<Opcode, RuntimeError>)
        requires
            code.wf(),
        ensures
            old(self).ip < code@.code.len() ==> r == Ok::<Opcode, RuntimeError>(
                code@.code[old(self).ip as int].op,
            ) && *final(self) == old(self).fetched(code@.code[old(self).ip as int]),
            old(self).ip >= code@.code.len() ==> r is Err && r->Err_0@ == bounds_error() && *final(self) == *old(self),
    {
        proof {
            code.lemma_wf_bounds();
        }
        match code.get_instruction(self.ip) {
            Ok(instruction) => {
                self.current = instruction;
                self.ip = self.ip + 1;
                Ok(instruction.op)
            },
            Err(e) => Err(e),
        }
    }

    /// The destination register of the current instruction.
    pub fn get_reg_acc(&self) -> (reg: Register)
        ensures
            reg == self.current.acc,
    {
        self.current.acc
    }

    /// The first source register of the current instruction.
    pub fn get_reg1(&self) -> (reg: Register)
        ensures
            reg == self.current.reg1,
    {
        self.current.reg1
    }

    /// The second source register of the current instruction.
    pub fn get_reg2(&self) -> (reg: Register)
        ensures
            reg == self.current.reg2,
    {
        self.current.reg2
    }

    /// The literal that the current instruction names, from the pool of
    /// `code`; a bounds error where the pool has no such literal.
    pub fn get_literal(&self, code: &ByteCode) -> (r: Result<Value, RuntimeError>)
        ensures
            self.current.literal < code@.literals.len() ==> r == Ok::<Value, RuntimeError>(
                code@.literals[self.current.literal as int],
            ),
            self.current.literal >= code@.literals.len() ==> r is Err && r->Err_0@
                == bounds_error(),
    {
        code.get_literal(self.current.literal)
    }

    /// Moves the cursor forward by the distance in the current instruction.
    pub fn jump(&mut self)
        ensures
            *final(self) == old(self).jumped(),
    {
        self.ip = match self.ip.checked_add(self.current.offset) {
            Some(target) => target,
            None => ArraySize::MAX,
        };
    }
}

} // verus!
