//! The virtual machine: one step, a bounded run, and a run to the end.
use crate::array::ArraySize;
use crate::bytecode::{
    loadlit, op1, op2, op3, ByteCode, Instruction, InstructionStream, LiteralId, Opcode, Register,
};
use crate::dict::Dict;
use crate::error::{alloc_error, err_eval, eval_error, RuntimeError, RuntimeErrorView};
use crate::heap::{HeapView, MutatorView};
use crate::list::{bounds_error, List};
use crate::memory::{AllocError, Ptr};
use crate::pair::Pair;
use crate::symbol::Symbol;
use crate::taggedptr::Value;
use vstd::prelude::*;

verus! {

broadcast use {Ptr::lemma_identity, Ptr::lemma_at_index};

/// How a step or a run ended.
#[derive(Clone, Copy, Debug, PartialEq, Eq)]
pub enum EvalStatus {
    /// The program has not ended; it can be resumed.
    Pending,
    /// The program returned this value.
    Return(Value),
    /// The program stopped without a value.
    Halt,
}

/// A function object. No instruction creates or calls one yet.
#[derive(Clone, Copy, Debug, PartialEq, Eq)]
pub struct Function {
    pub arity: u8,
    pub code: Ptr<ByteCode>,
    pub name: Ptr<Symbol>,
}

/// The frame of a call. No instruction creates one yet.
#[derive(Clone, Copy, Debug, PartialEq, Eq)]
pub struct CallFrame {
    pub function: Ptr<Function>,
    pub ip: ArraySize,
    pub base: ArraySize,
}

/// The three objects that a program runs on: the register stack, the global
/// bindings, and the instruction stream.
pub struct Machine {
    pub stack: Ptr<List>,
    pub globals: Ptr<Dict>,
    pub stream: Ptr<InstructionStream>,
}

/// What a step or a run leaves behind: the heap, and the status or the error.
pub struct Step {
    pub heap: HeapView,
    pub result: Result<EvalStatus, RuntimeErrorView>,
}

/// The name of the symbol that stands for truth.
pub open spec fn true_name() -> Seq<char> {
    "true"@
}

/// The error for `CAR` of a value that is no pair.
pub open spec fn car_error() -> RuntimeErrorView {
    eval_error("Parameter to CAR is not a list"@)
}

/// The error for `CDR` of a value that is no pair.
pub open spec fn cdr_error() -> RuntimeErrorView {
    eval_error("Parameter to CDR is not a list"@)
}

/// The error for `LOADGLOBAL` of a symbol without a binding.
pub open spec fn unbound_error() -> RuntimeErrorView {
    eval_error("Symbol not bound to value"@)
}

/// The error for `LOADGLOBAL` of a value that is no symbol.
pub open spec fn lookup_type_error() -> RuntimeErrorView {
    eval_error("Cannot lookup value for non-symbol type"@)
}

/// The error for `STOREGLOBAL` to a value that is no symbol.
pub open spec fn bind_type_error() -> RuntimeErrorView {
    eval_error("Cannot bind value to non-symbol type"@)
}

/// The error for a program that halted.
pub open spec fn halted_error() -> RuntimeErrorView {
    eval_error("Program halted"@)
}

/// The error for a program that has not ended when its step budget is spent.
pub open spec fn unfinished_error() -> RuntimeErrorView {
    eval_error("Unexpected end of evaluation"@)
}

impl Machine {
    /// Whether the machine's three objects are objects of `heap`.
    pub open spec fn within(self, heap: HeapView) -> bool {
        &&& heap.has_list(self.stack)
        &&& heap.has_dict(self.globals)
        &&& heap.has_stream(self.stream)
    }

    /// The value in register `reg`, or a bounds error where the stack has
    /// no such register.
    pub open spec fn read(self, heap: HeapView, reg: Register) -> Result<Value, RuntimeErrorView> {
        if reg < heap.list(self.stack).len() {
            Ok(heap.list(self.stack)[reg as int])
        } else {
            Err(bounds_error())
        }
    }

    /// A step that ends with `value` written to register `reg`; a bounds
    /// error, and the heap as it is, where the stack has no such register.
    pub open spec fn write(self, heap: HeapView, reg: Register, value: Value) -> Step {
        if reg < heap.list(self.stack).len() {
            Step {
                heap: heap.with_list(self.stack, heap.list(self.stack).update(reg as int, value)),
                result: Ok(EvalStatus::Pending),
            }
        } else {
            Step { heap, result: Err(bounds_error()) }
        }
    }

    /// A step that ends with the truth symbol in register `reg`.
    pub open spec fn write_true(self, heap: HeapView, reg: Register) -> Step {
        self.write(heap.intern(true_name()), reg, heap.symbol(true_name()))
    }

    /// A step that ends with the jump that the stream's current instruction
    /// holds.
    pub open spec fn jump(self, heap: HeapView) -> Step {
        Step {
            heap: heap.with_stream(self.stream, heap.stream(self.stream).jumped()),
            result: Ok(EvalStatus::Pending),
        }
    }

    /// What the instruction `i` does, once fetched, to `heap`.
    pub open spec fn execute(self, heap: HeapView, i: Instruction) -> Step {
        match i.op {
            Opcode::HALT => Step { heap, result: Ok(EvalStatus::Halt) },
            Opcode::RETURN => match self.read(heap, i.acc) {
                Ok(value) => Step { heap, result: Ok(EvalStatus::Return(value)) },
                Err(e) => Step { heap, result: Err(e) },
            },
            Opcode::LOADLIT => {
                let pool = heap.bytecode(heap.stream(self.stream).code).literals;
                if i.literal < pool.len() {
                    self.write(heap, i.acc, pool[i.literal as int])
                } else {
                    Step { heap, result: Err(bounds_error()) }
                }
            },
            Opcode::NIL => match self.read(heap, i.reg1) {
                Ok(Value::Nil) => self.write_true(heap, i.acc),
                Ok(_) => self.write(heap, i.acc, Value::Nil),
                Err(e) => Step { heap, result: Err(e) },
            },
            Opcode::ATOM => match self.read(heap, i.reg1) {
                Ok(Value::Nil) => self.write(heap, i.acc, Value::Nil),
                Ok(Value::Pair(_)) => self.write(heap, i.acc, Value::Nil),
                Ok(_) => self.write_true(heap, i.acc),
                Err(e) => Step { heap, result: Err(e) },
            },
            Opcode::CAR => match self.read(heap, i.reg1) {
                Ok(Value::Pair(p)) => self.write(heap, i.acc, heap.pair(p).first),
                Ok(_) => Step { heap, result: Err(car_error()) },
                Err(e) => Step { heap, result: Err(e) },
            },
            Opcode::CDR => match self.read(heap, i.reg1) {
                Ok(Value::Pair(p)) => self.write(heap, i.acc, heap.pair(p).second),
                Ok(_) => Step { heap, result: Err(cdr_error()) },
                Err(e) => Step { heap, result: Err(e) },
            },
            Opcode::CONS => match (self.read(heap, i.reg1), self.read(heap, i.reg2)) {
                (Ok(first), Ok(second)) => if heap.pairs.has_room() {
                    self.write(heap.alloc_pair(Pair { first, second }), i.acc, heap.next_pair())
                } else {
                    Step { heap, result: Err(alloc_error(AllocError::OutOfMemory)) }
                },
                (Err(e), _) => Step { heap, result: Err(e) },
                (_, Err(e)) => Step { heap, result: Err(e) },
            },
            Opcode::EQ => match (self.read(heap, i.reg1), self.read(heap, i.reg2)) {
                (Ok(a), Ok(b)) => if a == b {
                    self.write_true(heap, i.acc)
                } else {
                    self.write(heap, i.acc, Value::Nil)
                },
                (Err(e), _) => Step { heap, result: Err(e) },
                (_, Err(e)) => Step { heap, result: Err(e) },
            },
            Opcode::JMP => self.jump(heap),
            Opcode::JMPT => match self.read(heap, i.reg1) {
                Ok(value) => if value == heap.symbol(true_name()) {
                    self.jump(heap.intern(true_name()))
                } else {
                    Step { heap: heap.intern(true_name()), result: Ok(EvalStatus::Pending) }
                },
                Err(e) => Step { heap, result: Err(e) },
            },
            Opcode::JMPNT => match self.read(heap, i.reg1) {
                Ok(value) => if value != heap.symbol(true_name()) {
                    self.jump(heap.intern(true_name()))
                } else {
                    Step { heap: heap.intern(true_name()), result: Ok(EvalStatus::Pending) }
                },
                Err(e) => Step { heap, result: Err(e) },
            },
            Opcode::LOADNIL => self.write(heap, i.acc, Value::Nil),
            Opcode::LOADGLOBAL => match self.read(heap, i.reg1) {
                Ok(Value::Symbol(s)) => if heap.dict(self.globals).contains_key(s.index()) {
                    self.write(heap, i.reg1, heap.dict(self.globals)[s.index()])
                } else {
                    Step { heap, result: Err(unbound_error()) }
                },
                Ok(_) => Step { heap, result: Err(lookup_type_error()) },
                Err(e) => Step { heap, result: Err(e) },
            },
            Opcode::STOREGLOBAL => match self.read(heap, i.acc) {
                Ok(Value::Symbol(s)) => match self.read(heap, i.reg1) {
                    Ok(value) => Step {
                        heap: heap.with_dict(
                            self.globals,
                            heap.dict(self.globals).insert(s.index(), value),
                        ),
                        result: Ok(EvalStatus::Pending),
                    },
                    Err(e) => Step { heap, result: Err(e) },
                },
                Ok(_) => Step { heap, result: Err(bind_type_error()) },
                Err(e) => Step { heap, result: Err(e) },
            },
        }
    }

    /// One step: the instruction at the cursor is fetched, the cursor moves
    /// behind it, and the instruction is executed. A cursor behind the last
    /// instruction is a bounds error.
    pub open spec fn step(self, heap: HeapView) -> Step {
        let stream = heap.stream(self.stream);
        let code = heap.bytecode(stream.code).code;
        if stream.ip < code.len() {
            let i = code[stream.ip as int];
            self.execute(heap.with_stream(self.stream, stream.fetched(i)), i)
        } else {
            Step { heap, result: Err(bounds_error()) }
        }
    }

    /// Up to `budget` steps: the run ends with the first step that is not
    /// `Pending`, and is itself `Pending` where there is none.
    pub open spec fn run(self, heap: HeapView, budget: nat) -> Step
        decreases budget,
    {
        if budget == 0 {
            Step { heap, result: Ok(EvalStatus::Pending) }
        } else {
            let first = self.step(heap);
            match first.result {
                Ok(EvalStatus::Pending) => self.run(first.heap, (budget - 1) as nat),
                _ => first,
            }
        }
    }
}

impl Machine {
    /// A run of `first + rest` steps is a run of `first` steps and, where
    /// that one is still `Pending`, a run of `rest` steps from where it
    /// stopped.
    pub proof fn lemma_run_split(self, heap: HeapView, first: nat, rest: nat)
        ensures
            self.run(heap, first + rest) == match self.run(heap, first).result {
                Ok(EvalStatus::Pending) => self.run(self.run(heap, first).heap, rest),
                _ => self.run(heap, first),
            },
        decreases first,
    {
        if first > 0 {
            let one = self.step(heap);
            if one.result == Ok::<EvalStatus, RuntimeErrorView>(EvalStatus::Pending) {
                self.lemma_run_split(one.heap, (first - 1) as nat, rest);
                assert(self.run(heap, first + rest) == self.run(
                    one.heap,
                    (first + rest - 1) as nat,
                ));
            }
        }
    }
}

impl Machine {
    /// The registers: the items of the stack.
    pub open spec fn registers(self, heap: HeapView) -> Seq<Value> {
        heap.list(self.stack)
    }

    /// Up to `count` runs of `quantum` steps each, one after the other: the
    /// first run that is not `Pending` ends them.
    pub open spec fn run_in_quanta(self, heap: HeapView, quantum: nat, count: nat) -> Step
        decreases count,
    {
        if count == 0 {
            Step { heap, result: Ok(EvalStatus::Pending) }
        } else {
            let first = self.run(heap, quantum);
            match first.result {
                Ok(EvalStatus::Pending) => self.run_in_quanta(
                    first.heap,
                    quantum,
                    (count - 1) as nat,
                ),
                _ => first,
            }
        }
    }

    /// An evaluation cut into runs of any one budget, each resumed where
    /// the one before it stopped as `Pending`, ends with the same status or
    /// error and leaves the same heap as the one run with the whole budget.
    pub proof fn law_budget_interleaving(self, heap: HeapView, quantum: nat, count: nat)
        ensures
            self.run_in_quanta(heap, quantum, count) == self.run(heap, quantum * count),
        decreases count,
    {
        if count == 0 {
            assert(quantum * count == 0) by (nonlinear_arith)
                requires
                    count == 0,
            ;
        } else {
            let fewer = (count - 1) as nat;
            let rest = quantum * fewer;
            assert(quantum * count == quantum + rest) by (nonlinear_arith)
                requires
                    count == fewer + 1,
                    rest == quantum * fewer,
            ;
            self.lemma_run_split(heap, quantum, rest);
            let first = self.run(heap, quantum);
            if first.result == Ok::<EvalStatus, RuntimeErrorView>(EvalStatus::Pending) {
                self.law_budget_interleaving(first.heap, quantum, fewer);
            }
        }
    }

    /// `EQ` compares by identity. It is reflexive and symmetric, it gives
    /// the truth symbol exactly for identical operands, and `Nil` for all
    /// others.
    pub proof fn law_eq_is_identity(self, heap: HeapView, acc: Register, r1: Register, r2: Register)
        requires
            self.within(heap),
            acc < self.registers(heap).len(),
            r1 < self.registers(heap).len(),
            r2 < self.registers(heap).len(),
        ensures
            ({
                let a = self.registers(heap)[r1 as int];
                let b = self.registers(heap)[r2 as int];
                let forth = self.execute(heap, op3(Opcode::EQ, acc, r1, r2));
                let back = self.execute(heap, op3(Opcode::EQ, acc, r2, r1));
                let own = self.execute(heap, op3(Opcode::EQ, acc, r1, r1));
                &&& forth.result == Ok::<EvalStatus, RuntimeErrorView>(EvalStatus::Pending)
                &&& self.registers(own.heap)[acc as int] == heap.symbol(true_name())
                &&& self.registers(forth.heap)[acc as int] == self.registers(back.heap)[acc as int]
                &&& (self.registers(forth.heap)[acc as int] == heap.symbol(true_name())) == (a == b)
                &&& a != b ==> self.registers(forth.heap)[acc as int] == Value::Nil
            }),
    {
    }

    /// Two pairs that `CONS` allocates from the same two values are two
    /// objects: they hold the same, and `EQ` gives `Nil` for them.
    pub proof fn law_cons_is_fresh(
        self,
        heap: HeapView,
        a: Register,
        b: Register,
        x: Register,
        y: Register,
        acc: Register,
    )
        requires
            self.within(heap),
            a < self.registers(heap).len(),
            b < self.registers(heap).len(),
            x < self.registers(heap).len(),
            y < self.registers(heap).len(),
            acc < self.registers(heap).len(),
            a != b && a != x && a != y,
            heap.pairs.has_room_for(2),
        ensures
            ({
                let first = self.execute(heap, op3(Opcode::CONS, a, x, y));
                let second = self.execute(first.heap, op3(Opcode::CONS, b, x, y));
                let compared = self.execute(second.heap, op3(Opcode::EQ, acc, a, b));
                let one = self.registers(second.heap)[a as int];
                let other = self.registers(second.heap)[b as int];
                &&& second.result == Ok::<EvalStatus, RuntimeErrorView>(EvalStatus::Pending)
                &&& one is Pair && other is Pair
                &&& second.heap.pair(one->Pair_0) == second.heap.pair(other->Pair_0)
                &&& one != other
                &&& self.registers(compared.heap)[acc as int] == Value::Nil
            }),
    {
        let first = self.execute(heap, op3(Opcode::CONS, a, x, y));
        let second = self.execute(first.heap, op3(Opcode::CONS, b, x, y));
        let cell = Pair {
            first: self.registers(heap)[x as int],
            second: self.registers(heap)[y as int],
        };
        assert(heap.pairs.has_room());
        assert(first.heap.pairs.has_room());
        assert(self.registers(first.heap)[x as int] == self.registers(heap)[x as int]);
        assert(self.registers(first.heap)[y as int] == self.registers(heap)[y as int]);
    }

    /// `ATOM` gives `Nil` for `Nil` and for a pair, and the truth symbol,
    /// which is not `Nil`, for every other value.
    pub proof fn law_atom(self, heap: HeapView, acc: Register, r1: Register)
        requires
            self.within(heap),
            acc < self.registers(heap).len(),
            r1 < self.registers(heap).len(),
        ensures
            ({
                let operand = self.registers(heap)[r1 as int];
                let after = self.execute(heap, op2(Opcode::ATOM, acc, r1));
                &&& after.result == Ok::<EvalStatus, RuntimeErrorView>(EvalStatus::Pending)
                &&& self.registers(after.heap)[acc as int] == if operand is Nil || operand is Pair {
                    Value::Nil
                } else {
                    heap.symbol(true_name())
                }
                &&& heap.symbol(true_name()) != Value::Nil
            }),
    {
    }

    /// `ATOM` gives `Nil` for a pair that `CONS` has just allocated.
    pub proof fn law_atom_of_cons(
        self,
        heap: HeapView,
        pair: Register,
        x: Register,
        y: Register,
        acc: Register,
    )
        requires
            self.within(heap),
            pair < self.registers(heap).len(),
            x < self.registers(heap).len(),
            y < self.registers(heap).len(),
            acc < self.registers(heap).len(),
            heap.pairs.has_room(),
        ensures
            ({
                let consed = self.execute(heap, op3(Opcode::CONS, pair, x, y));
                let after = self.execute(consed.heap, op2(Opcode::ATOM, acc, pair));
                self.registers(after.heap)[acc as int] == Value::Nil
            }),
    {
    }

    /// `CAR` and `CDR` of a pair that `CONS` has just allocated give the
    /// very values that went into it.
    pub proof fn law_car_cdr_of_cons(
        self,
        heap: HeapView,
        pair: Register,
        x: Register,
        y: Register,
        acc: Register,
    )
        requires
            self.within(heap),
            pair < self.registers(heap).len(),
            x < self.registers(heap).len(),
            y < self.registers(heap).len(),
            acc < self.registers(heap).len(),
            heap.pairs.has_room(),
        ensures
            ({
                let consed = self.execute(heap, op3(Opcode::CONS, pair, x, y));
                let car = self.execute(consed.heap, op2(Opcode::CAR, acc, pair));
                let cdr = self.execute(consed.heap, op2(Opcode::CDR, acc, pair));
                &&& car.result == Ok::<EvalStatus, RuntimeErrorView>(EvalStatus::Pending)
                &&& cdr.result == Ok::<EvalStatus, RuntimeErrorView>(EvalStatus::Pending)
                &&& self.registers(car.heap)[acc as int] == self.registers(heap)[x as int]
                &&& self.registers(cdr.heap)[acc as int] == self.registers(heap)[y as int]
            }),
    {
    }

    /// `LOADLIT` gives the register the literal itself: a program that
    /// loads a literal and returns it, returns that very value.
    pub proof fn law_literal_is_returned(self, heap: HeapView, acc: Register, literal: LiteralId)
        requires
            self.within(heap),
            acc < self.registers(heap).len(),
            heap.has_code(heap.stream(self.stream).code),
            heap.stream(self.stream).ip == 0,
            heap.bytecode(heap.stream(self.stream).code).code == seq![
                loadlit(acc, literal),
                op1(Opcode::RETURN, acc),
            ],
            literal < heap.bytecode(heap.stream(self.stream).code).literals.len(),
        ensures
            self.run(heap, 2).result == Ok::<EvalStatus, RuntimeErrorView>(
                EvalStatus::Return(
                    heap.bytecode(heap.stream(self.stream).code).literals[literal as int],
                ),
            ),
    {
        let first = self.step(heap);
        assert(first.result == Ok::<EvalStatus, RuntimeErrorView>(EvalStatus::Pending));
        assert(first.heap.stream(self.stream).ip == 1);
        let second = self.step(first.heap);
        assert(self.run(first.heap, 1) == second) by {
            assert(self.run(second.heap, 0).result == Ok::<EvalStatus, RuntimeErrorView>(
                EvalStatus::Pending,
            ));
        }
        assert(self.run(heap, 2) == self.run(first.heap, 1));
    }

    /// What `STOREGLOBAL` binds to a symbol, `LOADGLOBAL` of that symbol
    /// gives back.
    pub proof fn law_global_round_trip(self, heap: HeapView, name: Register, value: Register)
        requires
            self.within(heap),
            name < self.registers(heap).len(),
            value < self.registers(heap).len(),
            self.registers(heap)[name as int] is Symbol,
        ensures
            ({
                let stored = self.execute(heap, op2(Opcode::STOREGLOBAL, name, value));
                let loaded = self.execute(stored.heap, op2(Opcode::LOADGLOBAL, 0, name));
                &&& stored.result == Ok::<EvalStatus, RuntimeErrorView>(EvalStatus::Pending)
                &&& loaded.result == Ok::<EvalStatus, RuntimeErrorView>(EvalStatus::Pending)
                &&& self.registers(loaded.heap)[name as int] == self.registers(heap)[value as int]
            }),
    {
    }

    /// `LOADGLOBAL` of a symbol without a binding fails with an evaluation
    /// error and changes nothing.
    pub proof fn law_unbound_global(self, heap: HeapView, name: Register, acc: Register)
        requires
            self.within(heap),
            name < self.registers(heap).len(),
            self.registers(heap)[name as int] matches Value::Symbol(s) && !heap.dict(
                self.globals,
            ).contains_key(s.index()),
        ensures
            self.execute(heap, op2(Opcode::LOADGLOBAL, acc, name)) == (Step {
                heap,
                result: Err(unbound_error()),
            }),
            unbound_error().kind is EvalError,
    {
    }
}

/// A status or an error as contracts speak of it.
pub open spec fn outcome(r: Result<EvalStatus, RuntimeError>) -> Result<
    EvalStatus,
    RuntimeErrorView,
> {
    match r {
        Ok(status) => Ok(status),
        Err(e) => Err(e@),
    }
}

/// Executes the next instruction of `instr` on the registers `stack` and
/// the bindings `globals`.
pub fn eval_next_instr(
    mem: &mut MutatorView,
    stack: Ptr<List>,
    globals: Ptr<Dict>,
    instr: Ptr<InstructionStream>,
) -> (r: Result<EvalStatus, RuntimeError>)
    requires
        old(mem).wf(),
        (Machine { stack, globals, stream: instr }).within(old(mem)@),
    ensures
        final(mem).wf(),
        (Machine { stack, globals, stream: instr }).within(final(mem)@),
        final(mem)@ == (Machine { stack, globals, stream: instr }).step(old(mem)@).heap,
        outcome(r) == (Machine { stack, globals, stream: instr }).step(old(mem)@).result,
{
    let ghost machine = Machine { stack, globals, stream: instr };
    let mut stream = mem.stream(instr);
    let opcode = stream.get_next_opcode(mem.bytecode(stream.code))?;
    mem.set_stream(instr, stream);
    let ghost fetched = mem@;

    match opcode {
        Opcode::HALT => return Ok(EvalStatus::Halt),
        Opcode::RETURN => {
            let reg = stream.get_reg_acc() as ArraySize;
            return Ok(EvalStatus::Return(mem.list(stack).get(reg)?));
        },
        Opcode::LOADLIT => {
            let acc = stream.get_reg_acc() as ArraySize;
            let literal = stream.get_literal(mem.bytecode(stream.code))?;
            mem.list_set(stack, acc, literal)?;
        },
        Opcode::NIL => {
            let acc = stream.get_reg_acc() as ArraySize;
            let reg1 = stream.get_reg1() as ArraySize;

            let reg1_val = mem.list(stack).get(reg1)?;

            match reg1_val {
                Value::Nil => {
                    let true_sym = mem.lookup_sym("true");
                    mem.list_set(stack, acc, true_sym)?
                },
                _ => mem.list_set(stack, acc, Value::Nil)?,
            }
        },
        Opcode::ATOM => {
            let acc = stream.get_reg_acc() as ArraySize;
            let reg1 = stream.get_reg1() as ArraySize;

            let reg1_val = mem.list(stack).get(reg1)?;

            match reg1_val {
                Value::Nil => mem.list_set(stack, acc, Value::Nil)?,
                Value::Pair(_) => mem.list_set(stack, acc, Value::Nil)?,
                _ => {
                    let true_sym = mem.lookup_sym("true");
                    mem.list_set(stack, acc, true_sym)?
                },
            }
        },
        Opcode::CAR => {
            let acc = stream.get_reg_acc() as ArraySize;
            let reg1 = stream.get_reg1() as ArraySize;

            let reg1_val = mem.list(stack).get(reg1)?;

            match reg1_val {
                Value::Pair(p) => {
                    let first = mem.pair(p).first;
                    mem.list_set(stack, acc, first)?
                },
                _ => return Err(err_eval("Parameter to CAR is not a list")),
            }
        },
        Opcode::CDR => {
            let acc = stream.get_reg_acc() as ArraySize;
            let reg1 = stream.get_reg1() as ArraySize;

            let reg1_val = mem.list(stack).get(reg1)?;

            match reg1_val {
                Value::Pair(p) => {
                    let second = mem.pair(p).second;
                    mem.list_set(stack, acc, second)?
                },
                _ => return Err(err_eval("Parameter to CDR is not a list")),
            }
        },
        Opcode::CONS => {
            let acc = stream.get_reg_acc() as ArraySize;
            let reg1 = stream.get_reg1() as ArraySize;
            let reg2 = stream.get_reg2() as ArraySize;

            let reg1_val = mem.list(stack).get(reg1)?;
            let reg2_val = mem.list(stack).get(reg2)?;

            let mut new_pair = Pair::new();
            new_pair.first = reg1_val;
            new_pair.second = reg2_val;

            let pair = mem.alloc_pair(new_pair)?;
            mem.list_set(stack, acc, pair)?
        },
        Opcode::EQ => {
            let acc = stream.get_reg_acc() as ArraySize;
            let reg1 = stream.get_reg1() as ArraySize;
            let reg2 = stream.get_reg2() as ArraySize;

            let reg1_val = mem.list(stack).get(reg1)?;
            let reg2_val = mem.list(stack).get(reg2)?;

            if reg1_val.is(reg2_val) {
                let true_sym = mem.lookup_sym("true");
                mem.list_set(stack, acc, true_sym)?;
            } else {
                mem.list_set(stack, acc, Value::Nil)?;
            }
        },
        Opcode::JMP => {
            stream.jump();
            mem.set_stream(instr, stream);
        },
        Opcode::JMPT => {
            let reg = stream.get_reg1() as ArraySize;
            let reg_val = mem.list(stack).get(reg)?;

            let true_sym = mem.lookup_sym("true");

            if reg_val.is(true_sym) {
                stream.jump();
                mem.set_stream(instr, stream);
            }
        },
        Opcode::JMPNT => {
            let reg = stream.get_reg1() as ArraySize;
            let reg_val = mem.list(stack).get(reg)?;

            let true_sym = mem.lookup_sym("true");

            if !reg_val.is(true_sym) {
                stream.jump();
                mem.set_stream(instr, stream);
            }
        },
        Opcode::LOADNIL => {
            let reg = stream.get_reg_acc() as ArraySize;
            mem.list_set(stack, reg, Value::Nil)?;
        },
        Opcode::LOADGLOBAL => {
            let reg1 = stream.get_reg1() as ArraySize;
            let reg1_val = mem.list(stack).get(reg1)?;

            if let Value::Symbol(_) = reg1_val {
                let lookup_result = mem.dict(globals).lookup(reg1_val);

                match lookup_result {
                    Ok(binding) => mem.list_set(stack, reg1, binding)?,
                    Err(_) => return Err(err_eval("Symbol not bound to value")),
                }
            } else {
                return Err(err_eval("Cannot lookup value for non-symbol type"));
            }
        },
        Opcode::STOREGLOBAL => {
            let assign_reg = stream.get_reg_acc() as ArraySize;
            let reg1 = stream.get_reg1() as ArraySize;

            let assign_reg_val = mem.list(stack).get(assign_reg)?;
            if let Value::Symbol(_) = assign_reg_val {
                let reg1_val = mem.list(stack).get(reg1)?;
                mem.dict_assoc(globals, assign_reg_val, reg1_val)?;
            } else {
                return Err(err_eval("Cannot bind value to non-symbol type"));
            }
        },
    }

    Ok(EvalStatus::Pending)
}

/// Executes up to `max_instr` more instructions of `instr`, and stops early
/// at the first that returns, halts or fails. `Pending` says that the budget
/// is spent; a later call goes on from where this one stopped.
pub fn vm_eval_stream(
    mem: &mut MutatorView,
    stack: Ptr<List>,
    globals: Ptr<Dict>,
    instr: Ptr<InstructionStream>,
    max_instr: ArraySize,
) -> (r: Result<EvalStatus, RuntimeError>)
    requires
        old(mem).wf(),
        (Machine { stack, globals, stream: instr }).within(old(mem)@),
    ensures
        final(mem).wf(),
        (Machine { stack, globals, stream: instr }).within(final(mem)@),
        final(mem)@ == (Machine { stack, globals, stream: instr }).run(
            old(mem)@,
            max_instr as nat,
        ).heap,
        outcome(r) == (Machine { stack, globals, stream: instr }).run(
            old(mem)@,
            max_instr as nat,
        ).result,
{
    let ghost machine = Machine { stack, globals, stream: instr };
    let mut done: ArraySize = 0;
    while done < max_instr
        invariant
            done <= max_instr,
            mem.wf(),
            machine.within(mem@),
            machine == (Machine { stack, globals, stream: instr }),
            machine.run(old(mem)@, max_instr as nat) == machine.run(
                mem@,
                (max_instr - done) as nat,
            ),
        decreases max_instr - done,
    {
        match eval_next_instr(mem, stack, globals, instr)? {
            EvalStatus::Return(value) => return Ok(EvalStatus::Return(value)),
            EvalStatus::Halt => return Ok(EvalStatus::Halt),
            _ => (),
        }
        done += 1;
    }
    Ok(EvalStatus::Pending)
}

/// The instructions that `quick_vm_eval` runs at a time.
pub const QUANTUM: ArraySize = 1024;

/// The number of steps that `quick_vm_eval` grants a program of `length`
/// instructions: whole quanta, and more steps than the program has
/// instructions.
pub open spec fn step_budget(length: nat) -> nat {
    ((length / 1024 + 1) * 1024) as nat
}

/// The result of a whole evaluation, from the run that it ended with.
pub open spec fn verdict(run: Result<EvalStatus, RuntimeErrorView>) -> Result<
    Value,
    RuntimeErrorView,
> {
    match run {
        Ok(EvalStatus::Return(value)) => Ok(value),
        Ok(EvalStatus::Halt) => Err(halted_error()),
        Ok(EvalStatus::Pending) => Err(unfinished_error()),
        Err(e) => Err(e),
    }
}

/// A whole evaluation of `code` on `heap`: a stream at the first instruction
/// is allocated, and the program runs on it for its step budget.
pub open spec fn evaluation(
    heap: HeapView,
    stack: Ptr<List>,
    globals: Ptr<Dict>,
    code: Ptr<ByteCode>,
) -> Step {
    if heap.streams.has_room() {
        (Machine { stack, globals, stream: Ptr::at(heap.streams.identity, heap.streams.len() as usize) }).run(
            HeapView { streams: heap.streams.push(InstructionStream::start(code)), ..heap },
            step_budget(heap.bytecode(code).code.len()),
        )
    } else {
        Step { heap, result: Err(alloc_error(AllocError::OutOfMemory)) }
    }
}

/// A value or an error as contracts speak of it.
pub open spec fn value_outcome(r: Result<Value, RuntimeError>) -> Result<Value, RuntimeErrorView> {
    match r {
        Ok(value) => Ok(value),
        Err(e) => Err(e@),
    }
}

/// Evaluates the whole of `code` on the registers `stack` and the bindings
/// `globals`, a quantum of instructions at a time: the value that the
/// program returns, or an error where it halts, fails, or has not ended
/// when its step budget is spent.
pub fn quick_vm_eval(
    mem: &mut MutatorView,
    stack: Ptr<List>,
    globals: Ptr<Dict>,
    code: Ptr<ByteCode>,
) -> (r: Result<Value, RuntimeError>)
    requires
        old(mem).wf(),
        old(mem)@.has_list(stack),
        old(mem)@.has_dict(globals),
        old(mem)@.has_code(code),
    ensures
        final(mem).wf(),
        final(mem)@ == evaluation(old(mem)@, stack, globals, code).heap,
        value_outcome(r) == verdict(evaluation(old(mem)@, stack, globals, code).result),
{
    let stream = mem.alloc_stream(InstructionStream::new(code))?;
    let ghost machine = Machine { stack, globals, stream };
    let ghost start = mem@;
    let length = mem.bytecode(code).next_instruction();
    let quanta: ArraySize = length / QUANTUM + 1;
    let ghost budget = step_budget(length as nat);

    let mut spent: ArraySize = 0;
    while spent < quanta
        invariant
            spent <= quanta,
            quanta == length / 1024 + 1,
            budget == step_budget(length as nat),
            mem.wf(),
            machine == (Machine { stack, globals, stream }),
            machine.within(mem@),
            evaluation(old(mem)@, stack, globals, code) == machine.run(start, budget),
            machine.run(start, budget) == machine.run(mem@, ((quanta - spent) * 1024) as nat),
        decreases quanta - spent,
    {
        proof {
            let rest = ((quanta - spent - 1) * 1024) as nat;
            assert(1024 + rest == ((quanta - spent) * 1024) as nat);
            machine.lemma_run_split(mem@, 1024, rest);
        }
        let status = vm_eval_stream(mem, stack, globals, stream, QUANTUM)?;
        match status {
            EvalStatus::Return(value) => return Ok(value),
            EvalStatus::Halt => return Err(err_eval("Program halted")),
            _ => (),
        }
        spent += 1;
    }

    Err(err_eval("Unexpected end of evaluation"))
}

} // verus!
