//! The compiler from s-expressions to bytecode.
use crate::array::ArraySize;
use crate::bytecode::{
    cond_jump, jump, loadlit, op1, op2, op3, ByteCode, ByteCodeView, Instruction, JumpOffset,
    LiteralId, Opcode, Register,
};
use crate::error::{alloc_error, err_eval, eval_error, RuntimeError, RuntimeErrorView};
use crate::heap::{HeapView, MutatorView};
use crate::list::full_error;
use crate::memory::{AllocError, Ptr};
use crate::pair::{
    get_one_from_pair_list, get_two_from_pair_list, one_from_pair_list, two_from_pair_list,
};
use crate::taggedptr::Value;
use vstd::prelude::*;

verus! {

/// The error for a symbol in operator position that names no operator.
pub open spec fn unbound_function_error() -> RuntimeErrorView {
    eval_error("Symbol is not bound to a function"@)
}

/// The error for an operator position that holds no symbol.
pub open spec fn non_symbol_error() -> RuntimeErrorView {
    eval_error("Non symbol in function-call position"@)
}

/// The error for a `cond` clause without an expression.
pub open spec fn cond_end_error() -> RuntimeErrorView {
    eval_error("Unexpected end of cond list"@)
}

/// The error for a compilation that needs more registers than there are.
pub open spec fn registers_error() -> RuntimeErrorView {
    eval_error("Out of registers"@)
}

/// The error for an expression that is nested more deeply than the fuel allows.
pub open spec fn depth_error() -> RuntimeErrorView {
    eval_error("Expression is nested too deeply"@)
}

/// The state of a compilation: the instructions and the literals emitted so
/// far, and the register that is handed out next.
pub struct CompilerView {
    pub code: Seq<Instruction>,
    pub literals: Seq<Value>,
    pub next_reg: Register,
}

/// How a compilation failed: the error, and the state that the compiler was
/// left in. What was emitted before the failure is still there.
pub struct Failure {
    pub state: CompilerView,
    pub error: RuntimeErrorView,
}

/// What a compilation step gives: the state after it and the register that
/// holds the step's result, or the failure that ended the compilation.
pub type Emitted = Result<(CompilerView, Register), Failure>;

impl CompilerView {
    /// The state before anything is compiled.
    pub open spec fn start() -> CompilerView {
        CompilerView { code: Seq::empty(), literals: Seq::empty(), next_reg: 0 }
    }

    /// The same state with `reg` as the register that is handed out next.
    pub open spec fn with_reg(self, reg: Register) -> CompilerView {
        CompilerView { next_reg: reg, ..self }
    }

    /// The bytecode compiled so far.
    pub open spec fn bytecode(self) -> ByteCodeView {
        ByteCodeView { code: self.code, literals: self.literals }
    }

    /// Hands out the next register. The greatest register index is never
    /// handed out: the counter could not pass it.
    pub open spec fn acquire(self) -> Emitted {
        if self.next_reg < Register::MAX {
            Ok((self.with_reg((self.next_reg + 1) as Register), self.next_reg))
        } else {
            Err(Failure { state: self, error: registers_error() })
        }
    }

    /// Appends an instruction, where the code can still grow.
    pub open spec fn emit(self, instruction: Instruction) -> Result<CompilerView, Failure> {
        if self.code.len() < ArraySize::MAX {
            Ok(CompilerView { code: self.code.push(instruction), ..self })
        } else {
            Err(Failure { state: self, error: full_error() })
        }
    }

    /// Appends an instruction and gives `result` as the step's result.
    pub open spec fn emit_for(self, instruction: Instruction, result: Register) -> Emitted {
        match self.emit(instruction) {
            Ok(after) => Ok((after, result)),
            Err(e) => Err(e),
        }
    }

    /// Loads `literal` into a new register: the register is acquired, the
    /// literal joins the pool, and the load is emitted, in this order.
    pub open spec fn load_literal(self, literal: Value) -> Emitted {
        match self.acquire() {
            Ok((acquired, reg)) => if acquired.literals.len() <= LiteralId::MAX {
                (CompilerView { literals: acquired.literals.push(literal), ..acquired }).emit_for(
                    loadlit(reg, acquired.literals.len() as LiteralId),
                    reg,
                )
            } else {
                Err(Failure { state: acquired, error: full_error() })
            },
            Err(e) => Err(e),
        }
    }

    /// The state with the jump at `address` set to land at the end of the
    /// code emitted so far.
    pub open spec fn land_here(self, address: ArraySize) -> CompilerView {
        CompilerView {
            code: self.code.update(
                address as int,
                self.code[address as int].with_offset(
                    (self.code.len() - address - 1) as JumpOffset,
                ),
            ),
            ..self
        }
    }

    /// The state with the first `count` of the jumps at the addresses
    /// `jumps` set to land at the end of the code emitted so far.
    pub open spec fn land_all(self, jumps: Seq<ArraySize>, count: nat) -> CompilerView
        decreases count,
    {
        if count == 0 {
            self
        } else {
            self.land_all(jumps, (count - 1) as nat).land_here(jumps[count - 1])
        }
    }
}

/// The literal that a symbol named `name` stands for: `Nil` for `nil`, and
/// the symbol itself for every other name.
pub open spec fn symbol_literal(name: Seq<char>, symbol: Value) -> Value {
    if name == "nil"@ {
        Value::Nil
    } else {
        symbol
    }
}

/// Compiles the expression `node`. A pair is an application, and costs one
/// unit of `fuel`; a symbol or any other atom is loaded as a literal.
pub open spec fn eval_code(heap: HeapView, state: CompilerView, node: Value, fuel: nat) -> Emitted
    decreases fuel, 0nat,
{
    match node {
        Value::Pair(p) => if fuel == 0 {
            Err(Failure { state, error: depth_error() })
        } else {
            apply_code(
                heap,
                state,
                heap.pair(p).first,
                heap.pair(p).second,
                (fuel - 1) as nat,
            )
        },
        Value::Symbol(s) => state.load_literal(
            symbol_literal(heap.symbols[s.index() as int], node),
        ),
        _ => state.load_literal(node),
    }
}

/// Compiles the application of `function` to the operand list `params`.
pub open spec fn apply_code(
    heap: HeapView,
    state: CompilerView,
    function: Value,
    params: Value,
    fuel: nat,
) -> Emitted
    decreases fuel, 2nat,
{
    match function {
        Value::Symbol(s) => {
            let name = heap.symbols[s.index() as int];
            if name == "quote"@ {
                match one_from_pair_list(heap, params) {
                    Ok(operand) => state.load_literal(operand),
                    Err(error) => Err(Failure { state, error }),
                }
            } else if name == "atom"@ {
                unary_code(heap, state, Opcode::ATOM, params, fuel)
            } else if name == "car"@ {
                unary_code(heap, state, Opcode::CAR, params, fuel)
            } else if name == "cdr"@ {
                unary_code(heap, state, Opcode::CDR, params, fuel)
            } else if name == "cons"@ {
                binary_code(heap, state, Opcode::CONS, params, fuel)
            } else if name == "cond"@ {
                cond_code(heap, state, params, fuel)
            } else if name == "eq"@ {
                binary_code(heap, state, Opcode::EQ, params, fuel)
            } else {
                Err(Failure { state, error: unbound_function_error() })
            }
        },
        _ => Err(Failure { state, error: non_symbol_error() }),
    }
}

/// Compiles `op` applied to the one operand in `params`: the result's
/// register is acquired first, then the operand is compiled, then the
/// instruction is emitted.
pub open spec fn unary_code(
    heap: HeapView,
    state: CompilerView,
    op: Opcode,
    params: Value,
    fuel: nat,
) -> Emitted
    decreases fuel, 1nat,
{
    match state.acquire() {
        Ok((acquired, result)) => match one_from_pair_list(heap, params) {
            Ok(operand) => match eval_code(heap, acquired, operand, fuel) {
                Ok((after, reg1)) => after.emit_for(op2(op, result, reg1), result),
                Err(e) => Err(e),
            },
            Err(error) => Err(Failure { state: acquired, error }),
        },
        Err(e) => Err(e),
    }
}

/// Compiles `op` applied to the two operands in `params`: the result's
/// register is acquired first, then the operands are compiled from left to
/// right, then the instruction is emitted.
pub open spec fn binary_code(
    heap: HeapView,
    state: CompilerView,
    op: Opcode,
    params: Value,
    fuel: nat,
) -> Emitted
    decreases fuel, 1nat,
{
    match state.acquire() {
        Ok((acquired, result)) => match two_from_pair_list(heap, params) {
            Ok((first, second)) => match eval_code(heap, acquired, first, fuel) {
                Ok((middle, reg1)) => match eval_code(heap, middle, second, fuel) {
                    Ok((after, reg2)) => after.emit_for(op3(op, result, reg1, reg2), result),
                    Err(e) => Err(e),
                },
                Err(e) => Err(e),
            },
            Err(error) => Err(Failure { state: acquired, error }),
        },
        Err(e) => Err(e),
    }
}

/// The condition and the expression of a `cond` clause: the first two items
/// of the list `clause`. What follows them is not looked at.
pub open spec fn clause_parts(heap: HeapView, clause: Value) -> Result<
    (Value, Value),
    RuntimeErrorView,
> {
    match clause {
        Value::Pair(p) => match heap.pair(p).second {
            Value::Pair(q) => Ok((heap.pair(p).first, heap.pair(q).first)),
            _ => Err(cond_end_error()),
        },
        _ => Err(cond_end_error()),
    }
}

/// Compiles the clauses of a `cond` from `head` on, each at the cost of one
/// unit of `fuel`, and gives the state after the last clause together with
/// the addresses of the jumps that end the clauses' expressions, `jumps`
/// being those of the clauses before `head`.
///
/// A clause compiles to its condition, a jump taken unless the condition
/// gave the truth symbol, its expression, and a jump to the end of the
/// whole `cond`. Condition and expression both start at register `result`.
/// The first jump lands behind the second, where the next clause or the
/// fallback starts. The distance of the second is written once the end is
/// known.
pub open spec fn clauses_code(
    heap: HeapView,
    state: CompilerView,
    jumps: Seq<ArraySize>,
    head: Value,
    result: Register,
    fuel: nat,
) -> Result<(CompilerView, Seq<ArraySize>), Failure>
    decreases fuel, 0nat,
{
    match head {
        Value::Pair(p) => if fuel == 0 {
            Err(Failure { state, error: depth_error() })
        } else {
            match clause_parts(heap, heap.pair(p).first) {
                Ok((condition, expression)) => match eval_code(
                    heap,
                    state.with_reg(result),
                    condition,
                    (fuel - 1) as nat,
                ) {
                    Ok((tested, reg)) => match tested.emit(cond_jump(Opcode::JMPNT, reg, 0)) {
                        Ok(branched) => match eval_code(
                            heap,
                            branched.with_reg(result),
                            expression,
                            (fuel - 1) as nat,
                        ) {
                            Ok((valued, _)) => match valued.emit(jump(0)) {
                                Ok(ended) => clauses_code(
                                    heap,
                                    ended.land_here(tested.code.len() as ArraySize),
                                    jumps.push(valued.code.len() as ArraySize),
                                    heap.pair(p).second,
                                    result,
                                    (fuel - 1) as nat,
                                ),
                                Err(e) => Err(e),
                            },
                            Err(e) => Err(e),
                        },
                        Err(e) => Err(e),
                    },
                    Err(e) => Err(e),
                },
                Err(error) => Err(Failure { state, error }),
            }
        },
        _ => Ok((state, jumps)),
    }
}

/// Compiles a `cond` with the clause list `params`. Its result lives in the
/// register that is next when it starts. Behind the clauses stands the
/// fallback, a load of `Nil`, and every clause's end jump lands behind it.
/// A `cond` without clauses compiles to nothing and acquires no register.
pub open spec fn cond_code(heap: HeapView, state: CompilerView, params: Value, fuel: nat) -> Emitted
    decreases fuel, 1nat,
{
    let result = state.next_reg;
    match clauses_code(heap, state, Seq::empty(), params, result, fuel) {
        Ok((after, jumps)) => if jumps.len() > 0 {
            match after.with_reg(result).acquire() {
                Ok((acquired, reg)) => match acquired.emit(op1(Opcode::LOADNIL, reg)) {
                    Ok(closed) => Ok((closed.land_all(jumps, jumps.len()), result)),
                    Err(e) => Err(e),
                },
                Err(e) => Err(e),
            }
        } else {
            Ok((after, result))
        },
        Err(e) => Err(e),
    }
}

/// The fuel that a compilation starts with: one unit for each pair of the
/// heap, which suffices for every expression without a cycle.
pub open spec fn compile_fuel(heap: HeapView) -> nat {
    heap.pairs.len()
}

/// The bytecode of the expression `ast`: its code, and the return of its
/// result.
pub open spec fn compiled(heap: HeapView, ast: Value) -> Result<ByteCodeView, RuntimeErrorView> {
    match eval_code(heap, CompilerView::start(), ast, compile_fuel(heap)) {
        Ok((after, result)) => match after.emit(op1(Opcode::RETURN, result)) {
            Ok(done) => Ok(done.bytecode()),
            Err(failure) => Err(failure.error),
        },
        Err(failure) => Err(failure.error),
    }
}

/// `quote` never evaluates its operand: it compiles to one instruction, the
/// load of the operand itself as a literal, whatever the operand is. What
/// the operand holds cannot make it fail: it succeeds wherever a register, a
/// literal index and an address are left.
pub proof fn law_quote_is_literal(
    heap: HeapView,
    state: CompilerView,
    function: Value,
    params: Value,
    fuel: nat,
)
    requires
        function matches Value::Symbol(s) && heap.symbols[s.index() as int] == "quote"@,
        one_from_pair_list(heap, params) is Ok,
    ensures
        apply_code(heap, state, function, params, fuel) == state.load_literal(
            one_from_pair_list(heap, params)->Ok_0,
        ),
        apply_code(heap, state, function, params, fuel) matches Ok((after, reg)) ==> {
            &&& reg == state.next_reg
            &&& after.literals == state.literals.push(one_from_pair_list(heap, params)->Ok_0)
            &&& after.code == state.code.push(loadlit(reg, state.literals.len() as LiteralId))
        },
        state.next_reg < Register::MAX && state.literals.len() <= LiteralId::MAX
            && state.code.len() < ArraySize::MAX ==> apply_code(
            heap,
            state,
            function,
            params,
            fuel,
        ) is Ok,
{
}

/// An operator position that holds no symbol, and one that holds a symbol
/// that names no operator, fail each with an error of its own, and leave
/// the compiler as it was: nothing is emitted and no register is taken.
pub proof fn law_unknown_operator_fails(
    heap: HeapView,
    state: CompilerView,
    function: Value,
    params: Value,
    fuel: nat,
)
    requires
        function matches Value::Symbol(s) ==> {
            let name = heap.symbols[s.index() as int];
            name != "quote"@ && name != "atom"@ && name != "car"@ && name != "cdr"@ && name
                != "cons"@ && name != "cond"@ && name != "eq"@
        },
    ensures
        apply_code(heap, state, function, params, fuel) == Err::<(CompilerView, Register), _>(
            Failure {
                state,
                error: if function is Symbol {
                    unbound_function_error()
                } else {
                    non_symbol_error()
                },
            },
        ),
        unbound_function_error() != non_symbol_error(),
{
    reveal_strlit("Symbol is not bound to a function");
    reveal_strlit("Non symbol in function-call position");
    assert("Symbol is not bound to a function"@.len() == 33);
    assert("Non symbol in function-call position"@.len() == 36);
}

/// Whether the result `r` and the state `after` are what `expected` says:
/// the register and the state of a success, or the error and the state of
/// a failure.
pub open spec fn emitted(
    r: Result<Register, RuntimeError>,
    after: CompilerView,
    expected: Emitted,
) -> bool {
    match expected {
        Ok((state, reg)) => r is Ok && r->Ok_0 == reg && after == state,
        Err(failure) => r is Err && r->Err_0@ == failure.error && after == failure.state,
    }
}

impl CompilerView {
    /// Setting jumps changes no length.
    pub proof fn lemma_land_all_len(self, jumps: Seq<ArraySize>, count: nat)
        requires
            count <= jumps.len(),
            forall|j: int| 0 <= j < jumps.len() ==> #[trigger] jumps[j] < self.code.len(),
        ensures
            self.land_all(jumps, count).code.len() == self.code.len(),
            self.land_all(jumps, count).literals == self.literals,
            self.land_all(jumps, count).next_reg == self.next_reg,
        decreases count,
    {
        if count > 0 {
            self.lemma_land_all_len(jumps, (count - 1) as nat);
        }
    }
}

/// A compilation in progress: the bytecode so far, and the register counter.
pub struct Compiler {
    bytecode: ByteCode,
    next_reg: Register,
}

impl View for Compiler {
    type V = CompilerView;

    closed spec fn view(&self) -> CompilerView {
        CompilerView {
            code: self.bytecode@.code,
            literals: self.bytecode@.literals,
            next_reg: self.next_reg,
        }
    }
}

impl Compiler {
    /// The bytecode keeps its bounds, and every literal is a value of
    /// `heap`.
    pub closed spec fn wf(&self, heap: HeapView) -> bool {
        &&& self.bytecode.wf()
        &&& forall|i: int|
            0 <= i < self.bytecode@.literals.len() ==> heap.valid(
                #[trigger] self.bytecode@.literals[i],
            )
    }

    /// A compiler that has compiled nothing yet.
    pub fn new() -> (compiler: Compiler)
        ensures
            compiler@ == CompilerView::start(),
            forall|heap: HeapView| compiler.wf(heap),
    {
        Compiler { bytecode: ByteCode::new(), next_reg: 0 }
    }

    /// Compiles `ast` and, behind it, the return of its result.
    pub fn compile(&mut self, mem: &MutatorView, ast: Value) -> (r: Result<(), RuntimeError>)
        requires
            mem.wf(),
            mem@.valid(ast),
            old(self).wf(mem@),
        ensures
            final(self).wf(mem@),
            match eval_code(mem@, old(self)@, ast, compile_fuel(mem@)) {
                Ok((after, result)) => match after.emit(op1(Opcode::RETURN, result)) {
                    Ok(done) => r is Ok && final(self)@ == done,
                    Err(failure) => r is Err && r->Err_0@ == failure.error && final(self)@
                        == failure.state,
                },
                Err(failure) => r is Err && r->Err_0@ == failure.error && final(self)@
                    == failure.state,
            },
    {
        let fuel = mem.pair_count();
        let result_reg = self.compile_eval(mem, ast, fuel)?;
        self.bytecode.push_op1(Opcode::RETURN, result_reg)?;
        Ok(())
    }

    /// Compiles the expression `ast_node` with at most `fuel` nested
    /// applications, and returns the register that holds its result.
    pub fn compile_eval(&mut self, mem: &MutatorView, ast_node: Value, fuel: usize) -> (r: Result<
        Register,
        RuntimeError,
    >)
        requires
            mem.wf(),
            mem@.valid(ast_node),
            old(self).wf(mem@),
        ensures
            final(self).wf(mem@),
            r is Ok ==> final(self)@.code.len() >= old(self)@.code.len(),
            emitted(r, final(self)@, eval_code(mem@, old(self)@, ast_node, fuel as nat)),
        decreases fuel, 0nat,
    {
        match ast_node {
            Value::Pair(p) => {
                if fuel == 0 {
                    return Err(err_eval("Expression is nested too deeply"));
                }
                let pair = mem.pair(p);
                self.compile_apply(mem, pair.first, pair.second, fuel - 1)
            },
            Value::Symbol(s) => {
                let literal = if mem.is_sym(ast_node, "nil") {
                    mem.nil()
                } else {
                    ast_node
                };
                self.push_load_literal(mem, literal)
            },
            _ => self.push_load_literal(mem, ast_node),
        }
    }

    /// Compiles the application of `function` to the operand list `params`.
    pub fn compile_apply(
        &mut self,
        mem: &MutatorView,
        function: Value,
        params: Value,
        fuel: usize,
    ) -> (r: Result<Register, RuntimeError>)
        requires
            mem.wf(),
            mem@.valid(function),
            mem@.valid(params),
            old(self).wf(mem@),
        ensures
            final(self).wf(mem@),
            r is Ok ==> final(self)@.code.len() >= old(self)@.code.len(),
            emitted(r, final(self)@, apply_code(mem@, old(self)@, function, params, fuel as nat)),
        decreases fuel, 2nat,
    {
        match function {
            Value::Symbol(s) => {
                let name = mem.symbol_name(s);
                if same_name(name, "quote") {
                    let operand = get_one_from_pair_list(mem, params)?;
                    self.push_load_literal(mem, operand)
                } else if same_name(name, "atom") {
                    self.push_op2(mem, Opcode::ATOM, params, fuel)
                } else if same_name(name, "car") {
                    self.push_op2(mem, Opcode::CAR, params, fuel)
                } else if same_name(name, "cdr") {
                    self.push_op2(mem, Opcode::CDR, params, fuel)
                } else if same_name(name, "cons") {
                    self.push_op3(mem, Opcode::CONS, params, fuel)
                } else if same_name(name, "cond") {
                    self.compile_apply_cond(mem, params, fuel)
                } else if same_name(name, "eq") {
                    self.push_op3(mem, Opcode::EQ, params, fuel)
                } else {
                    Err(err_eval("Symbol is not bound to a function"))
                }
            },
            _ => Err(err_eval("Non symbol in function-call position")),
        }
    }

    /// Compiles a `cond` with the clause list `params`.
    pub fn compile_apply_cond(&mut self, mem: &MutatorView, params: Value, fuel: usize) -> (r:
        Result<Register, RuntimeError>)
        requires
            mem.wf(),
            mem@.valid(params),
            old(self).wf(mem@),
        ensures
            final(self).wf(mem@),
            r is Ok ==> final(self)@.code.len() >= old(self)@.code.len(),
            emitted(r, final(self)@, cond_code(mem@, old(self)@, params, fuel as nat)),
        decreases fuel, 1nat,
    {
        //
        //   for each clause:
        //     eval condition
        //     if not true then jmp -> next clause
        //     else eval expression
        //     jmp -> end
        //
        let mut end_jumps: Vec<ArraySize> = Vec::new();

        let result = self.next_reg;

        let mut head = params;
        let mut fuel_left = fuel;
        while head.is_pair()
            invariant
                mem.wf(),
                mem@.valid(head),
                self.wf(mem@),
                fuel_left <= fuel,
                self@.code.len() >= old(self)@.code.len(),
                forall|j: int| 0 <= j < end_jumps@.len() ==> #[trigger] end_jumps@[j] < self@.code.len(),
                clauses_code(
                    mem@,
                    old(self)@,
                    Seq::empty(),
                    params,
                    old(self)@.next_reg,
                    fuel as nat,
                ) == clauses_code(mem@, self@, end_jumps@, head, result, fuel_left as nat),
                result == old(self)@.next_reg,
            decreases fuel_left,
        {
            if fuel_left == 0 {
                return Err(err_eval("Expression is nested too deeply"));
            }
            let (clause, rest) = match head {
                Value::Pair(p) => {
                    let pair = mem.pair(p);
                    (pair.first, pair.second)
                },
                _ => (head, head),
            };
            let (condition, expression) = get_clause_parts(mem, clause)?;

            // We have a condition to evaluate. If the result is not true,
            // jump to the next clause.
            self.reset_reg(result);  // reuse this register for condition and result
            let cond_result = self.compile_eval(mem, condition, fuel_left - 1)?;
            self.bytecode.push_cond_jump(Opcode::JMPNT, cond_result)?;
            let cond_jump = self.bytecode.last_instruction();

            // Compile the expression and jump to the end of the entire cond
            self.reset_reg(result);  // reuse this register for condition and result
            let _expr_result = self.compile_eval(mem, expression, fuel_left - 1)?;
            self.bytecode.push_jump()?;
            end_jumps.push(self.bytecode.last_instruction());

            // The next clause, or the fallback, starts here: this is where
            // the condition-not-true jump lands.
            let offset = self.bytecode.next_instruction() - cond_jump - 1;
            self.bytecode.write_jump_offset(cond_jump, offset)?;

            head = rest;
            fuel_left = fuel_left - 1;
        }

        // Close out with a default NIL result if none of the conditions passed
        if end_jumps.len() > 0 {
            self.reset_reg(result);
            self.push_op1(Opcode::LOADNIL)?;
        }
        // Update all the post-expr jumps to point at the next instruction after the entire cond

        let ghost closed = self@;
        let mut patched: usize = 0;
        while patched < end_jumps.len()
            invariant
                self.wf(mem@),
                patched <= end_jumps@.len(),
                forall|j: int| 0 <= j < end_jumps@.len() ==> #[trigger] end_jumps@[j] < closed.code.len(),
                self@ == closed.land_all(end_jumps@, patched as nat),
            decreases end_jumps@.len() - patched,
        {
            proof {
                closed.lemma_land_all_len(end_jumps@, patched as nat);
            }
            let address = end_jumps[patched];
            let offset = self.bytecode.next_instruction() - address - 1;
            self.bytecode.write_jump_offset(address, offset)?;
            patched += 1;
        }
        proof {
            closed.lemma_land_all_len(end_jumps@, end_jumps@.len());
        }

        Ok(result)
    }

    /// Emits an instruction without operands.
    pub fn push_op0(&mut self, op: Opcode) -> (r: Result<(), RuntimeError>)
        requires
            old(self).bytecode_wf(),
        ensures
            final(self).bytecode_wf(),
            final(self)@.literals == old(self)@.literals,
            final(self)@.next_reg == old(self)@.next_reg,
            match old(self)@.emit(crate::bytecode::op0(op)) {
                Ok(after) => r is Ok && final(self)@ == after,
                Err(failure) => r is Err && r->Err_0@ == failure.error && final(self)@
                    == failure.state,
            },
    {
        self.bytecode.push_op0(op)?;
        Ok(())
    }

    /// Emits an instruction whose one register is acquired for it.
    pub fn push_op1(&mut self, op: Opcode) -> (r: Result<Register, RuntimeError>)
        requires
            old(self).bytecode_wf(),
        ensures
            final(self).bytecode_wf(),
            final(self)@.literals == old(self)@.literals,
            r is Ok ==> final(self)@.code.len() >= old(self)@.code.len(),
            emitted(
                r,
                final(self)@,
                match old(self)@.acquire() {
                    Ok((acquired, reg)) => acquired.emit_for(op1(op, reg), reg),
                    Err(e) => Err(e),
                },
            ),
    {
        let result = self.acquire_reg()?;
        self.bytecode.push_op1(op, result)?;
        Ok(result)
    }

    /// Compiles `op` applied to the one operand in `params`.
    pub fn push_op2(&mut self, mem: &MutatorView, op: Opcode, params: Value, fuel: usize) -> (r:
        Result<Register, RuntimeError>)
        requires
            mem.wf(),
            mem@.valid(params),
            old(self).wf(mem@),
        ensures
            final(self).wf(mem@),
            r is Ok ==> final(self)@.code.len() >= old(self)@.code.len(),
            emitted(r, final(self)@, unary_code(mem@, old(self)@, op, params, fuel as nat)),
        decreases fuel, 1nat,
    {
        let result = self.acquire_reg()?;
        let operand = get_one_from_pair_list(mem, params)?;
        let reg1 = self.compile_eval(mem, operand, fuel)?;
        self.bytecode.push_op2(op, result, reg1)?;
        Ok(result)
    }

    /// Compiles `op` applied to the two operands in `params`.
    pub fn push_op3(&mut self, mem: &MutatorView, op: Opcode, params: Value, fuel: usize) -> (r:
        Result<Register, RuntimeError>)
        requires
            mem.wf(),
            mem@.valid(params),
            old(self).wf(mem@),
        ensures
            final(self).wf(mem@),
            r is Ok ==> final(self)@.code.len() >= old(self)@.code.len(),
            emitted(r, final(self)@, binary_code(mem@, old(self)@, op, params, fuel as nat)),
        decreases fuel, 1nat,
    {
        let result = self.acquire_reg()?;
        let (first, second) = get_two_from_pair_list(mem, params)?;
        let reg1 = self.compile_eval(mem, first, fuel)?;
        let reg2 = self.compile_eval(mem, second, fuel)?;
        self.bytecode.push_op3(op, result, reg1, reg2)?;
        Ok(result)
    }

    /// Pushes a literal onto the literal pool and a load instruction onto
    /// the code.
    pub fn push_load_literal(&mut self, mem: &MutatorView, literal: Value) -> (r: Result<
        Register,
        RuntimeError,
    >)
        requires
            mem@.valid(literal),
            old(self).wf(mem@),
        ensures
            final(self).wf(mem@),
            r is Ok ==> final(self)@.code.len() >= old(self)@.code.len(),
            emitted(r, final(self)@, old(self)@.load_literal(literal)),
    {
        let reg = self.acquire_reg()?;
        let lit_id = self.bytecode.push_lit(literal)?;
        self.bytecode.push_loadlit(reg, lit_id)?;
        Ok(reg)
    }

    /// Hands out the next register. This is a naive way of allocating
    /// registers: every result gets its own.
    pub fn acquire_reg(&mut self) -> (r: Result<Register, RuntimeError>)
        ensures
            final(self).bytecode_wf() == old(self).bytecode_wf(),
            forall|heap: HeapView| final(self).wf(heap) == old(self).wf(heap),
            emitted(r, final(self)@, old(self)@.acquire()),
    {
        if self.next_reg == Register::MAX {
            return Err(err_eval("Out of registers"));
        }
        let reg = self.next_reg;
        self.next_reg += 1;
        Ok(reg)
    }

    /// Resets the next register back to `reg` so that it is reused.
    pub fn reset_reg(&mut self, reg: Register)
        ensures
            final(self).bytecode_wf() == old(self).bytecode_wf(),
            forall|heap: HeapView| final(self).wf(heap) == old(self).wf(heap),
            final(self)@ == old(self)@.with_reg(reg),
    {
        self.next_reg = reg
    }

    /// The bytecode keeps its bounds.
    pub closed spec fn bytecode_wf(&self) -> bool {
        self.bytecode.wf()
    }
}

/// Whether two names are the same.
fn same_name(a: &str, b: &str) -> (same: bool)
    ensures
        same == (a@ == b@),
{
    let left = a.to_owned();
    let right = b.to_owned();
    left == right
}

/// The condition and the expression of the `cond` clause `clause`.
pub fn get_clause_parts(mem: &MutatorView, clause: Value) -> (r: Result<
    (Value, Value),
    RuntimeError,
>)
    requires
        mem.wf(),
        mem@.valid(clause),
    ensures
        match clause_parts(mem@, clause) {
            Ok(parts) => r is Ok && r->Ok_0 == parts && mem@.valid(parts.0) && mem@.valid(
                parts.1,
            ),
            Err(e) => r is Err && r->Err_0@ == e,
        },
{
    match clause {
        Value::Pair(p) => {
            let pair = mem.pair(p);
            match pair.second {
                Value::Pair(q) => Ok((pair.first, mem.pair(q).first)),
                _ => Err(err_eval("Unexpected end of cond list")),
            }
        },
        _ => Err(err_eval("Unexpected end of cond list")),
    }
}

/// Compiles the expression `ast` and moves the bytecode into the heap.
///
/// The bytecode is the code of the expression followed by the return of its
/// result. Compilation reads the heap and changes nothing in it; the one
/// change is the new bytecode object at the end.
pub fn compile(mem: &mut MutatorView, ast: Value) -> (r: Result<Ptr<ByteCode>, RuntimeError>)
    requires
        old(mem).wf(),
        old(mem)@.valid(ast),
    ensures
        final(mem).wf(),
        match compiled(old(mem)@, ast) {
            Ok(bytecode) => if old(mem)@.code.has_room() {
                r is Ok && r->Ok_0 == Ptr::<ByteCode>::at(
                    old(mem)@.code.identity,
                    old(mem)@.code.len() as usize,
                )
                    && final(mem)@ == (HeapView {
                    code: old(mem)@.code.push(bytecode),
                    ..old(mem)@
                }) && final(mem)@.has_code(r->Ok_0)
            } else {
                r is Err && r->Err_0@ == alloc_error(AllocError::OutOfMemory) && final(mem)@
                    == old(mem)@
            },
            Err(e) => r is Err && r->Err_0@ == e && final(mem)@ == old(mem)@,
        },
{
    let mut compiler = Compiler::new();
    compiler.compile(mem, ast)?;

    let bytecode = compiler.bytecode;
    mem.alloc_bytecode(bytecode)
}

} // verus!
