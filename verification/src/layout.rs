//! The shape of compiled code: what compilation never changes, and how the
//! jumps of a `cond` lie.
use crate::array::ArraySize;
use crate::bytecode::{cond_jump, jump, op1, Instruction, JumpOffset, Opcode, Register};
use crate::compiler::{
    apply_code, binary_code, clause_parts, clauses_code, compile_fuel, compiled, cond_code,
    eval_code, unary_code, CompilerView,
};
use crate::heap::HeapView;
use crate::pair::{one_from_pair_list, two_from_pair_list};
use crate::taggedptr::Value;
use vstd::prelude::*;

verus! {

/// Whether `after` has all that `before` has, where `before` has it: the
/// code and the literals of `before` stand unchanged at the front of those
/// of `after`.
pub open spec fn extends(before: CompilerView, after: CompilerView) -> bool {
    &&& before.code.len() <= after.code.len()
    &&& before.literals.len() <= after.literals.len()
    &&& forall|i: int| 0 <= i < before.code.len() ==> #[trigger] after.code[i] == before.code[i]
    &&& forall|i: int|
        0 <= i < before.literals.len() ==> #[trigger] after.literals[i] == before.literals[i]
}

/// Compiling an expression appends: the instructions and literals that were
/// there stay where and what they are. Its result lives in the register
/// that was next when it started.
pub proof fn lemma_eval_extends(heap: HeapView, state: CompilerView, node: Value, fuel: nat)
    ensures
        eval_code(heap, state, node, fuel) matches Ok((after, reg)) ==> extends(state, after)
            && reg == state.next_reg,
    decreases fuel, 0nat,
{
    match node {
        Value::Pair(p) => {
            if fuel > 0 {
                lemma_apply_extends(
                    heap,
                    state,
                    heap.pair(p).first,
                    heap.pair(p).second,
                    (fuel - 1) as nat,
                );
            }
        },
        _ => {},
    }
}

/// Compiling an application appends, and its result lives in the register
/// that was next when it started.
pub proof fn lemma_apply_extends(
    heap: HeapView,
    state: CompilerView,
    function: Value,
    params: Value,
    fuel: nat,
)
    ensures
        apply_code(heap, state, function, params, fuel) matches Ok((after, reg)) ==> extends(
            state,
            after,
        ) && reg == state.next_reg,
    decreases fuel, 3nat,
{
    match function {
        Value::Symbol(s) => {
            lemma_unary_extends(heap, state, Opcode::ATOM, params, fuel);
            lemma_unary_extends(heap, state, Opcode::CAR, params, fuel);
            lemma_unary_extends(heap, state, Opcode::CDR, params, fuel);
            lemma_binary_extends(heap, state, Opcode::CONS, params, fuel);
            lemma_binary_extends(heap, state, Opcode::EQ, params, fuel);
            lemma_cond_extends(heap, state, params, fuel);
        },
        _ => {},
    }
}

/// Compiling a unary operation appends.
pub proof fn lemma_unary_extends(
    heap: HeapView,
    state: CompilerView,
    op: Opcode,
    params: Value,
    fuel: nat,
)
    ensures
        unary_code(heap, state, op, params, fuel) matches Ok((after, reg)) ==> extends(
            state,
            after,
        ) && reg == state.next_reg,
    decreases fuel, 1nat,
{
    match state.acquire() {
        Ok((acquired, result)) => match one_from_pair_list(heap, params) {
            Ok(operand) => {
                lemma_eval_extends(heap, acquired, operand, fuel);
            },
            _ => {},
        },
        _ => {},
    }
}

/// Compiling a binary operation appends.
pub proof fn lemma_binary_extends(
    heap: HeapView,
    state: CompilerView,
    op: Opcode,
    params: Value,
    fuel: nat,
)
    ensures
        binary_code(heap, state, op, params, fuel) matches Ok((after, reg)) ==> extends(
            state,
            after,
        ) && reg == state.next_reg,
    decreases fuel, 1nat,
{
    match state.acquire() {
        Ok((acquired, result)) => match two_from_pair_list(heap, params) {
            Ok((first, second)) => {
                lemma_eval_extends(heap, acquired, first, fuel);
                match eval_code(heap, acquired, first, fuel) {
                    Ok((middle, reg1)) => {
                        lemma_eval_extends(heap, middle, second, fuel);
                    },
                    _ => {},
                }
            },
            _ => {},
        },
        _ => {},
    }
}

/// Setting jumps to land at the end changes the distances of those jumps
/// and nothing else.
pub proof fn lemma_land_all(state: CompilerView, jumps: Seq<ArraySize>, count: nat)
    requires
        count <= jumps.len(),
        forall|j: int| 0 <= j < jumps.len() ==> #[trigger] jumps[j] < state.code.len(),
        forall|j: int, k: int| 0 <= j < k < jumps.len() ==> jumps[j] < jumps[k],
    ensures
        state.land_all(jumps, count).code.len() == state.code.len(),
        state.land_all(jumps, count).literals == state.literals,
        state.land_all(jumps, count).next_reg == state.next_reg,
        forall|j: int|
            0 <= j < count ==> #[trigger] state.land_all(jumps, count).code[jumps[j] as int]
                == state.code[jumps[j] as int].with_offset(
                (state.code.len() - jumps[j] - 1) as JumpOffset,
            ),
        forall|a: int|
            0 <= a < state.code.len() && (forall|j: int| 0 <= j < count ==> jumps[j] != a)
                ==> #[trigger] state.land_all(jumps, count).code[a] == state.code[a],
    decreases count,
{
    if count > 0 {
        lemma_land_all(state, jumps, (count - 1) as nat);
        let before = state.land_all(jumps, (count - 1) as nat);
        let after = state.land_all(jumps, count);
        let last = jumps[count - 1];
        assert(after == before.land_here(last));
        assert(before.code[last as int] == state.code[last as int]);
        assert forall|j: int| 0 <= j < count implies #[trigger] after.code[jumps[j] as int]
            == state.code[jumps[j] as int].with_offset(
            (state.code.len() - jumps[j] - 1) as JumpOffset,
        ) by {
            if j < count - 1 {
                assert(jumps[j] < jumps[count - 1]);
                assert(before.code[jumps[j] as int] == state.code[jumps[j] as int].with_offset(
                    (state.code.len() - jumps[j] - 1) as JumpOffset,
                ));
            }
        }
    }
}

/// One clause of a compiled `cond`: the address of its first instruction,
/// the address of the jump behind its condition, and the address of the
/// jump behind its expression.
pub struct Clause {
    pub begin: int,
    pub test: int,
    pub exit: int,
}

/// Where the clauses of a `cond` lie whose clauses from `head` on are
/// compiled from `state`.
pub open spec fn clause_layout(
    heap: HeapView,
    state: CompilerView,
    head: Value,
    result: Register,
    fuel: nat,
) -> Seq<Clause>
    decreases fuel,
{
    match head {
        Value::Pair(p) => if fuel == 0 {
            Seq::empty()
        } else {
            match clause_parts(heap, heap.pair(p).first) {
                Ok((condition, expression)) => match eval_code(
                    heap,
                    state.with_reg(result),
                    condition,
                    (fuel - 1) as nat,
                ) {
                    Ok((tested, reg)) => match tested.emit(cond_jump(Opcode::JMPNT, reg, 0)) {
                        Ok(branched) => match eval_code(
                            heap,
                            branched.with_reg(result),
                            expression,
                            (fuel - 1) as nat,
                        ) {
                            Ok((valued, _)) => match valued.emit(jump(0)) {
                                Ok(ended) => seq![
                                    Clause {
                                        begin: state.code.len() as int,
                                        test: tested.code.len() as int,
                                        exit: valued.code.len() as int,
                                    },
                                ] + clause_layout(
                                    heap,
                                    ended.land_here(tested.code.len() as ArraySize),
                                    heap.pair(p).second,
                                    result,
                                    (fuel - 1) as nat,
                                ),
                                Err(_) => Seq::empty(),
                            },
                            Err(_) => Seq::empty(),
                        },
                        Err(_) => Seq::empty(),
                    },
                    Err(_) => Seq::empty(),
                },
                Err(_) => Seq::empty(),
            }
        },
        _ => Seq::empty(),
    }
}

/// Whether `code` holds clauses at `clauses`, one behind the other from
/// `begin` on, up to `end`: each clause's conditional jump tests `result`
/// and lands behind the clause, and nothing is said of where the jumps
/// behind the expressions land.
pub open spec fn clauses_chained(
    code: Seq<Instruction>,
    clauses: Seq<Clause>,
    result: Register,
    begin: int,
    end: int,
) -> bool {
    &&& 0 <= begin <= end <= code.len()
    &&& clauses.len() == 0 ==> begin == end
    &&& clauses.len() > 0 ==> clauses[0].begin == begin && clauses.last().exit + 1 == end
    &&& forall|i: int|
        0 <= i < clauses.len() ==> {
            let clause = #[trigger] clauses[i];
            &&& begin <= clause.begin <= clause.test < clause.exit < end
            &&& code[clause.test] == cond_jump(
                Opcode::JMPNT,
                result,
                (clause.exit - clause.test) as JumpOffset,
            )
            &&& code[clause.exit].op == Opcode::JMP
            &&& i + 1 < clauses.len() ==> clauses[i + 1].begin == clause.exit + 1
        }
}

/// A clause that lies before chained clauses is chained with them.
proof fn lemma_clause_joins(
    state: CompilerView,
    landed: CompilerView,
    after: CompilerView,
    jumps: Seq<ArraySize>,
    recorded: Seq<ArraySize>,
    this: Clause,
    rest: Seq<Clause>,
    result: Register,
)
    requires
        this.begin == state.code.len(),
        state.code.len() <= this.test < this.exit,
        landed.code.len() == this.exit + 1,
        landed.code.len() <= ArraySize::MAX,
        landed.literals.len() >= state.literals.len(),
        forall|i: int| 0 <= i < state.code.len() ==> #[trigger] landed.code[i] == state.code[i],
        forall|i: int|
            0 <= i < state.literals.len() ==> #[trigger] landed.literals[i] == state.literals[i],
        landed.code[this.test] == cond_jump(
            Opcode::JMPNT,
            result,
            (this.exit - this.test) as JumpOffset,
        ),
        landed.code[this.exit] == jump(0),
        extends(landed, after),
        recorded.len() == jumps.len() + 1 + rest.len(),
        forall|j: int| 0 <= j < jumps.len() + 1 ==> #[trigger] recorded[j] == jumps.push(
            this.exit as ArraySize,
        )[j],
        forall|i: int| 0 <= i < rest.len() ==> #[trigger] recorded[jumps.len() + 1 + i] == rest[i].exit,
        forall|i: int| 0 <= i < rest.len() ==> after.code[(#[trigger] rest[i]).exit] == jump(0),
        clauses_chained(after.code, rest, result, landed.code.len() as int, after.code.len() as int),
    ensures
        extends(state, after),
        recorded.len() == jumps.len() + (seq![this] + rest).len(),
        forall|j: int| 0 <= j < jumps.len() ==> #[trigger] recorded[j] == jumps[j],
        forall|i: int|
            0 <= i < (seq![this] + rest).len() ==> #[trigger] recorded[jumps.len() + i] == (seq![
                this,
            ] + rest)[i].exit,
        forall|i: int|
            0 <= i < (seq![this] + rest).len() ==> after.code[(#[trigger] (seq![this]
                + rest)[i]).exit] == jump(0),
        clauses_chained(
            after.code,
            seq![this] + rest,
            result,
            state.code.len() as int,
            after.code.len() as int,
        ),
{
    let clauses = seq![this] + rest;
    assert(clauses[0] == this);
    assert forall|i: int| 1 <= i < clauses.len() implies #[trigger] clauses[i] == rest[i - 1] by {}
    assert(after.code[this.test] == landed.code[this.test]);
    assert(after.code[this.exit] == landed.code[this.exit]);
    assert forall|j: int| 0 <= j < jumps.len() implies #[trigger] recorded[j] == jumps[j] by {
        assert(recorded[j] == jumps.push(this.exit as ArraySize)[j]);
    }
    assert forall|i: int| 0 <= i < clauses.len() implies #[trigger] recorded[jumps.len() + i]
        == clauses[i].exit by {
        if i == 0 {
            assert(recorded[jumps.len() as int] == jumps.push(this.exit as ArraySize)[jumps.len() as int]);
        } else {
            assert(recorded[jumps.len() + 1 + (i - 1)] == rest[i - 1].exit);
        }
    }
    assert forall|i: int| 0 <= i < clauses.len() implies after.code[(#[trigger] clauses[i]).exit]
        == jump(0) by {
        if i > 0 {
            assert(after.code[rest[i - 1].exit] == jump(0));
        }
    }
    if rest.len() > 0 {
        assert(clauses.last() == rest.last());
        assert(rest[0].begin == landed.code.len());
    }
    assert forall|i: int| 0 <= i < clauses.len() implies {
        let clause = #[trigger] clauses[i];
        &&& state.code.len() <= clause.begin <= clause.test < clause.exit < after.code.len()
        &&& after.code[clause.test] == cond_jump(
            Opcode::JMPNT,
            result,
            (clause.exit - clause.test) as JumpOffset,
        )
        &&& after.code[clause.exit].op == Opcode::JMP
        &&& i + 1 < clauses.len() ==> clauses[i + 1].begin == clause.exit + 1
    } by {
        if i > 0 {
            let inner = rest[i - 1];
            assert(landed.code.len() <= inner.begin);
            if i + 1 < clauses.len() {
                assert(clauses[i + 1] == rest[i]);
            }
        } else {
            if 1 < clauses.len() {
                assert(clauses[1] == rest[0]);
            }
        }
    }
}

/// Compiling clauses appends; it records the jump behind each clause's
/// expression, still without a distance, in the order of the clauses; and
/// it leaves the clauses chained.
pub proof fn lemma_clauses_extend(
    heap: HeapView,
    state: CompilerView,
    jumps: Seq<ArraySize>,
    head: Value,
    result: Register,
    fuel: nat,
)
    ensures
        clauses_code(heap, state, jumps, head, result, fuel) matches Ok((after, recorded)) ==> {
            let clauses = clause_layout(heap, state, head, result, fuel);
            &&& extends(state, after)
            &&& clauses.len() > 0 ==> after.code.len() <= ArraySize::MAX
            &&& recorded.len() == jumps.len() + clauses.len()
            &&& forall|j: int| 0 <= j < jumps.len() ==> #[trigger] recorded[j] == jumps[j]
            &&& forall|i: int|
                0 <= i < clauses.len() ==> #[trigger] recorded[jumps.len() + i]
                    == clauses[i].exit
            &&& forall|i: int|
                0 <= i < clauses.len() ==> after.code[(#[trigger] clauses[i]).exit] == jump(0)
            &&& clauses_chained(
                after.code,
                clauses,
                result,
                state.code.len() as int,
                after.code.len() as int,
            )
        },
    decreases fuel, 0nat,
{
    match head {
        Value::Pair(p) => {
            if fuel > 0 {
                match clause_parts(heap, heap.pair(p).first) {
                    Ok((condition, expression)) => {
                        let less = (fuel - 1) as nat;
                        lemma_eval_extends(heap, state.with_reg(result), condition, less);
                        match eval_code(heap, state.with_reg(result), condition, less) {
                            Ok((tested, reg)) => match tested.emit(
                                cond_jump(Opcode::JMPNT, reg, 0),
                            ) {
                                Ok(branched) => {
                                    lemma_eval_extends(
                                        heap,
                                        branched.with_reg(result),
                                        expression,
                                        less,
                                    );
                                    match eval_code(
                                        heap,
                                        branched.with_reg(result),
                                        expression,
                                        less,
                                    ) {
                                        Ok((valued, _)) => match valued.emit(jump(0)) {
                                            Ok(ended) => {
                                                let test = tested.code.len() as ArraySize;
                                                let landed = ended.land_here(test);
                                                let exit = valued.code.len() as ArraySize;
                                                lemma_clauses_extend(
                                                    heap,
                                                    landed,
                                                    jumps.push(exit),
                                                    heap.pair(p).second,
                                                    result,
                                                    less,
                                                );
                                                let rest = clause_layout(
                                                    heap,
                                                    landed,
                                                    heap.pair(p).second,
                                                    result,
                                                    less,
                                                );
                                                let this = Clause {
                                                    begin: state.code.len() as int,
                                                    test: test as int,
                                                    exit: exit as int,
                                                };
                                                let clauses = clause_layout(
                                                    heap,
                                                    state,
                                                    head,
                                                    result,
                                                    fuel,
                                                );
                                                assert(clauses =~= seq![this] + rest);
                                                assert(ended.code[test as int] == cond_jump(
                                                    Opcode::JMPNT,
                                                    reg,
                                                    0,
                                                ));
                                                match clauses_code(
                                                    heap,
                                                    landed,
                                                    jumps.push(exit),
                                                    heap.pair(p).second,
                                                    result,
                                                    less,
                                                ) {
                                                    Ok((after, recorded)) => {
                                                        lemma_clause_joins(
                                                            state,
                                                            landed,
                                                            after,
                                                            jumps,
                                                            recorded,
                                                            this,
                                                            rest,
                                                            result,
                                                        );
                                                    },
                                                    _ => {},
                                                }
                                            },
                                            _ => {},
                                        },
                                        _ => {},
                                    }
                                },
                                _ => {},
                            },
                            _ => {},
                        }
                    },
                    _ => {},
                }
            }
        },
        _ => {
            assert(clause_layout(heap, state, head, result, fuel) =~= Seq::<Clause>::empty());
        },
    }
}

/// Compiling a `cond` appends, and its result lives in the register that
/// was next when it started.
pub proof fn lemma_cond_extends(heap: HeapView, state: CompilerView, params: Value, fuel: nat)
    ensures
        cond_code(heap, state, params, fuel) matches Ok((after, reg)) ==> extends(state, after)
            && reg == state.next_reg,
    decreases fuel, 2nat,
{
    law_cond_layout(heap, state, params, fuel);
}

/// Whether `code` holds, from `begin` up to `end`, a whole `cond` with its
/// clauses at `clauses` and its result in register `result`.
///
/// The clauses stand one behind the other, and behind the last stands the
/// fallback, a load of `Nil` into `result`. The jump behind a clause's
/// condition tests `result` and lands on the next clause, or on the
/// fallback for the last clause. The jump behind a clause's expression
/// lands behind the fallback, at `end`. Without a clause there is no code.
pub open spec fn cond_shaped(
    code: Seq<Instruction>,
    clauses: Seq<Clause>,
    result: Register,
    begin: int,
    end: int,
) -> bool {
    if clauses.len() == 0 {
        0 <= begin == end <= code.len()
    } else {
        &&& clauses_chained(code, clauses, result, begin, end - 1)
        &&& end <= code.len()
        &&& code[end - 1] == op1(Opcode::LOADNIL, result)
        &&& forall|i: int|
            0 <= i < clauses.len() ==> code[(#[trigger] clauses[i]).exit] == jump(
                (end - clauses[i].exit - 1) as JumpOffset,
            )
    }
}

/// The code that a `cond` compiles to is shaped as `cond_shaped` says, and
/// what stood before it stands unchanged.
pub proof fn law_cond_layout(heap: HeapView, state: CompilerView, params: Value, fuel: nat)
    ensures
        cond_code(heap, state, params, fuel) matches Ok((after, reg)) ==> {
            &&& reg == state.next_reg
            &&& extends(state, after)
            &&& cond_shaped(
                after.code,
                clause_layout(heap, state, params, state.next_reg, fuel),
                state.next_reg,
                state.code.len() as int,
                after.code.len() as int,
            )
        },
    decreases fuel, 1nat,
{
    let result = state.next_reg;
    let none = Seq::<ArraySize>::empty();
    lemma_clauses_extend(heap, state, none, params, result, fuel);
    match clauses_code(heap, state, none, params, result, fuel) {
        Ok((after, jumps)) => {
            let clauses = clause_layout(heap, state, params, result, fuel);
            if jumps.len() > 0 {
                match after.with_reg(result).acquire() {
                    Ok((acquired, reg)) => match acquired.emit(op1(Opcode::LOADNIL, reg)) {
                        Ok(closed) => {
                            assert forall|i: int| 0 <= i < clauses.len() implies #[trigger] jumps[i]
                                == clauses[i].exit by {
                                assert(jumps[0 + i] == clauses[i].exit);
                            }
                            lemma_close(
                                after.code,
                                closed,
                                jumps,
                                clauses,
                                result,
                                state.code.len() as int,
                            );
                        },
                        _ => {},
                    },
                    _ => {},
                }
            }
        },
        _ => {},
    }
}

/// Behind chained clauses, the fallback and the landing of the recorded
/// jumps make a whole `cond`, and change nothing before the clauses.
proof fn lemma_close(
    chained: Seq<Instruction>,
    closed: CompilerView,
    jumps: Seq<ArraySize>,
    clauses: Seq<Clause>,
    result: Register,
    begin: int,
)
    requires
        clauses.len() > 0,
        jumps.len() == clauses.len(),
        forall|i: int| 0 <= i < clauses.len() ==> #[trigger] jumps[i] == clauses[i].exit,
        forall|i: int| 0 <= i < clauses.len() ==> chained[(#[trigger] clauses[i]).exit] == jump(0),
        clauses_chained(chained, clauses, result, begin, chained.len() as int),
        closed.code == chained.push(op1(Opcode::LOADNIL, result)),
        closed.code.len() <= ArraySize::MAX,
    ensures
        cond_shaped(
            closed.land_all(jumps, jumps.len()).code,
            clauses,
            result,
            begin,
            closed.code.len() as int,
        ),
        closed.land_all(jumps, jumps.len()).code.len() == closed.code.len(),
        closed.land_all(jumps, jumps.len()).literals == closed.literals,
        closed.land_all(jumps, jumps.len()).next_reg == closed.next_reg,
        forall|a: int|
            0 <= a < begin ==> #[trigger] closed.land_all(jumps, jumps.len()).code[a]
                == chained[a],
{
    let done = closed.land_all(jumps, jumps.len());
    let end = closed.code.len() as int;
    assert forall|j: int, k: int| 0 <= j < k < jumps.len() implies jumps[j] < jumps[k] by {
        lemma_exits_ascend(chained, clauses, result, begin, chained.len() as int, j, k);
    }
    assert forall|j: int| 0 <= j < jumps.len() implies #[trigger] jumps[j] < closed.code.len() by {
        let clause = clauses[j];
        assert(clause.exit < chained.len());
    }
    lemma_land_all(closed, jumps, jumps.len());
    assert forall|a: int|
        0 <= a < closed.code.len() && closed.code[a].op != Opcode::JMP implies done.code[a]
        == closed.code[a] by {
        assert forall|j: int| 0 <= j < jumps.len() implies jumps[j] != a by {
            assert(chained[clauses[j].exit] == jump(0));
            let clause = clauses[j];
            assert(clause.exit < chained.len());
        }
    }
    assert forall|a: int| 0 <= a < begin implies #[trigger] done.code[a] == chained[a] by {
        assert forall|j: int| 0 <= j < jumps.len() implies jumps[j] != a by {
            let clause = clauses[j];
            assert(begin <= clause.begin <= clause.test < clause.exit);
        }
        assert(closed.code[a] == chained[a]);
    }
    assert forall|i: int| 0 <= i < clauses.len() implies done.code[(#[trigger] clauses[i]).exit]
        == jump((end - clauses[i].exit - 1) as JumpOffset) by {
        let clause = clauses[i];
        assert(clause.exit < chained.len());
        assert(done.code[jumps[i] as int] == closed.code[jumps[i] as int].with_offset(
            (closed.code.len() - jumps[i] - 1) as JumpOffset,
        ));
        assert(closed.code[clause.exit] == chained[clause.exit]);
    }
    assert forall|i: int| 0 <= i < clauses.len() implies {
        let clause = #[trigger] clauses[i];
        &&& begin <= clause.begin <= clause.test < clause.exit < end - 1
        &&& done.code[clause.test] == cond_jump(
            Opcode::JMPNT,
            result,
            (clause.exit - clause.test) as JumpOffset,
        )
        &&& done.code[clause.exit].op == Opcode::JMP
        &&& i + 1 < clauses.len() ==> clauses[i + 1].begin == clause.exit + 1
    } by {
        let clause = clauses[i];
        assert(clause.test < chained.len());
        assert(closed.code[clause.test] == chained[clause.test]);
        assert(closed.code[clause.test].op != Opcode::JMP);
    }
    assert(closed.code[end - 1] == op1(Opcode::LOADNIL, result));
    assert(done.code[end - 1] == closed.code[end - 1]);
}

/// The jumps behind the expressions of chained clauses lie at ascending
/// addresses.
proof fn lemma_exits_ascend(
    code: Seq<Instruction>,
    clauses: Seq<Clause>,
    result: Register,
    begin: int,
    end: int,
    j: int,
    k: int,
)
    requires
        clauses_chained(code, clauses, result, begin, end),
        0 <= j < k < clauses.len(),
    ensures
        clauses[j].exit < clauses[k].exit,
    decreases k - j,
{
    if j + 1 < k {
        lemma_exits_ascend(code, clauses, result, begin, end, j + 1, k);
        assert(clauses[j + 1].begin == clauses[j].exit + 1);
        let next = clauses[j + 1];
        assert(next.begin <= next.test < next.exit);
    } else {
        assert(clauses[j + 1].begin == clauses[j].exit + 1);
        let next = clauses[k];
        assert(next.begin <= next.test < next.exit);
    }
}

/// Code that agrees with the code of a `cond` where the `cond` lies holds
/// that `cond`, shaped as it was.
pub proof fn lemma_shape_stays(
    before: Seq<Instruction>,
    after: Seq<Instruction>,
    clauses: Seq<Clause>,
    result: Register,
    begin: int,
    end: int,
)
    requires
        cond_shaped(before, clauses, result, begin, end),
        end <= after.len(),
        forall|a: int| begin <= a < end ==> #[trigger] after[a] == before[a],
    ensures
        cond_shaped(after, clauses, result, begin, end),
{
    if clauses.len() > 0 {
        assert forall|i: int| 0 <= i < clauses.len() implies {
            let clause = #[trigger] clauses[i];
            &&& begin <= clause.begin <= clause.test < clause.exit < end - 1
            &&& after[clause.test] == cond_jump(
                Opcode::JMPNT,
                result,
                (clause.exit - clause.test) as JumpOffset,
            )
            &&& after[clause.exit].op == Opcode::JMP
            &&& i + 1 < clauses.len() ==> clauses[i + 1].begin == clause.exit + 1
            &&& after[clause.exit] == jump((end - clause.exit - 1) as JumpOffset)
        } by {
            let clause = clauses[i];
            assert(after[clause.test] == before[clause.test]);
            assert(after[clause.exit] == before[clause.exit]);
        }
        assert(after[end - 1] == before[end - 1]);
    }
}

/// The bytecode of every expression ends in the return of register 0, the
/// register of the expression's result, and what stands before the return
/// is the code of the expression.
pub proof fn law_compiled_ends_in_return(heap: HeapView, ast: Value)
    requires
        compiled(heap, ast) is Ok,
    ensures
        ({
            let code = compiled(heap, ast)->Ok_0.code;
            let body = eval_code(heap, CompilerView::start(), ast, compile_fuel(heap));
            &&& body is Ok
            &&& body->Ok_0.1 == 0
            &&& code == body->Ok_0.0.code.push(op1(Opcode::RETURN, 0))
            &&& compiled(heap, ast)->Ok_0.literals == body->Ok_0.0.literals
        }),
{
    lemma_eval_extends(heap, CompilerView::start(), ast, compile_fuel(heap));
}

/// The bytecode of a `cond` expression is the `cond`, shaped as
/// `cond_shaped` says, with its result in register 0, and behind it the
/// return of that register.
pub proof fn law_compiled_cond(heap: HeapView, ast: Value)
    requires
        ast matches Value::Pair(p) && (heap.pair(p).first matches Value::Symbol(s)
            && heap.symbols[s.index() as int] == "cond"@),
        compiled(heap, ast) is Ok,
    ensures
        ({
            let code = compiled(heap, ast)->Ok_0.code;
            let clauses = clause_layout(
                heap,
                CompilerView::start(),
                heap.pair(ast->Pair_0).second,
                0,
                (compile_fuel(heap) - 1) as nat,
            );
            &&& code.len() > 0
            &&& code.last() == op1(Opcode::RETURN, 0)
            &&& cond_shaped(code, clauses, 0, 0, code.len() - 1)
        }),
{
    reveal_strlit("cond");
    reveal_strlit("quote");
    reveal_strlit("atom");
    reveal_strlit("car");
    reveal_strlit("cdr");
    reveal_strlit("cons");
    let start = CompilerView::start();
    let fuel = compile_fuel(heap);
    let p = ast->Pair_0;
    let params = heap.pair(p).second;
    assert("cond"@ != "quote"@ && "cond"@ != "atom"@ && "cond"@ != "car"@ && "cond"@ != "cdr"@
        && "cond"@ != "cons"@) by {
        assert("cond"@[2] == 'n');
        assert("quote"@[2] == 'o');
        assert("atom"@[2] == 'o');
        assert("car"@.len() == 3);
        assert("cdr"@.len() == 3);
        assert("cons"@[3] == 's');
        assert("cond"@[3] == 'd');
    }
    assert(fuel > 0);
    let less = (fuel - 1) as nat;
    assert(eval_code(heap, start, ast, fuel) == cond_code(heap, start, params, less));
    law_cond_layout(heap, start, params, less);
    match cond_code(heap, start, params, less) {
        Ok((after, reg)) => {
            let done = after.emit(op1(Opcode::RETURN, reg))->Ok_0;
            let clauses = clause_layout(heap, start, params, 0, less);
            lemma_shape_stays(after.code, done.code, clauses, 0, 0, after.code.len() as int);
        },
        _ => {},
    }
}

/// What extends a state that extends another, extends that other.
pub proof fn lemma_extends_chain(first: CompilerView, second: CompilerView, third: CompilerView)
    requires
        extends(first, second),
        extends(second, third),
    ensures
        extends(first, third),
{
    assert forall|i: int| 0 <= i < first.code.len() implies #[trigger] third.code[i]
        == first.code[i] by {
        assert(second.code[i] == first.code[i]);
    }
    assert forall|i: int| 0 <= i < first.literals.len() implies #[trigger] third.literals[i]
        == first.literals[i] by {
        assert(second.literals[i] == first.literals[i]);
    }
}

/// A compilation that fails leaves standing what stood before it: the
/// instructions and literals that were there are there, unchanged, in the
/// state that the failure leaves.
pub proof fn law_failure_keeps_code(heap: HeapView, state: CompilerView, node: Value, fuel: nat)
    ensures
        eval_code(heap, state, node, fuel) matches Err(failure) ==> extends(state, failure.state),
    decreases fuel, 0nat,
{
    match node {
        Value::Pair(p) => {
            if fuel > 0 {
                lemma_apply_failure(
                    heap,
                    state,
                    heap.pair(p).first,
                    heap.pair(p).second,
                    (fuel - 1) as nat,
                );
            }
        },
        _ => {},
    }
}

/// An application that fails to compile leaves standing what stood before
/// it.
pub proof fn lemma_apply_failure(
    heap: HeapView,
    state: CompilerView,
    function: Value,
    params: Value,
    fuel: nat,
)
    ensures
        apply_code(heap, state, function, params, fuel) matches Err(failure) ==> extends(
            state,
            failure.state,
        ),
    decreases fuel, 3nat,
{
    match function {
        Value::Symbol(s) => {
            lemma_unary_failure(heap, state, Opcode::ATOM, params, fuel);
            lemma_unary_failure(heap, state, Opcode::CAR, params, fuel);
            lemma_unary_failure(heap, state, Opcode::CDR, params, fuel);
            lemma_binary_failure(heap, state, Opcode::CONS, params, fuel);
            lemma_binary_failure(heap, state, Opcode::EQ, params, fuel);
            lemma_cond_failure(heap, state, params, fuel);
        },
        _ => {},
    }
}

/// A unary operation that fails to compile leaves standing what stood
/// before it.
pub proof fn lemma_unary_failure(
    heap: HeapView,
    state: CompilerView,
    op: Opcode,
    params: Value,
    fuel: nat,
)
    ensures
        unary_code(heap, state, op, params, fuel) matches Err(failure) ==> extends(
            state,
            failure.state,
        ),
    decreases fuel, 1nat,
{
    match state.acquire() {
        Ok((acquired, result)) => match one_from_pair_list(heap, params) {
            Ok(operand) => {
                lemma_eval_extends(heap, acquired, operand, fuel);
                law_failure_keeps_code(heap, acquired, operand, fuel);
                match eval_code(heap, acquired, operand, fuel) {
                    Err(failure) => {
                        lemma_extends_chain(state, acquired, failure.state);
                    },
                    Ok((after, _)) => {
                        lemma_extends_chain(state, acquired, after);
                    },
                }
            },
            _ => {},
        },
        _ => {},
    }
}

/// A binary operation that fails to compile leaves standing what stood
/// before it.
pub proof fn lemma_binary_failure(
    heap: HeapView,
    state: CompilerView,
    op: Opcode,
    params: Value,
    fuel: nat,
)
    ensures
        binary_code(heap, state, op, params, fuel) matches Err(failure) ==> extends(
            state,
            failure.state,
        ),
    decreases fuel, 1nat,
{
    match state.acquire() {
        Ok((acquired, result)) => match two_from_pair_list(heap, params) {
            Ok((first, second)) => {
                lemma_eval_extends(heap, acquired, first, fuel);
                law_failure_keeps_code(heap, acquired, first, fuel);
                match eval_code(heap, acquired, first, fuel) {
                    Err(failure) => {
                        lemma_extends_chain(state, acquired, failure.state);
                    },
                    Ok((middle, _)) => {
                        lemma_extends_chain(state, acquired, middle);
                        lemma_eval_extends(heap, middle, second, fuel);
                        law_failure_keeps_code(heap, middle, second, fuel);
                        match eval_code(heap, middle, second, fuel) {
                            Err(failure) => {
                                lemma_extends_chain(state, middle, failure.state);
                            },
                            Ok((after, _)) => {
                                lemma_extends_chain(state, middle, after);
                            },
                        }
                    },
                }
            },
            _ => {},
        },
        _ => {},
    }
}

/// A `cond` that fails to compile leaves standing what stood before it.
pub proof fn lemma_cond_failure(heap: HeapView, state: CompilerView, params: Value, fuel: nat)
    ensures
        cond_code(heap, state, params, fuel) matches Err(failure) ==> extends(
            state,
            failure.state,
        ),
    decreases fuel, 2nat,
{
    let none = Seq::<ArraySize>::empty();
    lemma_clauses_failure(heap, state, none, params, state.next_reg, fuel);
    lemma_clauses_extend(heap, state, none, params, state.next_reg, fuel);
}

/// Clauses that fail to compile leave standing what stood before them.
pub proof fn lemma_clauses_failure(
    heap: HeapView,
    state: CompilerView,
    jumps: Seq<ArraySize>,
    head: Value,
    result: Register,
    fuel: nat,
)
    ensures
        clauses_code(heap, state, jumps, head, result, fuel) matches Err(failure) ==> extends(
            state,
            failure.state,
        ),
    decreases fuel, 0nat,
{
    match head {
        Value::Pair(p) => {
            if fuel > 0 {
                let less = (fuel - 1) as nat;
                match clause_parts(heap, heap.pair(p).first) {
                    Ok((condition, expression)) => {
                        let entered = state.with_reg(result);
                        lemma_eval_extends(heap, entered, condition, less);
                        law_failure_keeps_code(heap, entered, condition, less);
                        match eval_code(heap, entered, condition, less) {
                            Ok((tested, reg)) => match tested.emit(
                                cond_jump(Opcode::JMPNT, reg, 0),
                            ) {
                                Ok(branched) => {
                                    let resumed = branched.with_reg(result);
                                    lemma_extends_chain(state, tested, resumed);
                                    lemma_eval_extends(heap, resumed, expression, less);
                                    law_failure_keeps_code(heap, resumed, expression, less);
                                    match eval_code(heap, resumed, expression, less) {
                                        Ok((valued, _)) => {
                                            lemma_extends_chain(state, resumed, valued);
                                            match valued.emit(jump(0)) {
                                                Ok(ended) => {
                                                    let landed = ended.land_here(
                                                        tested.code.len() as ArraySize,
                                                    );
                                                    assert(extends(state, landed));
                                                    lemma_clauses_failure(
                                                        heap,
                                                        landed,
                                                        jumps.push(
                                                            valued.code.len() as ArraySize,
                                                        ),
                                                        heap.pair(p).second,
                                                        result,
                                                        less,
                                                    );
                                                    match clauses_code(
                                                        heap,
                                                        landed,
                                                        jumps.push(
                                                            valued.code.len() as ArraySize,
                                                        ),
                                                        heap.pair(p).second,
                                                        result,
                                                        less,
                                                    ) {
                                                        Err(failure) => {
                                                            lemma_extends_chain(
                                                                state,
                                                                landed,
                                                                failure.state,
                                                            );
                                                        },
                                                        _ => {},
                                                    }
                                                },
                                                _ => {},
                                            }
                                        },
                                        Err(failure) => {
                                            lemma_extends_chain(state, resumed, failure.state);
                                        },
                                    }
                                },
                                _ => {},
                            },
                            _ => {},
                        }
                    },
                    _ => {},
                }
            }
        },
        _ => {},
    }
}

} // verus!
