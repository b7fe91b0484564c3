//! How deep an expression may be nested before the compiler gives it up.
use crate::array::ArraySize;
use crate::compiler::{
    apply_code, binary_code, clause_parts, clauses_code, cond_code, depth_error, eval_code,
    unary_code, CompilerView, Failure,
};
use crate::bytecode::{Opcode, Register};
use crate::heap::HeapView;
use crate::memory::Ptr;
use crate::pair::{one_from_pair_list, two_from_pair_list, Pair};
use crate::taggedptr::Value;
use vstd::prelude::*;

verus! {

/// Whether no path from `node` down through the slots of pairs runs through
/// more than `depth` pairs.
pub open spec fn within_depth(heap: HeapView, node: Value, depth: nat) -> bool
    decreases depth,
{
    match node {
        Value::Pair(p) => depth > 0 && within_depth(heap, heap.pair(p).first, (depth - 1) as nat)
            && within_depth(heap, heap.pair(p).second, (depth - 1) as nat),
        _ => true,
    }
}

/// What is within a depth is within every greater depth.
pub proof fn lemma_depth_grows(heap: HeapView, node: Value, depth: nat, more: nat)
    requires
        within_depth(heap, node, depth),
        depth <= more,
    ensures
        within_depth(heap, node, more),
    decreases depth,
{
    match node {
        Value::Pair(p) => {
            lemma_depth_grows(
                heap,
                heap.pair(p).first,
                (depth - 1) as nat,
                (more - 1) as nat,
            );
            lemma_depth_grows(
                heap,
                heap.pair(p).second,
                (depth - 1) as nat,
                (more - 1) as nat,
            );
        },
        _ => {},
    }
}

/// The allocation of a pair changes the depth of nothing that was there.
pub proof fn lemma_depth_stays(heap: HeapView, cell: Pair, node: Value, depth: nat)
    requires
        heap.wf(),
        heap.valid(node),
        within_depth(heap, node, depth),
    ensures
        within_depth(heap.alloc_pair(cell), node, depth),
    decreases depth,
{
    match node {
        Value::Pair(p) => {
            let held = heap.pairs.objects[p.index() as int];
            assert(heap.valid(held.first) && heap.valid(held.second));
            assert(heap.alloc_pair(cell).pair(p) == heap.pair(p));
            lemma_depth_stays(heap, cell, heap.pair(p).first, (depth - 1) as nat);
            lemma_depth_stays(heap, cell, heap.pair(p).second, (depth - 1) as nat);
        },
        _ => {},
    }
}

/// A pair allocated from two values that are within the depth of the
/// number of pairs is itself within the depth of the number of pairs: what
/// is built by allocation alone is never too deep to compile.
pub proof fn law_allocated_is_within_depth(heap: HeapView, cell: Pair)
    requires
        heap.wf(),
        heap.pairs.has_room(),
        heap.valid(cell.first),
        heap.valid(cell.second),
        within_depth(heap, cell.first, heap.pairs.len()),
        within_depth(heap, cell.second, heap.pairs.len()),
    ensures
        within_depth(heap.alloc_pair(cell), heap.next_pair(), heap.alloc_pair(cell).pairs.len()),
{
    broadcast use {Ptr::lemma_identity, Ptr::lemma_at_index};

    let grown = heap.alloc_pair(cell);
    lemma_depth_stays(heap, cell, cell.first, heap.pairs.len());
    lemma_depth_stays(heap, cell, cell.second, heap.pairs.len());
    let made = Ptr::<Pair>::at(heap.pairs.identity, heap.pairs.len() as usize);
    assert(grown.pair(made) == cell);
}

/// The least depth that `node` is within, where it is within the depth
/// `fuel`.
pub open spec fn height(heap: HeapView, node: Value, fuel: nat) -> nat
    decreases fuel,
{
    match node {
        Value::Pair(p) => if fuel == 0 {
            0
        } else {
            let first = height(heap, heap.pair(p).first, (fuel - 1) as nat);
            let second = height(heap, heap.pair(p).second, (fuel - 1) as nat);
            if first >= second {
                first + 1
            } else {
                second + 1
            }
        },
        _ => 0,
    }
}

/// The height is a depth that the node is within, and the least one.
pub proof fn lemma_height_is_least(heap: HeapView, node: Value, depth: nat)
    requires
        within_depth(heap, node, depth),
    ensures
        height(heap, node, depth) <= depth,
        within_depth(heap, node, height(heap, node, depth)),
        height(heap, node, depth) > 0 ==> !within_depth(
            heap,
            node,
            (height(heap, node, depth) - 1) as nat,
        ),
        node is Pair ==> height(heap, node, depth) > 0,
    decreases depth,
{
    match node {
        Value::Pair(p) => {
            let less = (depth - 1) as nat;
            let first = heap.pair(p).first;
            let second = heap.pair(p).second;
            lemma_height_is_least(heap, first, less);
            lemma_height_is_least(heap, second, less);
            let h1 = height(heap, first, less);
            let h2 = height(heap, second, less);
            let most = if h1 >= h2 {
                h1
            } else {
                h2
            };
            lemma_depth_grows(heap, first, h1, most);
            lemma_depth_grows(heap, second, h2, most);
            assert(within_depth(heap, node, most + 1));
            if most > 0 {
                if within_depth(heap, node, most) {
                    assert(within_depth(heap, first, (most - 1) as nat));
                    assert(within_depth(heap, second, (most - 1) as nat));
                }
            }
        },
        _ => {},
    }
}

/// The height does not depend on the fuel, as long as the fuel suffices.
pub proof fn lemma_height_any_fuel(heap: HeapView, node: Value, depth: nat, other: nat)
    requires
        within_depth(heap, node, depth),
        within_depth(heap, node, other),
    ensures
        height(heap, node, depth) == height(heap, node, other),
    decreases depth,
{
    match node {
        Value::Pair(p) => {
            lemma_height_any_fuel(
                heap,
                heap.pair(p).first,
                (depth - 1) as nat,
                (other - 1) as nat,
            );
            lemma_height_any_fuel(
                heap,
                heap.pair(p).second,
                (depth - 1) as nat,
                (other - 1) as nat,
            );
        },
        _ => {},
    }
}

/// The ordinal of a pair of height `level` on the way from `node` down its
/// deeper slots.
pub open spec fn pair_at_level(heap: HeapView, node: Value, fuel: nat, level: nat) -> usize
    decreases fuel,
{
    match node {
        Value::Pair(p) => if fuel == 0 || level == height(heap, node, fuel) {
            p.index()
        } else {
            let first = heap.pair(p).first;
            let second = heap.pair(p).second;
            if height(heap, first, (fuel - 1) as nat) >= height(heap, second, (fuel - 1) as nat) {
                pair_at_level(heap, first, (fuel - 1) as nat, level)
            } else {
                pair_at_level(heap, second, (fuel - 1) as nat, level)
            }
        },
        _ => 0,
    }
}

/// Below a node of some height there is, for every lesser height but zero,
/// a pair of the heap of exactly that height.
pub proof fn lemma_pair_at_level(heap: HeapView, node: Value, depth: nat, level: nat)
    requires
        heap.wf(),
        heap.valid(node),
        within_depth(heap, node, depth),
        1 <= level <= height(heap, node, depth),
    ensures
        pair_at_level(heap, node, depth, level) < heap.pairs.len(),
        within_depth(
            heap,
            Value::Pair(Ptr::at(heap.pairs.identity, pair_at_level(heap, node, depth, level))),
            depth,
        ),
        height(heap, Value::Pair(Ptr::at(heap.pairs.identity, pair_at_level(heap, node, depth, level))), depth)
            == level,
    decreases depth,
{
    broadcast use {Ptr::lemma_identity, Ptr::lemma_at_index};

    match node {
        Value::Pair(p) => {
            if level != height(heap, node, depth) {
                let less = (depth - 1) as nat;
                let held = heap.pairs.objects[p.index() as int];
                assert(heap.valid(held.first) && heap.valid(held.second));
                let first = heap.pair(p).first;
                let second = heap.pair(p).second;
                let next = if height(heap, first, less) >= height(heap, second, less) {
                    first
                } else {
                    second
                };
                lemma_pair_at_level(heap, next, less, level);
                let found = Value::Pair(Ptr::at(heap.pairs.identity, pair_at_level(heap, next, less, level)));
                lemma_depth_grows(heap, found, less, depth);
                lemma_height_any_fuel(heap, found, less, depth);
            }
        },
        _ => {},
    }
}

/// Numbers below a bound that are all different are no more than the bound.
pub proof fn lemma_pigeonhole(numbers: spec_fn(int) -> int, count: int, bound: int)
    requires
        0 <= bound,
        forall|k: int| 0 <= k < count ==> 0 <= #[trigger] numbers(k) < bound,
        forall|j: int, k: int|
            0 <= j < k < count ==> #[trigger] numbers(j) != #[trigger] numbers(k),
    ensures
        count <= bound,
    decreases bound,
{
    if count > 0 {
        assert(0 <= numbers(0) < bound);
        if exists|k: int| 0 <= k < count && #[trigger] numbers(k) == bound - 1 {
            let at = choose|k: int| 0 <= k < count && #[trigger] numbers(k) == bound - 1;
            let others = |k: int|
                if k < at {
                    numbers(k)
                } else {
                    numbers(k + 1)
                };
            assert forall|k: int| 0 <= k < count - 1 implies 0 <= #[trigger] others(k) < bound
                - 1 by {
                if k < at {
                    assert(numbers(k) != numbers(at));
                } else {
                    assert(numbers(at) != numbers(k + 1));
                }
            }
            assert forall|j: int, k: int| 0 <= j < k < count - 1 implies #[trigger] others(j)
                != #[trigger] others(k) by {
                let from = if j < at {
                    j
                } else {
                    j + 1
                };
                let to = if k < at {
                    k
                } else {
                    k + 1
                };
                assert(numbers(from) != numbers(to));
            }
            lemma_pigeonhole(others, count - 1, bound - 1);
        } else {
            assert forall|k: int| 0 <= k < count implies 0 <= #[trigger] numbers(k) < bound
                - 1 by {
                assert(0 <= numbers(k) < bound);
            }
            lemma_pigeonhole(numbers, count, bound - 1);
        }
    }
}

/// A finite structure is within the depth of the number of pairs: a path
/// through more pairs than the heap holds runs through one of them twice.
pub proof fn law_finite_is_within_depth(heap: HeapView, node: Value, depth: nat)
    requires
        heap.wf(),
        heap.valid(node),
        within_depth(heap, node, depth),
    ensures
        within_depth(heap, node, heap.pairs.len()),
{
    broadcast use {Ptr::lemma_identity, Ptr::lemma_at_index};

    lemma_height_is_least(heap, node, depth);
    let top = height(heap, node, depth);
    let levels = |k: int| pair_at_level(heap, node, depth, (k + 1) as nat) as int;
    assert forall|k: int| 0 <= k < top implies 0 <= #[trigger] levels(k) < heap.pairs.len() by {
        lemma_pair_at_level(heap, node, depth, (k + 1) as nat);
    }
    assert forall|j: int, k: int| 0 <= j < k < top implies #[trigger] levels(j)
        != #[trigger] levels(k) by {
        lemma_pair_at_level(heap, node, depth, (j + 1) as nat);
        lemma_pair_at_level(heap, node, depth, (k + 1) as nat);
    }
    lemma_pigeonhole(levels, top as int, heap.pairs.len() as int);
    lemma_depth_grows(heap, node, top, heap.pairs.len());
}

/// Whether a compilation gave the expression up as nested too deeply.
pub open spec fn gave_up<T>(outcome: Result<T, Failure>) -> bool {
    outcome matches Err(failure) && failure.error == depth_error()
}

/// None of the other errors of a compilation is the error for an expression
/// that is nested too deeply.
proof fn lemma_depth_error_is_its_own()
    ensures
        depth_error() != crate::compiler::registers_error(),
        depth_error() != crate::compiler::non_symbol_error(),
        depth_error() != crate::compiler::unbound_function_error(),
        depth_error() != crate::compiler::cond_end_error(),
        depth_error() != crate::list::full_error(),
        depth_error() != crate::pair::too_few_one_error(),
        depth_error() != crate::pair::too_many_one_error(),
        depth_error() != crate::pair::too_few_two_error(),
        depth_error() != crate::pair::too_many_two_error(),
{
    reveal_strlit("Expression is nested too deeply");
    reveal_strlit("Out of registers");
    reveal_strlit("Non symbol in function-call position");
    reveal_strlit("Symbol is not bound to a function");
    reveal_strlit("Unexpected end of cond list");
    reveal_strlit("Expected no less than one parameter");
    reveal_strlit("Expected no more than one parameter");
    reveal_strlit("Expected no less than two parameters");
    reveal_strlit("Expected no more than two parameters");
    let deep = "Expression is nested too deeply"@;
    assert(deep.len() == 31);
    assert("Out of registers"@.len() == 16);
    assert("Non symbol in function-call position"@.len() == 36);
    assert("Symbol is not bound to a function"@.len() == 33);
    assert("Unexpected end of cond list"@.len() == 27);
    assert("Expected no less than one parameter"@.len() == 35);
    assert("Expected no more than one parameter"@.len() == 35);
    assert("Expected no less than two parameters"@.len() == 36);
    assert("Expected no more than two parameters"@.len() == 36);
}

/// An expression that is within the depth that the fuel allows is not
/// given up as too deep.
pub proof fn law_fuel_suffices(heap: HeapView, state: CompilerView, node: Value, fuel: nat)
    requires
        within_depth(heap, node, fuel),
    ensures
        !gave_up(eval_code(heap, state, node, fuel)),
    decreases fuel, 0nat,
{
    lemma_depth_error_is_its_own();
    match node {
        Value::Pair(p) => {
            lemma_apply_suffices(
                heap,
                state,
                heap.pair(p).first,
                heap.pair(p).second,
                (fuel - 1) as nat,
            );
        },
        _ => {},
    }
}

/// No finite expression is given up as too deep: the fuel that a
/// compilation starts with suffices for every expression without a cycle.
pub proof fn law_finite_compiles(heap: HeapView, state: CompilerView, ast: Value, depth: nat)
    requires
        heap.wf(),
        heap.valid(ast),
        within_depth(heap, ast, depth),
    ensures
        !gave_up(eval_code(heap, state, ast, crate::compiler::compile_fuel(heap))),
{
    law_finite_is_within_depth(heap, ast, depth);
    law_fuel_suffices(heap, state, ast, heap.pairs.len());
}

/// An application whose operands are within the depth is not given up as too deep.
proof fn lemma_apply_suffices(
    heap: HeapView,
    state: CompilerView,
    function: Value,
    params: Value,
    fuel: nat,
)
    requires
        within_depth(heap, params, fuel),
    ensures
        !gave_up(apply_code(heap, state, function, params, fuel)),
    decreases fuel, 3nat,
{
    lemma_depth_error_is_its_own();
    match function {
        Value::Symbol(s) => {
            lemma_unary_suffices(heap, state, Opcode::ATOM, params, fuel);
            lemma_unary_suffices(heap, state, Opcode::CAR, params, fuel);
            lemma_unary_suffices(heap, state, Opcode::CDR, params, fuel);
            lemma_binary_suffices(heap, state, Opcode::CONS, params, fuel);
            lemma_binary_suffices(heap, state, Opcode::EQ, params, fuel);
            lemma_cond_suffices(heap, state, params, fuel);
        },
        _ => {},
    }
}

/// A unary operation whose operand is within the depth is not given up as too deep.
proof fn lemma_unary_suffices(
    heap: HeapView,
    state: CompilerView,
    op: Opcode,
    params: Value,
    fuel: nat,
)
    requires
        within_depth(heap, params, fuel),
    ensures
        !gave_up(unary_code(heap, state, op, params, fuel)),
    decreases fuel, 1nat,
{
    lemma_depth_error_is_its_own();
    match state.acquire() {
        Ok((acquired, result)) => match one_from_pair_list(heap, params) {
            Ok(operand) => {
                lemma_depth_grows(heap, operand, (fuel - 1) as nat, fuel);
                law_fuel_suffices(heap, acquired, operand, fuel);
            },
            _ => {},
        },
        _ => {},
    }
}

/// A binary operation whose operands are within the depth is not given up as too deep.
proof fn lemma_binary_suffices(
    heap: HeapView,
    state: CompilerView,
    op: Opcode,
    params: Value,
    fuel: nat,
)
    requires
        within_depth(heap, params, fuel),
    ensures
        !gave_up(binary_code(heap, state, op, params, fuel)),
    decreases fuel, 1nat,
{
    lemma_depth_error_is_its_own();
    match state.acquire() {
        Ok((acquired, result)) => match two_from_pair_list(heap, params) {
            Ok((first, second)) => {
                let rest = heap.pair(params->Pair_0).second;
                assert(within_depth(heap, rest, (fuel - 1) as nat));
                assert(within_depth(heap, second, (fuel - 2) as nat));
                lemma_depth_grows(heap, first, (fuel - 1) as nat, fuel);
                lemma_depth_grows(heap, second, (fuel - 2) as nat, fuel);
                law_fuel_suffices(heap, acquired, first, fuel);
                match eval_code(heap, acquired, first, fuel) {
                    Ok((middle, reg1)) => {
                        law_fuel_suffices(heap, middle, second, fuel);
                    },
                    _ => {},
                }
            },
            _ => {},
        },
        _ => {},
    }
}

/// A `cond` whose clauses are within the depth is not given up as too deep.
proof fn lemma_cond_suffices(heap: HeapView, state: CompilerView, params: Value, fuel: nat)
    requires
        within_depth(heap, params, fuel),
    ensures
        !gave_up(cond_code(heap, state, params, fuel)),
    decreases fuel, 2nat,
{
    lemma_depth_error_is_its_own();
    lemma_clauses_suffice(heap, state, Seq::empty(), params, state.next_reg, fuel);
}

/// Clauses that are within the depth are not given up as too deep.
proof fn lemma_clauses_suffice(
    heap: HeapView,
    state: CompilerView,
    jumps: Seq<ArraySize>,
    head: Value,
    result: Register,
    fuel: nat,
)
    requires
        within_depth(heap, head, fuel),
    ensures
        !gave_up(clauses_code(heap, state, jumps, head, result, fuel)),
    decreases fuel, 0nat,
{
    lemma_depth_error_is_its_own();
    match head {
        Value::Pair(p) => {
            let less = (fuel - 1) as nat;
            match clause_parts(heap, heap.pair(p).first) {
                Ok((condition, expression)) => {
                    let clause = heap.pair(p).first;
                    assert(within_depth(heap, clause, less));
                    let tail = heap.pair(clause->Pair_0).second;
                    assert(within_depth(heap, condition, (fuel - 2) as nat));
                    assert(within_depth(heap, tail, (fuel - 2) as nat));
                    assert(within_depth(heap, expression, (fuel - 3) as nat));
                    lemma_depth_grows(heap, condition, (fuel - 2) as nat, less);
                    lemma_depth_grows(heap, expression, (fuel - 3) as nat, less);
                    law_fuel_suffices(heap, state.with_reg(result), condition, less);
                    match eval_code(heap, state.with_reg(result), condition, less) {
                        Ok((tested, reg)) => match tested.emit(
                            crate::bytecode::cond_jump(Opcode::JMPNT, reg, 0),
                        ) {
                            Ok(branched) => {
                                law_fuel_suffices(
                                    heap,
                                    branched.with_reg(result),
                                    expression,
                                    less,
                                );
                                match eval_code(
                                    heap,
                                    branched.with_reg(result),
                                    expression,
                                    less,
                                ) {
                                    Ok((valued, _)) => match valued.emit(crate::bytecode::jump(0)) {
                                        Ok(ended) => {
                                            lemma_clauses_suffice(
                                                heap,
                                                ended.land_here(tested.code.len() as ArraySize),
                                                jumps.push(valued.code.len() as ArraySize),
                                                heap.pair(p).second,
                                                result,
                                                less,
                                            );
                                        },
                                        _ => {},
                                    },
                                    _ => {},
                                }
                            },
                            _ => {},
                        },
                        _ => {},
                    }
                },
                _ => {},
            }
        },
        _ => {},
    }
}

} // verus!
