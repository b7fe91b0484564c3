//! How a compiled `cond` runs: which clause is taken, and what is skipped.
use crate::array::ArraySize;
use crate::bytecode::{cond_jump, jump, op1, Instruction, JumpOffset, Opcode, Register};
use crate::error::RuntimeErrorView;
use crate::heap::HeapView;
use crate::layout::{clauses_chained, cond_shaped, Clause};
use crate::memory::Ptr;
use crate::taggedptr::Value;
use crate::vm::{true_name, EvalStatus, Machine, Step};
use vstd::prelude::*;

verus! {

broadcast use {Ptr::lemma_identity, Ptr::lemma_at_index};

impl Machine {
    /// The instructions of the bytecode that the machine's stream reads.
    pub open spec fn program(self, heap: HeapView) -> Seq<Instruction> {
        heap.bytecode(heap.stream(self.stream).code).code
    }

    /// The address of the instruction that is fetched next.
    pub open spec fn ip(self, heap: HeapView) -> int {
        heap.stream(self.stream).ip as int
    }

    /// Whether the machine can run on `heap`: its objects are there, and so
    /// is the bytecode that its stream reads, with addresses that fit.
    pub open spec fn ready(self, heap: HeapView) -> bool {
        &&& self.within(heap)
        &&& heap.has_code(heap.stream(self.stream).code)
        &&& self.program(heap).len() <= ArraySize::MAX
    }

    /// Whether `steps` steps from `heap` all end as `Pending` and leave the
    /// heap `to`.
    pub open spec fn reaches(self, heap: HeapView, steps: nat, to: HeapView) -> bool {
        self.run(heap, steps) == (Step { heap: to, result: Ok(EvalStatus::Pending) })
    }

    /// A step changes neither the program nor the number of registers, and
    /// leaves the machine ready.
    pub proof fn lemma_step_keeps_program(self, heap: HeapView)
        requires
            self.ready(heap),
        ensures
            self.ready(self.step(heap).heap),
            self.program(self.step(heap).heap) == self.program(heap),
            self.registers(self.step(heap).heap).len() == self.registers(heap).len(),
    {
    }

    /// A run changes neither the program nor the number of registers, and
    /// leaves the machine ready.
    pub proof fn lemma_run_keeps_program(self, heap: HeapView, steps: nat)
        requires
            self.ready(heap),
        ensures
            self.ready(self.run(heap, steps).heap),
            self.program(self.run(heap, steps).heap) == self.program(heap),
            self.registers(self.run(heap, steps).heap).len() == self.registers(heap).len(),
        decreases steps,
    {
        if steps > 0 {
            self.lemma_step_keeps_program(heap);
            let first = self.step(heap);
            if first.result == Ok::<EvalStatus, RuntimeErrorView>(EvalStatus::Pending) {
                self.lemma_run_keeps_program(first.heap, (steps - 1) as nat);
            }
        }
    }

    /// A step that ends as `Pending` moves the machine forward: jumps only
    /// go forward.
    pub proof fn lemma_step_advances(self, heap: HeapView)
        requires
            self.ready(heap),
            self.step(heap).result == Ok::<EvalStatus, RuntimeErrorView>(EvalStatus::Pending),
        ensures
            self.ip(self.step(heap).heap) > self.ip(heap),
    {
    }

    /// Every program ends: a run of at least one step, and of more steps
    /// than there are instructions from the cursor on, does not end as
    /// `Pending`.
    pub proof fn law_run_ends(self, heap: HeapView, steps: nat)
        requires
            self.ready(heap),
            steps > 0,
            self.ip(heap) + steps > self.program(heap).len(),
        ensures
            self.run(heap, steps).result != Ok::<EvalStatus, RuntimeErrorView>(
                EvalStatus::Pending,
            ),
        decreases steps,
    {
        if steps > 0 {
            let first = self.step(heap);
            if first.result == Ok::<EvalStatus, RuntimeErrorView>(EvalStatus::Pending) {
                self.lemma_step_advances(heap);
                self.lemma_step_keeps_program(heap);
                assert(self.ip(heap) < self.program(heap).len());
                self.law_run_ends(first.heap, (steps - 1) as nat);
            }
        }
    }

    /// A run that reaches a heap, and a run from there that reaches
    /// another, are one run that reaches the other.
    pub proof fn lemma_reaches_join(
        self,
        heap: HeapView,
        first: nat,
        middle: HeapView,
        rest: nat,
        to: HeapView,
    )
        requires
            self.reaches(heap, first, middle),
            self.reaches(middle, rest, to),
        ensures
            self.reaches(heap, first + rest, to),
    {
        self.lemma_run_split(heap, first, rest);
    }

    /// One pending step is a run of one step.
    pub proof fn lemma_reaches_by_step(self, heap: HeapView)
        requires
            self.step(heap).result == Ok::<EvalStatus, RuntimeErrorView>(EvalStatus::Pending),
        ensures
            self.reaches(heap, 1, self.step(heap).heap),
    {
        assert(self.run(self.step(heap).heap, 0) == self.step(heap));
    }

    /// The conditional jump of a `cond` clause: where the tested register
    /// holds the truth symbol, the clause's expression is next; where it
    /// holds anything else, what follows the clause is next. The registers
    /// stay as they are.
    pub proof fn law_clause_test(
        self,
        heap: HeapView,
        clauses: Seq<Clause>,
        result: Register,
        begin: int,
        end: int,
        i: int,
    )
        requires
            self.ready(heap),
            cond_shaped(self.program(heap), clauses, result, begin, end),
            0 <= i < clauses.len(),
            self.ip(heap) == clauses[i].test,
            result < self.registers(heap).len(),
        ensures
            self.step(heap).result == Ok::<EvalStatus, RuntimeErrorView>(EvalStatus::Pending),
            self.registers(self.step(heap).heap) == self.registers(heap),
            self.registers(heap)[result as int] == heap.symbol(true_name()) ==> self.ip(
                self.step(heap).heap,
            ) == clauses[i].test + 1,
            self.registers(heap)[result as int] != heap.symbol(true_name()) ==> self.ip(
                self.step(heap).heap,
            ) == clauses[i].exit + 1,
    {
        let clause = clauses[i];
        assert(self.program(heap)[clause.test] == cond_jump(
            Opcode::JMPNT,
            result,
            (clause.exit - clause.test) as JumpOffset,
        ));
    }

    /// The jump behind the expression of a `cond` clause lands behind the
    /// whole `cond`: no later clause and no fallback is run. The registers
    /// stay as they are.
    pub proof fn law_clause_exit(
        self,
        heap: HeapView,
        clauses: Seq<Clause>,
        result: Register,
        begin: int,
        end: int,
        i: int,
    )
        requires
            self.ready(heap),
            cond_shaped(self.program(heap), clauses, result, begin, end),
            0 <= i < clauses.len(),
            self.ip(heap) == clauses[i].exit,
        ensures
            self.step(heap).result == Ok::<EvalStatus, RuntimeErrorView>(EvalStatus::Pending),
            self.registers(self.step(heap).heap) == self.registers(heap),
            self.ip(self.step(heap).heap) == end,
    {
        let clause = clauses[i];
        assert(self.program(heap)[clause.exit] == jump((end - clause.exit - 1) as JumpOffset));
    }

    /// The fallback of a `cond` leaves `Nil` in the result register and the
    /// machine behind the whole `cond`.
    pub proof fn law_fallback(
        self,
        heap: HeapView,
        clauses: Seq<Clause>,
        result: Register,
        begin: int,
        end: int,
    )
        requires
            self.ready(heap),
            cond_shaped(self.program(heap), clauses, result, begin, end),
            clauses.len() > 0,
            self.ip(heap) == end - 1,
            result < self.registers(heap).len(),
        ensures
            self.step(heap).result == Ok::<EvalStatus, RuntimeErrorView>(EvalStatus::Pending),
            self.registers(self.step(heap).heap) == self.registers(heap).update(
                result as int,
                Value::Nil,
            ),
            self.ip(self.step(heap).heap) == end,
    {
        assert(self.program(heap)[end - 1] == op1(Opcode::LOADNIL, result));
    }
}

/// The steps through the first `count` clauses of a `cond` none of whose
/// conditions gives the truth symbol, where `steps` holds the steps that
/// each condition takes: those, and one more for each test.
pub open spec fn skip_steps(steps: Seq<nat>, count: nat) -> nat
    decreases count,
{
    if count == 0 {
        0
    } else {
        skip_steps(steps, (count - 1) as nat) + steps[count - 1] + 1
    }
}

impl Machine {
    /// The heap in which clause `i` of a `cond` starts that is entered in
    /// `heap`, where `tested` holds the heaps in which the clauses before
    /// it came to their tests.
    pub open spec fn entry(self, heap: HeapView, tested: Seq<HeapView>, i: int) -> HeapView {
        if i == 0 {
            heap
        } else {
            self.step(tested[i - 1]).heap
        }
    }

    /// Whether each of the first `count` clauses of a `cond` entered in
    /// `heap` runs its condition straight to its test, in the steps that
    /// `steps` gives and into the heap that `tested` gives.
    pub open spec fn conditions_run(
        self,
        heap: HeapView,
        clauses: Seq<Clause>,
        tested: Seq<HeapView>,
        steps: Seq<nat>,
        count: int,
    ) -> bool {
        &&& 0 <= count <= clauses.len()
        &&& count <= tested.len()
        &&& count <= steps.len()
        &&& forall|i: int|
            0 <= i < count ==> self.reaches(
                self.entry(heap, tested, i),
                steps[i],
                #[trigger] tested[i],
            ) && self.ip(tested[i]) == clauses[i].test
    }

    /// Whether none of the first `count` conditions gave the truth symbol.
    pub open spec fn none_true(
        self,
        tested: Seq<HeapView>,
        result: Register,
        count: int,
    ) -> bool {
        forall|i: int|
            0 <= i < count ==> self.registers(#[trigger] tested[i])[result as int]
                != tested[i].symbol(true_name())
    }

    /// Clauses whose conditions do not give the truth symbol are passed one
    /// after the other: behind the last of them the machine stands at the
    /// next clause, or at the fallback where there is no next clause.
    pub proof fn lemma_clauses_passed(
        self,
        heap: HeapView,
        clauses: Seq<Clause>,
        result: Register,
        begin: int,
        end: int,
        tested: Seq<HeapView>,
        steps: Seq<nat>,
        count: int,
    )
        requires
            self.ready(heap),
            cond_shaped(self.program(heap), clauses, result, begin, end),
            clauses.len() > 0,
            self.ip(heap) == begin,
            result < self.registers(heap).len(),
            self.conditions_run(heap, clauses, tested, steps, count),
            self.none_true(tested, result, count),
        ensures
            self.reaches(heap, skip_steps(steps, count as nat), self.entry(heap, tested, count)),
            self.ready(self.entry(heap, tested, count)),
            self.program(self.entry(heap, tested, count)) == self.program(heap),
            self.registers(self.entry(heap, tested, count)).len() == self.registers(heap).len(),
            self.ip(self.entry(heap, tested, count)) == if count < clauses.len() {
                clauses[count].begin
            } else {
                end - 1
            },
        decreases count,
    {
        if count == 0 {
            assert(clauses[0].begin == begin);
        } else {
            let before = count - 1;
            self.lemma_clauses_passed(heap, clauses, result, begin, end, tested, steps, before);
            let entered = self.entry(heap, tested, before);
            let at_test = tested[before];
            assert(self.reaches(entered, steps[before], at_test));
            self.lemma_run_keeps_program(entered, steps[before]);
            self.law_clause_test(at_test, clauses, result, begin, end, before);
            self.lemma_step_keeps_program(at_test);
            self.lemma_reaches_by_step(at_test);
            let passed = self.step(at_test).heap;
            self.lemma_reaches_join(entered, steps[before], at_test, 1, passed);
            self.lemma_reaches_join(
                heap,
                skip_steps(steps, before as nat),
                entered,
                steps[before] + 1,
                passed,
            );
            let clause = clauses[before];
            if count < clauses.len() {
                assert(clauses[before + 1].begin == clause.exit + 1);
            } else {
                assert(clauses.last() == clause);
            }
        }
    }

    /// In a `cond`, the first clause whose condition gives the truth symbol
    /// determines the result.
    ///
    /// Let the conditions of the clauses before clause `taken` run to their
    /// tests and not give the truth symbol, let the condition of clause
    /// `taken` run to its test and give it, and let the expression of that
    /// clause then run to its end. Then the machine that enters the `cond`
    /// comes out behind it with the registers as that expression left
    /// them, and the steps it takes are those of the conditions up to
    /// `taken`, their tests, that one expression and its jump: nothing of
    /// a later clause is run.
    pub proof fn law_first_true_clause_is_taken(
        self,
        heap: HeapView,
        clauses: Seq<Clause>,
        result: Register,
        begin: int,
        end: int,
        tested: Seq<HeapView>,
        steps: Seq<nat>,
        taken: int,
        value_steps: nat,
        valued: HeapView,
    )
        requires
            self.ready(heap),
            cond_shaped(self.program(heap), clauses, result, begin, end),
            self.ip(heap) == begin,
            result < self.registers(heap).len(),
            0 <= taken < clauses.len(),
            self.conditions_run(heap, clauses, tested, steps, taken + 1),
            self.none_true(tested, result, taken),
            self.registers(tested[taken])[result as int] == tested[taken].symbol(true_name()),
            self.reaches(self.step(tested[taken]).heap, value_steps, valued),
            self.ip(valued) == clauses[taken].exit,
        ensures
            self.step(valued).result == Ok::<EvalStatus, RuntimeErrorView>(EvalStatus::Pending),
            self.reaches(
                heap,
                skip_steps(steps, taken as nat) + steps[taken] + 1 + value_steps + 1,
                self.step(valued).heap,
            ),
            self.ip(self.step(valued).heap) == end,
            self.registers(self.step(valued).heap) == self.registers(valued),
    {
        self.lemma_clauses_passed(heap, clauses, result, begin, end, tested, steps, taken);
        let entered = self.entry(heap, tested, taken);
        let at_test = tested[taken];
        assert(self.reaches(entered, steps[taken], at_test));
        self.lemma_clause_taken(
            entered,
            clauses,
            result,
            begin,
            end,
            taken,
            steps[taken],
            at_test,
            value_steps,
            valued,
        );
        self.lemma_reaches_join(
            heap,
            skip_steps(steps, taken as nat),
            entered,
            steps[taken] + 1 + value_steps + 1,
            self.step(valued).heap,
        );
    }

    /// A clause whose condition gives the truth symbol runs its expression
    /// and leaves the `cond`.
    proof fn lemma_clause_taken(
        self,
        entered: HeapView,
        clauses: Seq<Clause>,
        result: Register,
        begin: int,
        end: int,
        taken: int,
        test_steps: nat,
        at_test: HeapView,
        value_steps: nat,
        valued: HeapView,
    )
        requires
            self.ready(entered),
            cond_shaped(self.program(entered), clauses, result, begin, end),
            result < self.registers(entered).len(),
            0 <= taken < clauses.len(),
            self.reaches(entered, test_steps, at_test),
            self.ip(at_test) == clauses[taken].test,
            self.registers(at_test)[result as int] == at_test.symbol(true_name()),
            self.reaches(self.step(at_test).heap, value_steps, valued),
            self.ip(valued) == clauses[taken].exit,
        ensures
            self.step(valued).result == Ok::<EvalStatus, RuntimeErrorView>(EvalStatus::Pending),
            self.reaches(entered, test_steps + 1 + value_steps + 1, self.step(valued).heap),
            self.ip(self.step(valued).heap) == end,
            self.registers(self.step(valued).heap) == self.registers(valued),
    {
        let chosen = self.step(at_test).heap;
        let done = self.step(valued).heap;
        assert(self.ready(at_test) && self.program(at_test) == self.program(entered)
            && self.registers(at_test).len() == self.registers(entered).len()) by {
            self.lemma_run_keeps_program(entered, test_steps);
        }
        assert(self.step(at_test).result == Ok::<EvalStatus, RuntimeErrorView>(
            EvalStatus::Pending,
        )) by {
            self.law_clause_test(at_test, clauses, result, begin, end, taken);
        }
        assert(self.ready(chosen) && self.program(chosen) == self.program(entered)) by {
            self.lemma_step_keeps_program(at_test);
        }
        assert(self.ready(valued) && self.program(valued) == self.program(entered)) by {
            self.lemma_run_keeps_program(chosen, value_steps);
        }
        assert(self.step(valued).result == Ok::<EvalStatus, RuntimeErrorView>(
            EvalStatus::Pending,
        ) && self.ip(done) == end && self.registers(done) == self.registers(valued)) by {
            self.law_clause_exit(valued, clauses, result, begin, end, taken);
        }
        assert(self.reaches(at_test, 1, chosen)) by {
            self.lemma_reaches_by_step(at_test);
        }
        assert(self.reaches(valued, 1, done)) by {
            self.lemma_reaches_by_step(valued);
        }
        self.lemma_reaches_join(chosen, value_steps, valued, 1, done);
        self.lemma_reaches_join(at_test, 1, chosen, value_steps + 1, done);
        self.lemma_reaches_join(entered, test_steps, at_test, 1 + value_steps + 1, done);
    }

    /// A `cond` none of whose conditions gives the truth symbol yields
    /// `Nil`: the machine comes out behind it with `Nil` in the result
    /// register.
    pub proof fn law_no_true_clause_is_nil(
        self,
        heap: HeapView,
        clauses: Seq<Clause>,
        result: Register,
        begin: int,
        end: int,
        tested: Seq<HeapView>,
        steps: Seq<nat>,
    )
        requires
            self.ready(heap),
            cond_shaped(self.program(heap), clauses, result, begin, end),
            clauses.len() > 0,
            self.ip(heap) == begin,
            result < self.registers(heap).len(),
            self.conditions_run(heap, clauses, tested, steps, clauses.len() as int),
            self.none_true(tested, result, clauses.len() as int),
        ensures
            ({
                let last = self.entry(heap, tested, clauses.len() as int);
                &&& self.reaches(
                    heap,
                    skip_steps(steps, clauses.len()) + 1,
                    self.step(last).heap,
                )
                &&& self.ip(self.step(last).heap) == end
                &&& self.registers(self.step(last).heap)[result as int] == Value::Nil
            }),
    {
        let count = clauses.len() as int;
        self.lemma_clauses_passed(heap, clauses, result, begin, end, tested, steps, count);
        let last = self.entry(heap, tested, count);
        self.law_fallback(last, clauses, result, begin, end);
        self.lemma_reaches_by_step(last);
        self.lemma_reaches_join(
            heap,
            skip_steps(steps, clauses.len()),
            last,
            1,
            self.step(last).heap,
        );
    }
}

/// A whole evaluation never ends as `Pending`: its step budget is more than
/// any program takes.
pub proof fn law_evaluation_ends(
    heap: HeapView,
    stack: Ptr<crate::list::List>,
    globals: Ptr<crate::dict::Dict>,
    code: Ptr<crate::bytecode::ByteCode>,
)
    requires
        heap.wf(),
        heap.has_list(stack),
        heap.has_dict(globals),
        heap.has_code(code),
    ensures
        crate::vm::evaluation(heap, stack, globals, code).result != Ok::<
            EvalStatus,
            RuntimeErrorView,
        >(EvalStatus::Pending),
{
    if heap.streams.has_room() {
        let machine = Machine { stack, globals, stream: Ptr::at(heap.streams.identity, heap.streams.len() as usize) };
        let started = HeapView {
            streams: heap.streams.push(crate::bytecode::InstructionStream::start(code)),
            ..heap
        };
        let length = heap.bytecode(code).code.len();
        assert(length <= ArraySize::MAX);
        assert(crate::vm::step_budget(length) > length) by (nonlinear_arith)
            requires
                crate::vm::step_budget(length) == ((length / 1024 + 1) * 1024) as nat,
        ;
        machine.law_run_ends(started, crate::vm::step_budget(length));
    }
}

} // verus!
