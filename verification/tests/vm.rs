use evalrus::bytecode::{ByteCode, InstructionStream, Opcode};
use evalrus::dict::Dict;
use evalrus::error::{ErrorKind, RuntimeError};
use evalrus::heap::MutatorView;
use evalrus::list::List;
use evalrus::memory::Ptr;
use evalrus::pair::Pair;
use evalrus::taggedptr::Value;
use evalrus::vm::{eval_next_instr, quick_vm_eval, vm_eval_stream, EvalStatus};

struct Rig {
    mem: MutatorView,
    stack: Ptr<List>,
    globals: Ptr<Dict>,
}

fn rig(registers: u32) -> Rig {
    let mut mem = MutatorView::new(1 << 16);
    let stack = mem.alloc_list().unwrap();
    for _ in 0..registers {
        mem.list_push(stack, Value::Nil).unwrap();
    }
    let globals = mem.alloc_dict().unwrap();
    Rig { mem, stack, globals }
}

fn reg(rig: &Rig, index: u32) -> Value {
    rig.mem.list(rig.stack).get(index).unwrap()
}

fn run(rig: &mut Rig, code: ByteCode) -> Result<Value, RuntimeError> {
    let code = rig.mem.alloc_bytecode(code).unwrap();
    quick_vm_eval(&mut rig.mem, rig.stack, rig.globals, code)
}

fn eval_error(reason: &str) -> ErrorKind {
    ErrorKind::EvalError(String::from(reason))
}

#[test]
fn halt_is_reported_as_an_error_by_quick_vm_eval() {
    let mut rig = rig(4);
    let mut code = ByteCode::new();
    code.push_op0(Opcode::HALT).unwrap();
    let err = run(&mut rig, code).unwrap_err();
    assert_eq!(*err.error_kind(), eval_error("Program halted"));
}

#[test]
fn halt_is_a_status_for_vm_eval_stream() {
    let mut rig = rig(4);
    let mut code = ByteCode::new();
    code.push_op0(Opcode::HALT).unwrap();
    let code = rig.mem.alloc_bytecode(code).unwrap();
    let stream = rig.mem.alloc_stream(InstructionStream::new(code)).unwrap();
    let status = vm_eval_stream(&mut rig.mem, rig.stack, rig.globals, stream, 10).unwrap();
    assert_eq!(status, EvalStatus::Halt);
}

#[test]
fn loadlit_and_return_give_the_literal() {
    let mut rig = rig(4);
    let seven = rig.mem.alloc_number(7).unwrap();
    let mut code = ByteCode::new();
    let id = code.push_lit(seven).unwrap();
    assert_eq!(id, 0);
    code.push_loadlit(2, id).unwrap();
    code.push_op1(Opcode::RETURN, 2).unwrap();
    assert_eq!(run(&mut rig, code).unwrap(), seven);
    assert_eq!(reg(&rig, 2), seven);
    assert_eq!(reg(&rig, 0), Value::Nil);
}

#[test]
fn nil_tests_for_nil() {
    let mut rig = rig(4);
    let seven = rig.mem.alloc_number(7).unwrap();
    let truth = rig.mem.lookup_sym("true");
    let mut code = ByteCode::new();
    let id = code.push_lit(seven).unwrap();
    code.push_loadlit(1, id).unwrap();
    code.push_op2(Opcode::NIL, 2, 0).unwrap();
    code.push_op2(Opcode::NIL, 3, 1).unwrap();
    code.push_op1(Opcode::RETURN, 2).unwrap();
    assert_eq!(run(&mut rig, code).unwrap(), truth);
    assert_eq!(reg(&rig, 3), Value::Nil);
}

#[test]
fn atom_holds_for_all_but_nil_and_pairs() {
    let mut rig = rig(8);
    let seven = rig.mem.alloc_number(7).unwrap();
    let name = rig.mem.lookup_sym("name");
    let truth = rig.mem.lookup_sym("true");
    let mut code = ByteCode::new();
    let number = code.push_lit(seven).unwrap();
    let symbol = code.push_lit(name).unwrap();
    code.push_loadlit(1, number).unwrap();
    code.push_loadlit(2, symbol).unwrap();
    code.push_op3(Opcode::CONS, 3, 1, 2).unwrap();
    code.push_op2(Opcode::ATOM, 4, 0).unwrap();
    code.push_op2(Opcode::ATOM, 5, 1).unwrap();
    code.push_op2(Opcode::ATOM, 6, 2).unwrap();
    code.push_op2(Opcode::ATOM, 7, 3).unwrap();
    code.push_op1(Opcode::RETURN, 7).unwrap();
    assert_eq!(run(&mut rig, code).unwrap(), Value::Nil);
    assert_eq!(reg(&rig, 4), Value::Nil);
    assert_eq!(reg(&rig, 5), truth);
    assert_eq!(reg(&rig, 6), truth);
    assert_eq!(reg(&rig, 7), Value::Nil);
}

#[test]
fn car_and_cdr_give_back_what_cons_took() {
    let mut rig = rig(8);
    let seven = rig.mem.alloc_number(7).unwrap();
    let name = rig.mem.lookup_sym("name");
    let mut code = ByteCode::new();
    let number = code.push_lit(seven).unwrap();
    let symbol = code.push_lit(name).unwrap();
    code.push_loadlit(1, number).unwrap();
    code.push_loadlit(2, symbol).unwrap();
    code.push_op3(Opcode::CONS, 3, 1, 2).unwrap();
    code.push_op2(Opcode::CAR, 4, 3).unwrap();
    code.push_op2(Opcode::CDR, 5, 3).unwrap();
    code.push_op1(Opcode::RETURN, 3).unwrap();
    let pair = run(&mut rig, code).unwrap();
    assert_eq!(reg(&rig, 4), seven);
    assert_eq!(reg(&rig, 5), name);
    match pair {
        Value::Pair(p) => assert_eq!(rig.mem.pair(p), Pair { first: seven, second: name }),
        _ => panic!("expected a pair"),
    }
}

#[test]
fn car_of_a_non_pair_is_an_error() {
    let mut rig = rig(4);
    let mut code = ByteCode::new();
    code.push_op2(Opcode::CAR, 1, 0).unwrap();
    code.push_op1(Opcode::RETURN, 1).unwrap();
    let err = run(&mut rig, code).unwrap_err();
    assert_eq!(*err.error_kind(), eval_error("Parameter to CAR is not a list"));
}

#[test]
fn cdr_of_a_non_pair_is_an_error() {
    let mut rig = rig(4);
    let mut code = ByteCode::new();
    code.push_op2(Opcode::CDR, 1, 0).unwrap();
    code.push_op1(Opcode::RETURN, 1).unwrap();
    let err = run(&mut rig, code).unwrap_err();
    assert_eq!(*err.error_kind(), eval_error("Parameter to CDR is not a list"));
}

#[test]
fn eq_is_identity() {
    let mut rig = rig(16);
    let seven = rig.mem.alloc_number(7).unwrap();
    let also_seven = rig.mem.alloc_number(7).unwrap();
    let truth = rig.mem.lookup_sym("true");
    let mut code = ByteCode::new();
    let a = code.push_lit(seven).unwrap();
    let b = code.push_lit(also_seven).unwrap();
    code.push_loadlit(1, a).unwrap();
    code.push_loadlit(2, b).unwrap();
    code.push_op3(Opcode::CONS, 3, 1, 2).unwrap();
    code.push_op3(Opcode::CONS, 4, 1, 2).unwrap();
    code.push_op3(Opcode::EQ, 5, 1, 1).unwrap();
    code.push_op3(Opcode::EQ, 6, 1, 2).unwrap();
    code.push_op3(Opcode::EQ, 7, 2, 1).unwrap();
    code.push_op3(Opcode::EQ, 8, 3, 3).unwrap();
    code.push_op3(Opcode::EQ, 9, 3, 4).unwrap();
    code.push_op3(Opcode::EQ, 10, 4, 3).unwrap();
    code.push_op3(Opcode::EQ, 11, 0, 0).unwrap();
    code.push_op1(Opcode::RETURN, 5).unwrap();
    assert_eq!(run(&mut rig, code).unwrap(), truth);
    assert_eq!(reg(&rig, 6), Value::Nil);
    assert_eq!(reg(&rig, 7), Value::Nil);
    assert_eq!(reg(&rig, 8), truth);
    assert_eq!(reg(&rig, 9), Value::Nil);
    assert_eq!(reg(&rig, 10), Value::Nil);
    assert_eq!(reg(&rig, 11), truth);
    assert_ne!(reg(&rig, 3), reg(&rig, 4));
}

#[test]
fn jumps_skip_forward() {
    let mut rig = rig(4);
    let seven = rig.mem.alloc_number(7).unwrap();
    let eight = rig.mem.alloc_number(8).unwrap();
    let mut code = ByteCode::new();
    let a = code.push_lit(seven).unwrap();
    let b = code.push_lit(eight).unwrap();
    code.push_loadlit(1, a).unwrap();
    code.push_jump().unwrap();
    code.write_jump_offset(1, 1).unwrap();
    code.push_loadlit(1, b).unwrap();
    code.push_op1(Opcode::RETURN, 1).unwrap();
    assert_eq!(run(&mut rig, code).unwrap(), seven);
}

#[test]
fn jmpt_is_taken_only_for_the_true_symbol() {
    let mut rig = rig(4);
    let seven = rig.mem.alloc_number(7).unwrap();
    let truth = rig.mem.lookup_sym("true");
    let mut code = ByteCode::new();
    let number = code.push_lit(seven).unwrap();
    let symbol = code.push_lit(truth).unwrap();
    // register 1 holds a number: not taken
    code.push_loadlit(1, number).unwrap();
    code.push_cond_jump(Opcode::JMPT, 1).unwrap();
    code.write_jump_offset(1, 1).unwrap();
    code.push_loadlit(2, number).unwrap();
    // register 1 holds the true symbol: taken
    code.push_loadlit(1, symbol).unwrap();
    code.push_cond_jump(Opcode::JMPT, 1).unwrap();
    code.write_jump_offset(4, 1).unwrap();
    code.push_loadlit(3, number).unwrap();
    code.push_op1(Opcode::RETURN, 2).unwrap();
    assert_eq!(run(&mut rig, code).unwrap(), seven);
    assert_eq!(reg(&rig, 3), Value::Nil);
}

#[test]
fn jmpnt_is_taken_for_everything_but_the_true_symbol() {
    let mut rig = rig(4);
    let seven = rig.mem.alloc_number(7).unwrap();
    let truth = rig.mem.lookup_sym("true");
    let mut code = ByteCode::new();
    let number = code.push_lit(seven).unwrap();
    let symbol = code.push_lit(truth).unwrap();
    // register 1 holds a number: taken
    code.push_loadlit(1, number).unwrap();
    code.push_cond_jump(Opcode::JMPNT, 1).unwrap();
    code.write_jump_offset(1, 1).unwrap();
    code.push_loadlit(2, number).unwrap();
    // register 1 holds the true symbol: not taken
    code.push_loadlit(1, symbol).unwrap();
    code.push_cond_jump(Opcode::JMPNT, 1).unwrap();
    code.write_jump_offset(4, 1).unwrap();
    code.push_loadlit(3, number).unwrap();
    code.push_op1(Opcode::RETURN, 3).unwrap();
    assert_eq!(run(&mut rig, code).unwrap(), seven);
    assert_eq!(reg(&rig, 2), Value::Nil);
}

#[test]
fn loadnil_overwrites_with_nil() {
    let mut rig = rig(4);
    let seven = rig.mem.alloc_number(7).unwrap();
    let mut code = ByteCode::new();
    let number = code.push_lit(seven).unwrap();
    code.push_loadlit(1, number).unwrap();
    code.push_loadlit(2, number).unwrap();
    code.push_op1(Opcode::LOADNIL, 1).unwrap();
    code.push_op1(Opcode::RETURN, 1).unwrap();
    assert_eq!(run(&mut rig, code).unwrap(), Value::Nil);
    assert_eq!(reg(&rig, 2), seven);
}

#[test]
fn store_global_then_load_global_round_trips() {
    let mut rig = rig(4);
    let seven = rig.mem.alloc_number(7).unwrap();
    let name = rig.mem.lookup_sym("answer");
    let mut code = ByteCode::new();
    let number = code.push_lit(seven).unwrap();
    let symbol = code.push_lit(name).unwrap();
    code.push_loadlit(1, symbol).unwrap();
    code.push_loadlit(2, number).unwrap();
    code.push_op2(Opcode::STOREGLOBAL, 1, 2).unwrap();
    code.push_loadlit(3, symbol).unwrap();
    code.push_op2(Opcode::LOADGLOBAL, 0, 3).unwrap();
    code.push_op1(Opcode::RETURN, 3).unwrap();
    assert_eq!(run(&mut rig, code).unwrap(), seven);
    assert_eq!(rig.mem.dict(rig.globals).lookup(name).unwrap(), seven);
    assert!(rig.mem.dict(rig.globals).has_key(name));
}

#[test]
fn load_global_of_an_unbound_symbol_is_an_error() {
    let mut rig = rig(4);
    let name = rig.mem.lookup_sym("nobody");
    let mut code = ByteCode::new();
    let symbol = code.push_lit(name).unwrap();
    code.push_loadlit(1, symbol).unwrap();
    code.push_op2(Opcode::LOADGLOBAL, 0, 1).unwrap();
    code.push_op1(Opcode::RETURN, 1).unwrap();
    let err = run(&mut rig, code).unwrap_err();
    assert_eq!(*err.error_kind(), eval_error("Symbol not bound to value"));
    assert_eq!(reg(&rig, 1), name);
}

#[test]
fn load_global_of_a_non_symbol_is_an_error() {
    let mut rig = rig(4);
    let mut code = ByteCode::new();
    code.push_op2(Opcode::LOADGLOBAL, 0, 1).unwrap();
    let err = run(&mut rig, code).unwrap_err();
    assert_eq!(*err.error_kind(), eval_error("Cannot lookup value for non-symbol type"));
}

#[test]
fn store_global_to_a_non_symbol_is_an_error() {
    let mut rig = rig(4);
    let mut code = ByteCode::new();
    code.push_op2(Opcode::STOREGLOBAL, 1, 2).unwrap();
    let err = run(&mut rig, code).unwrap_err();
    assert_eq!(*err.error_kind(), eval_error("Cannot bind value to non-symbol type"));
}

#[test]
fn a_register_beyond_the_stack_is_an_error() {
    let mut rig = rig(2);
    let mut code = ByteCode::new();
    code.push_op1(Opcode::LOADNIL, 2).unwrap();
    let err = run(&mut rig, code).unwrap_err();
    assert_eq!(*err.error_kind(), eval_error("Index out of bounds"));
}

#[test]
fn running_off_the_end_of_the_code_is_an_error() {
    let mut rig = rig(2);
    let mut code = ByteCode::new();
    code.push_op1(Opcode::LOADNIL, 1).unwrap();
    let err = run(&mut rig, code).unwrap_err();
    assert_eq!(*err.error_kind(), eval_error("Index out of bounds"));
}

#[test]
fn a_missing_literal_is_an_error() {
    let mut rig = rig(2);
    let mut code = ByteCode::new();
    code.push_loadlit(1, 3).unwrap();
    let err = run(&mut rig, code).unwrap_err();
    assert_eq!(*err.error_kind(), eval_error("Index out of bounds"));
}

#[test]
fn cons_on_a_full_arena_is_out_of_memory() {
    let pair_size = std::mem::size_of::<Pair>();
    let mut mem = MutatorView::new(64 * pair_size);
    let stack = mem.alloc_list().unwrap();
    for _ in 0..4 {
        mem.list_push(stack, Value::Nil).unwrap();
    }
    let globals = mem.alloc_dict().unwrap();
    for _ in 0..64 {
        mem.alloc_pair(Pair::new()).unwrap();
    }
    assert_eq!(mem.pair_count(), 64);
    let mut code = ByteCode::new();
    code.push_op3(Opcode::CONS, 1, 0, 0).unwrap();
    code.push_op1(Opcode::RETURN, 1).unwrap();
    let code = mem.alloc_bytecode(code).unwrap();
    let err = quick_vm_eval(&mut mem, stack, globals, code).unwrap_err();
    assert_eq!(*err.error_kind(), ErrorKind::OutOfMemory);
    assert_eq!(mem.pair_count(), 64);
    assert_eq!(mem.list(stack).get(1).unwrap(), Value::Nil);
}

fn counting_program(rig: &mut Rig) -> (Ptr<ByteCode>, Value) {
    let seven = rig.mem.alloc_number(7).unwrap();
    let truth = rig.mem.lookup_sym("true");
    let mut code = ByteCode::new();
    let number = code.push_lit(seven).unwrap();
    let symbol = code.push_lit(truth).unwrap();
    code.push_loadlit(1, number).unwrap();
    code.push_loadlit(2, symbol).unwrap();
    code.push_op3(Opcode::CONS, 3, 1, 2).unwrap();
    code.push_cond_jump(Opcode::JMPNT, 2).unwrap();
    code.write_jump_offset(3, 2).unwrap();
    code.push_op2(Opcode::CAR, 4, 3).unwrap();
    code.push_jump().unwrap();
    code.write_jump_offset(5, 1).unwrap();
    code.push_op2(Opcode::CDR, 4, 3).unwrap();
    code.push_op1(Opcode::RETURN, 4).unwrap();
    (rig.mem.alloc_bytecode(code).unwrap(), seven)
}

#[test]
fn a_spent_budget_is_pending_and_can_be_resumed() {
    let mut rig = rig(8);
    let (code, seven) = counting_program(&mut rig);
    let stream = rig.mem.alloc_stream(InstructionStream::new(code)).unwrap();
    let first = vm_eval_stream(&mut rig.mem, rig.stack, rig.globals, stream, 3).unwrap();
    assert_eq!(first, EvalStatus::Pending);
    assert_eq!(rig.mem.stream(stream).ip, 3);
    let nothing = vm_eval_stream(&mut rig.mem, rig.stack, rig.globals, stream, 0).unwrap();
    assert_eq!(nothing, EvalStatus::Pending);
    assert_eq!(rig.mem.stream(stream).ip, 3);
    let second = vm_eval_stream(&mut rig.mem, rig.stack, rig.globals, stream, 100).unwrap();
    assert_eq!(second, EvalStatus::Return(seven));
}

#[test]
fn one_step_at_a_time_gives_what_one_large_quantum_gives() {
    let mut rig = rig(8);
    let (code, seven) = counting_program(&mut rig);
    let whole = rig.stack;
    let stream = rig.mem.alloc_stream(InstructionStream::new(code)).unwrap();
    let at_once = vm_eval_stream(&mut rig.mem, whole, rig.globals, stream, 1000).unwrap();
    assert_eq!(at_once, EvalStatus::Return(seven));

    let stepped = rig.mem.alloc_list().unwrap();
    for _ in 0..8 {
        rig.mem.list_push(stepped, Value::Nil).unwrap();
    }
    let stream = rig.mem.alloc_stream(InstructionStream::new(code)).unwrap();
    let mut polls = 0;
    let value = loop {
        polls += 1;
        match vm_eval_stream(&mut rig.mem, stepped, rig.globals, stream, 1).unwrap() {
            EvalStatus::Pending => (),
            EvalStatus::Return(value) => break value,
            EvalStatus::Halt => panic!("halted"),
        }
    };
    assert_eq!(value, seven);
    assert_eq!(polls, 7);
    assert_eq!(EvalStatus::Return(value), at_once);
    for index in 0..8 {
        let one = rig.mem.list(whole).get(index).unwrap();
        let other = rig.mem.list(stepped).get(index).unwrap();
        match (one, other) {
            // each run allocated a pair of its own, with the same in it
            (Value::Pair(p), Value::Pair(q)) => {
                assert!(!p.is(q));
                assert_eq!(rig.mem.pair(p), rig.mem.pair(q));
            }
            _ => assert_eq!(one, other),
        }
    }
}

#[test]
fn single_steps_report_pending_until_the_return() {
    let mut rig = rig(8);
    let (code, seven) = counting_program(&mut rig);
    let stream = rig.mem.alloc_stream(InstructionStream::new(code)).unwrap();
    for _ in 0..6 {
        let status = eval_next_instr(&mut rig.mem, rig.stack, rig.globals, stream).unwrap();
        assert_eq!(status, EvalStatus::Pending);
    }
    let status = eval_next_instr(&mut rig.mem, rig.stack, rig.globals, stream).unwrap();
    assert_eq!(status, EvalStatus::Return(seven));
}

#[test]
fn programs_longer_than_one_quantum_run_to_their_end() {
    let mut rig = rig(4);
    let seven = rig.mem.alloc_number(7).unwrap();
    let mut code = ByteCode::new();
    let number = code.push_lit(seven).unwrap();
    for _ in 0..3000 {
        code.push_op1(Opcode::LOADNIL, 1).unwrap();
    }
    code.push_loadlit(1, number).unwrap();
    code.push_op1(Opcode::RETURN, 1).unwrap();
    assert_eq!(run(&mut rig, code).unwrap(), seven);
}

#[test]
fn a_jump_past_every_address_ends_in_a_bounds_error() {
    let mut rig = rig(4);
    let mut code = ByteCode::new();
    code.push_jump().unwrap();
    code.write_jump_offset(0, u32::MAX).unwrap();
    code.push_op1(Opcode::RETURN, 1).unwrap();
    let err = run(&mut rig, code).unwrap_err();
    assert_eq!(*err.error_kind(), eval_error("Index out of bounds"));
}
