use evalrus::bytecode::{ByteCode, Instruction, InstructionStream, Opcode};
use evalrus::compiler::Compiler;
use evalrus::dict::Dict;
use evalrus::error::ErrorKind;
use evalrus::heap::MutatorView;
use evalrus::list::List;
use evalrus::pair::{get_one_from_pair_list, get_two_from_pair_list, Pair};
use evalrus::taggedptr::Value;

fn eval_error(reason: &str) -> ErrorKind {
    ErrorKind::EvalError(String::from(reason))
}

fn heap_with_values() -> (MutatorView, Value, Value, Value) {
    let mut mem = MutatorView::new(1 << 16);
    let one = mem.alloc_number(1).unwrap();
    let two = mem.alloc_number(2).unwrap();
    let name = mem.lookup_sym("name");
    (mem, one, two, name)
}

#[test]
fn list_get_set_push_pop() {
    let (_mem, one, two, name) = heap_with_values();
    let mut list = List::new();
    assert_eq!(list.length(), 0);
    assert_eq!(*list.get(0).unwrap_err().error_kind(), eval_error("Index out of bounds"));
    assert_eq!(*list.pop().unwrap_err().error_kind(), eval_error("Index out of bounds"));
    list.push(one).unwrap();
    list.push(two).unwrap();
    assert_eq!(list.length(), 2);
    assert_eq!(list.get(0).unwrap(), one);
    assert_eq!(list.get(1).unwrap(), two);
    assert!(list.get(2).is_err());
    list.set(0, name).unwrap();
    assert_eq!(list.get(0).unwrap(), name);
    assert_eq!(list.get(1).unwrap(), two);
    assert_eq!(*list.set(2, name).unwrap_err().error_kind(), eval_error("Index out of bounds"));
    assert_eq!(list.length(), 2);
    assert_eq!(list.pop().unwrap(), two);
    assert_eq!(list.pop().unwrap(), name);
    assert_eq!(list.length(), 0);
}

#[test]
fn dict_binds_symbols_only() {
    let (mut mem, one, two, name) = heap_with_values();
    let other = mem.lookup_sym("other");
    let mut dict = Dict::new();
    assert!(!dict.has_key(name));
    assert_eq!(*dict.lookup(name).unwrap_err().error_kind(), eval_error("Key not found"));
    dict.assoc(name, one).unwrap();
    assert!(dict.has_key(name));
    assert!(!dict.has_key(other));
    assert_eq!(dict.lookup(name).unwrap(), one);
    dict.assoc(name, two).unwrap();
    assert_eq!(dict.lookup(name).unwrap(), two);
    dict.assoc(other, one).unwrap();
    assert_eq!(dict.lookup(other).unwrap(), one);
    assert_eq!(dict.lookup(name).unwrap(), two);
    assert_eq!(*dict.assoc(one, two).unwrap_err().error_kind(), eval_error("Key is not a symbol"));
    assert_eq!(*dict.lookup(one).unwrap_err().error_kind(), eval_error("Key is not a symbol"));
    assert!(!dict.has_key(one));
    assert!(!dict.has_key(Value::Nil));
}

#[test]
fn heap_lists_and_dicts_are_reached_through_their_handles() {
    let (mut mem, one, two, name) = heap_with_values();
    let first = mem.alloc_list().unwrap();
    let second = mem.alloc_list().unwrap();
    assert!(!first.is(second));
    mem.list_push(first, one).unwrap();
    mem.list_push(second, two).unwrap();
    mem.list_set(first, 0, name).unwrap();
    assert_eq!(mem.list(first).get(0).unwrap(), name);
    assert_eq!(mem.list(second).get(0).unwrap(), two);
    assert_eq!(
        *mem.list_set(first, 1, one).unwrap_err().error_kind(),
        eval_error("Index out of bounds")
    );
    assert_eq!(mem.list(first).length(), 1);

    let globals = mem.alloc_dict().unwrap();
    mem.dict_assoc(globals, name, one).unwrap();
    assert_eq!(mem.dict(globals).lookup(name).unwrap(), one);
    assert_eq!(
        *mem.dict_assoc(globals, one, one).unwrap_err().error_kind(),
        eval_error("Key is not a symbol")
    );
}

#[test]
fn pair_slots_are_overwritten_in_place() {
    let (mut mem, one, two, name) = heap_with_values();
    let value = mem.alloc_pair(Pair::new()).unwrap();
    let pair = match value {
        Value::Pair(p) => p,
        _ => panic!("expected a pair"),
    };
    assert_eq!(mem.pair(pair), Pair { first: Value::Nil, second: Value::Nil });
    mem.set_first(pair, one);
    assert_eq!(mem.pair(pair), Pair { first: one, second: Value::Nil });
    mem.set_second(pair, two);
    assert_eq!(mem.pair(pair), Pair { first: one, second: two });
    mem.set_first(pair, value);
    assert_eq!(mem.pair(pair), Pair { first: value, second: two });
    mem.set_second(pair, name);
    assert_eq!(mem.pair(pair).second, name);
    assert_eq!(mem.pair_count(), 1);
}

#[test]
fn numbers_are_objects_with_an_identity() {
    let mut mem = MutatorView::new(1 << 16);
    let first = mem.alloc_number(-5).unwrap();
    let second = mem.alloc_number(-5).unwrap();
    assert!(first.is(first));
    assert!(!first.is(second));
    match (first, second) {
        (Value::Number(a), Value::Number(b)) => {
            assert_eq!(mem.number(a), -5);
            assert_eq!(mem.number(b), -5);
        }
        _ => panic!("expected two numbers"),
    }
    assert!(!first.is_nil());
    assert!(!first.is_pair());
    assert!(Value::Nil.is_nil());
    assert!(Value::Nil.is(Value::Nil));
    assert!(!Value::Nil.is(first));
}

#[test]
fn parameter_lists_of_one_and_two() {
    let (mut mem, one, two, name) = heap_with_values();
    let single = mem.alloc_pair(Pair { first: one, second: Value::Nil }).unwrap();
    let double = mem.alloc_pair(Pair { first: two, second: single }).unwrap();
    let triple = mem.alloc_pair(Pair { first: name, second: double }).unwrap();
    let dotted = mem.alloc_pair(Pair { first: one, second: two }).unwrap();

    assert_eq!(get_one_from_pair_list(&mem, single).unwrap(), one);
    assert_eq!(
        *get_one_from_pair_list(&mem, double).unwrap_err().error_kind(),
        eval_error("Expected no more than one parameter")
    );
    assert_eq!(
        *get_one_from_pair_list(&mem, dotted).unwrap_err().error_kind(),
        eval_error("Expected no more than one parameter")
    );
    assert_eq!(
        *get_one_from_pair_list(&mem, Value::Nil).unwrap_err().error_kind(),
        eval_error("Expected no less than one parameter")
    );

    assert_eq!(get_two_from_pair_list(&mem, double).unwrap(), (two, one));
    assert_eq!(
        *get_two_from_pair_list(&mem, single).unwrap_err().error_kind(),
        eval_error("Expected no less than two parameters")
    );
    assert_eq!(
        *get_two_from_pair_list(&mem, one).unwrap_err().error_kind(),
        eval_error("Expected no less than two parameters")
    );
    assert_eq!(
        *get_two_from_pair_list(&mem, triple).unwrap_err().error_kind(),
        eval_error("Expected no more than two parameters")
    );
}

#[test]
fn bytecode_addresses_and_literal_indices_are_stable() {
    let (_mem, one, two, _name) = heap_with_values();
    let mut code = ByteCode::new();
    assert_eq!(code.next_instruction(), 0);
    code.push_op0(Opcode::HALT).unwrap();
    assert_eq!(code.last_instruction(), 0);
    code.push_op1(Opcode::RETURN, 9).unwrap();
    code.push_op2(Opcode::ATOM, 1, 2).unwrap();
    code.push_op3(Opcode::CONS, 3, 4, 5).unwrap();
    code.push_loadlit(6, 7).unwrap();
    code.push_jump().unwrap();
    code.push_cond_jump(Opcode::JMPT, 8).unwrap();
    assert_eq!(code.next_instruction(), 7);
    assert_eq!(code.last_instruction(), 6);
    let zero = Instruction { op: Opcode::HALT, acc: 0, reg1: 0, reg2: 0, literal: 0, offset: 0 };
    assert_eq!(code.get_instruction(0).unwrap(), zero);
    assert_eq!(code.get_instruction(1).unwrap(), Instruction { op: Opcode::RETURN, acc: 9, ..zero });
    assert_eq!(
        code.get_instruction(2).unwrap(),
        Instruction { op: Opcode::ATOM, acc: 1, reg1: 2, ..zero }
    );
    assert_eq!(
        code.get_instruction(3).unwrap(),
        Instruction { op: Opcode::CONS, acc: 3, reg1: 4, reg2: 5, ..zero }
    );
    assert_eq!(
        code.get_instruction(4).unwrap(),
        Instruction { op: Opcode::LOADLIT, acc: 6, literal: 7, ..zero }
    );
    assert_eq!(code.get_instruction(5).unwrap(), Instruction { op: Opcode::JMP, ..zero });
    assert_eq!(code.get_instruction(6).unwrap(), Instruction { op: Opcode::JMPT, reg1: 8, ..zero });
    assert_eq!(
        *code.get_instruction(7).unwrap_err().error_kind(),
        eval_error("Index out of bounds")
    );

    code.write_jump_offset(5, 40).unwrap();
    code.write_jump_offset(6, 2).unwrap();
    assert_eq!(code.get_instruction(5).unwrap(), Instruction { op: Opcode::JMP, offset: 40, ..zero });
    assert_eq!(
        code.get_instruction(6).unwrap(),
        Instruction { op: Opcode::JMPT, reg1: 8, offset: 2, ..zero }
    );
    assert_eq!(code.get_instruction(4).unwrap().offset, 0);
    assert_eq!(
        *code.write_jump_offset(7, 1).unwrap_err().error_kind(),
        eval_error("Index out of bounds")
    );

    assert_eq!(code.push_lit(one).unwrap(), 0);
    assert_eq!(code.push_lit(two).unwrap(), 1);
    assert_eq!(code.push_lit(one).unwrap(), 2);
    assert_eq!(code.get_literal(0).unwrap(), one);
    assert_eq!(code.get_literal(1).unwrap(), two);
    assert_eq!(code.get_literal(2).unwrap(), one);
    assert!(code.get_literal(3).is_err());
    assert_eq!(code.next_instruction(), 7);
}

#[test]
fn the_literal_pool_is_full_when_the_indices_run_out() {
    let mut code = ByteCode::new();
    for expected in 0..=u16::MAX {
        assert_eq!(code.push_lit(Value::Nil).unwrap(), expected);
    }
    let err = code.push_lit(Value::Nil).unwrap_err();
    assert_eq!(*err.error_kind(), ErrorKind::BadAllocationRequest);
    assert!(code.get_literal(u16::MAX).is_ok());
}

#[test]
fn an_instruction_stream_fetches_and_jumps() {
    let (mut mem, one, _two, _name) = heap_with_values();
    let mut code = ByteCode::new();
    let id = code.push_lit(one).unwrap();
    code.push_loadlit(3, id).unwrap();
    code.push_jump().unwrap();
    code.write_jump_offset(1, 5).unwrap();
    let handle = mem.alloc_bytecode(code).unwrap();
    let code = mem.bytecode(handle);

    let mut stream = InstructionStream::new(handle);
    assert_eq!(stream.ip, 0);
    assert_eq!(stream.get_next_opcode(code).unwrap(), Opcode::LOADLIT);
    assert_eq!(stream.ip, 1);
    assert_eq!(stream.get_reg_acc(), 3);
    assert_eq!(stream.get_reg1(), 0);
    assert_eq!(stream.get_reg2(), 0);
    assert_eq!(stream.get_literal(code).unwrap(), one);
    assert_eq!(stream.get_next_opcode(code).unwrap(), Opcode::JMP);
    assert_eq!(stream.ip, 2);
    stream.jump();
    assert_eq!(stream.ip, 7);
    let err = stream.get_next_opcode(code).unwrap_err();
    assert_eq!(*err.error_kind(), eval_error("Index out of bounds"));
    assert_eq!(stream.ip, 7);
    stream.ip = u32::MAX - 2;
    stream.jump();
    assert_eq!(stream.ip, u32::MAX);
}

#[test]
fn the_compiler_hands_out_registers_in_order() {
    let (mem, one, _two, _name) = heap_with_values();
    let mut compiler = Compiler::new();
    assert_eq!(compiler.acquire_reg().unwrap(), 0);
    assert_eq!(compiler.acquire_reg().unwrap(), 1);
    assert_eq!(compiler.push_op1(Opcode::LOADNIL).unwrap(), 2);
    assert_eq!(compiler.push_load_literal(&mem, one).unwrap(), 3);
    compiler.reset_reg(1);
    assert_eq!(compiler.acquire_reg().unwrap(), 1);
    compiler.push_op0(Opcode::HALT).unwrap();
    assert_eq!(compiler.acquire_reg().unwrap(), 2);
    compiler.reset_reg(254);
    assert_eq!(compiler.acquire_reg().unwrap(), 254);
    assert_eq!(*compiler.acquire_reg().unwrap_err().error_kind(), eval_error("Out of registers"));
    assert_eq!(
        *compiler.push_op1(Opcode::LOADNIL).unwrap_err().error_kind(),
        eval_error("Out of registers")
    );
}

#[test]
fn a_failed_application_leaves_the_compiler_as_the_failure_found_it() {
    let (mut mem, one, _two, name) = heap_with_values();
    let single = mem.alloc_pair(Pair { first: one, second: Value::Nil }).unwrap();

    // an unknown operator and a non-symbol operator take no register
    let mut compiler = Compiler::new();
    assert_eq!(compiler.acquire_reg().unwrap(), 0);
    let err = compiler.compile_apply(&mem, name, single, 10).unwrap_err();
    assert_eq!(*err.error_kind(), eval_error("Symbol is not bound to a function"));
    let err = compiler.compile_apply(&mem, one, single, 10).unwrap_err();
    assert_eq!(*err.error_kind(), eval_error("Non symbol in function-call position"));
    assert_eq!(compiler.acquire_reg().unwrap(), 1);

    // an operator without its operand has taken the register of its result
    let mut compiler = Compiler::new();
    let err = compiler.push_op2(&mem, Opcode::ATOM, Value::Nil, 10).unwrap_err();
    assert_eq!(*err.error_kind(), eval_error("Expected no less than one parameter"));
    assert_eq!(compiler.acquire_reg().unwrap(), 1);

    // quote without its operand has taken nothing
    let quote = mem.lookup_sym("quote");
    let mut compiler = Compiler::new();
    let err = compiler.compile_apply(&mem, quote, Value::Nil, 10).unwrap_err();
    assert_eq!(*err.error_kind(), eval_error("Expected no less than one parameter"));
    assert_eq!(compiler.acquire_reg().unwrap(), 0);
}
