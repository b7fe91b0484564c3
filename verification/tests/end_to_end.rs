use evalrus::compiler::compile;
use evalrus::error::ErrorKind;
use evalrus::heap::MutatorView;
use evalrus::pair::Pair;
use evalrus::taggedptr::Value;
use evalrus::vm::quick_vm_eval;

fn list(mem: &mut MutatorView, items: &[Value]) -> Value {
    let mut tail = Value::Nil;
    for item in items.iter().rev() {
        tail = mem.alloc_pair(Pair { first: *item, second: tail }).unwrap();
    }
    tail
}

fn sym(mem: &mut MutatorView, name: &str) -> Value {
    mem.lookup_sym(name)
}

fn call(mem: &mut MutatorView, name: &str, args: &[Value]) -> Value {
    let mut items = vec![sym(mem, name)];
    items.extend_from_slice(args);
    list(mem, &items)
}

fn eval(mem: &mut MutatorView, ast: Value) -> Result<Value, evalrus::error::RuntimeError> {
    let code = compile(mem, ast)?;
    let stack = mem.alloc_list()?;
    for _ in 0..256 {
        mem.list_push(stack, Value::Nil)?;
    }
    let globals = mem.alloc_dict()?;
    quick_vm_eval(mem, stack, globals, code)
}

#[test]
fn cond_picks_the_first_true_clause() {
    let mut mem = MutatorView::new(1 << 20);
    let one = mem.alloc_number(1).unwrap();
    let two = mem.alloc_number(2).unwrap();
    let a = sym(&mut mem, "a");
    let b = sym(&mut mem, "b");
    let c = sym(&mut mem, "c");
    let truth = sym(&mut mem, "true");

    let eq = call(&mut mem, "eq", &[one, two]);
    let qa = call(&mut mem, "quote", &[a]);
    let clause1 = list(&mut mem, &[eq, qa]);
    let atom = call(&mut mem, "atom", &[one]);
    let qb = call(&mut mem, "quote", &[b]);
    let clause2 = list(&mut mem, &[atom, qb]);
    let qc = call(&mut mem, "quote", &[c]);
    let clause3 = list(&mut mem, &[truth, qc]);
    let ast = call(&mut mem, "cond", &[clause1, clause2, clause3]);

    let result = eval(&mut mem, ast).unwrap();
    assert_eq!(result, b);
}

#[test]
fn unknown_operator_is_an_eval_error() {
    let mut mem = MutatorView::new(1 << 20);
    let ast = call(&mut mem, "frobnicate", &[]);
    let err = eval(&mut mem, ast).unwrap_err();
    assert_eq!(
        *err.error_kind(),
        ErrorKind::EvalError(String::from("Symbol is not bound to a function"))
    );
}

#[test]
fn cond_without_a_true_condition_is_nil() {
    let mut mem = MutatorView::new(1 << 20);
    let one = mem.alloc_number(1).unwrap();
    let a = sym(&mut mem, "a");
    let x = sym(&mut mem, "x");
    let clause1 = list(&mut mem, &[x, a]);
    let clause2 = list(&mut mem, &[one, a]);
    let nil = sym(&mut mem, "nil");
    let clause3 = list(&mut mem, &[nil, a]);
    let ast = call(&mut mem, "cond", &[clause1, clause2, clause3]);
    assert_eq!(eval(&mut mem, ast).unwrap(), Value::Nil);
}

#[test]
fn cond_does_not_evaluate_what_follows_the_first_true_clause() {
    let mut mem = MutatorView::new(1 << 20);
    let one = mem.alloc_number(1).unwrap();
    let a = sym(&mut mem, "a");
    let b = sym(&mut mem, "b");
    let truth = sym(&mut mem, "true");
    let qa = call(&mut mem, "quote", &[a]);
    let qb = call(&mut mem, "quote", &[b]);
    // (car 1) fails when it is evaluated
    let fails = call(&mut mem, "car", &[one]);
    let taken = list(&mut mem, &[truth, qa]);
    let never = list(&mut mem, &[fails, qb]);
    let ast = call(&mut mem, "cond", &[taken, never]);
    assert_eq!(eval(&mut mem, ast).unwrap(), a);
    // the other way round the failing condition comes first
    let ast = call(&mut mem, "cond", &[never, taken]);
    let err = eval(&mut mem, ast).unwrap_err();
    assert_eq!(
        *err.error_kind(),
        ErrorKind::EvalError(String::from("Parameter to CAR is not a list"))
    );
    // nor is the expression of a clause whose condition is not true
    let skipped = list(&mut mem, &[one, fails]);
    let ast = call(&mut mem, "cond", &[skipped, taken]);
    assert_eq!(eval(&mut mem, ast).unwrap(), a);
}

#[test]
fn nested_conds_give_the_inner_result() {
    let mut mem = MutatorView::new(1 << 20);
    let a = sym(&mut mem, "a");
    let truth = sym(&mut mem, "true");
    let nil = sym(&mut mem, "nil");
    let qa = call(&mut mem, "quote", &[a]);
    let inner_clause = list(&mut mem, &[truth, qa]);
    let inner = call(&mut mem, "cond", &[inner_clause]);
    let skipped = list(&mut mem, &[nil, truth]);
    let outer_clause = list(&mut mem, &[truth, inner]);
    let ast = call(&mut mem, "cond", &[skipped, outer_clause]);
    assert_eq!(eval(&mut mem, ast).unwrap(), a);
}

#[test]
fn eq_of_a_value_with_itself_is_true_and_of_two_pairs_is_nil() {
    let mut mem = MutatorView::new(1 << 20);
    let one = mem.alloc_number(1).unwrap();
    let two = mem.alloc_number(2).unwrap();
    let truth = sym(&mut mem, "true");
    let a = sym(&mut mem, "a");
    let qa = call(&mut mem, "quote", &[a]);
    let qa_again = call(&mut mem, "quote", &[a]);
    let ast = call(&mut mem, "eq", &[qa, qa_again]);
    assert_eq!(eval(&mut mem, ast).unwrap(), truth);
    let ast = call(&mut mem, "eq", &[one, one]);
    assert_eq!(eval(&mut mem, ast).unwrap(), truth);
    let ast = call(&mut mem, "eq", &[one, two]);
    assert_eq!(eval(&mut mem, ast).unwrap(), Value::Nil);
    let left = call(&mut mem, "cons", &[one, two]);
    let right = call(&mut mem, "cons", &[one, two]);
    let ast = call(&mut mem, "eq", &[left, right]);
    assert_eq!(eval(&mut mem, ast).unwrap(), Value::Nil);
}

#[test]
fn atom_of_nil_and_of_a_pair_is_nil() {
    let mut mem = MutatorView::new(1 << 20);
    let one = mem.alloc_number(1).unwrap();
    let truth = sym(&mut mem, "true");
    let a = sym(&mut mem, "a");
    let empty = call(&mut mem, "quote", &[Value::Nil]);
    let ast = call(&mut mem, "atom", &[empty]);
    assert_eq!(eval(&mut mem, ast).unwrap(), Value::Nil);
    let pair = call(&mut mem, "cons", &[one, one]);
    let ast = call(&mut mem, "atom", &[pair]);
    assert_eq!(eval(&mut mem, ast).unwrap(), Value::Nil);
    let ast = call(&mut mem, "atom", &[one]);
    assert_eq!(eval(&mut mem, ast).unwrap(), truth);
    let qa = call(&mut mem, "quote", &[a]);
    let ast = call(&mut mem, "atom", &[qa]);
    assert_eq!(eval(&mut mem, ast).unwrap(), truth);
}

#[test]
fn car_and_cdr_of_cons_are_the_operands() {
    let mut mem = MutatorView::new(1 << 20);
    let one = mem.alloc_number(1).unwrap();
    let two = mem.alloc_number(2).unwrap();
    let pair = call(&mut mem, "cons", &[one, two]);
    let ast = call(&mut mem, "car", &[pair]);
    assert_eq!(eval(&mut mem, ast).unwrap(), one);
    let ast = call(&mut mem, "cdr", &[pair]);
    assert_eq!(eval(&mut mem, ast).unwrap(), two);
    let ast = call(&mut mem, "car", &[one]);
    let err = eval(&mut mem, ast).unwrap_err();
    assert_eq!(
        *err.error_kind(),
        ErrorKind::EvalError(String::from("Parameter to CAR is not a list"))
    );
}

#[test]
fn equal_names_give_the_identical_symbol() {
    let mut mem = MutatorView::new(1 << 20);
    let first = sym(&mut mem, "name");
    let other = sym(&mut mem, "other");
    let second = sym(&mut mem, "name");
    assert_eq!(first, second);
    assert!(first.is(second));
    assert_ne!(first, other);
    match (first, other) {
        (Value::Symbol(a), Value::Symbol(b)) => {
            assert_eq!(mem.symbol_name(a), "name");
            assert_eq!(mem.symbol_name(b), "other");
        }
        _ => panic!("expected two symbols"),
    }
    assert!(mem.is_sym(first, "name"));
    assert!(!mem.is_sym(first, "other"));
    assert!(!mem.is_sym(Value::Nil, "name"));
    assert_eq!(mem.nil(), Value::Nil);
}

#[test]
fn values_of_two_heaps_are_never_identical() {
    let mut one = MutatorView::new(1 << 16);
    let mut other = MutatorView::new(1 << 16);
    let here = sym(&mut one, "name");
    let there = sym(&mut other, "name");
    assert!(!here.is(there));
    assert_ne!(here, there);
    let pair_here = one.alloc_pair(Pair::new()).unwrap();
    let pair_there = other.alloc_pair(Pair::new()).unwrap();
    assert!(!pair_here.is(pair_there));
    let number_here = one.alloc_number(1).unwrap();
    let number_there = other.alloc_number(1).unwrap();
    assert!(!number_here.is(number_there));
    assert!(here.is(sym(&mut one, "name")));
}
