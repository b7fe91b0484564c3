use evalrus::error::{ErrorKind, RuntimeError};
use evalrus::heap::{Memory, Mutator, MutatorView};
use evalrus::taggedptr::Value;
use evalrus::text::Text;

struct EmptyText {}

impl Mutator for EmptyText {
    type Input = ();
    type Output = ();

    fn run(&self, view: &mut MutatorView, _input: Self::Input) -> Result<Self::Output, RuntimeError> {
        let text = Text::new_empty();
        assert!(text.as_str(view) == "");

        Ok(())
    }
}

#[test]
fn text_empty_string() {
    let mut mem = Memory::new();

    let test = EmptyText {};
    mem.mutate(&test, ()).unwrap();
}

struct NonEmptyText {}

impl Mutator for NonEmptyText {
    type Input = ();
    type Output = ();

    fn run(&self, view: &mut MutatorView, _input: Self::Input) -> Result<Self::Output, RuntimeError> {
        let expected = "こんにちは";
        let text = Text::new_from_str(view, expected)?;
        let got = text.as_str(view);

        assert!(got == expected);

        Ok(())
    }
}

#[test]
fn text_nonempty_string() {
    let mut mem = Memory::new();

    let test = NonEmptyText {};
    mem.mutate(&test, ()).unwrap();
}

struct TextsOnTheHeap {}

impl Mutator for TextsOnTheHeap {
    type Input = &'static str;
    type Output = (Value, Value);

    fn run(&self, view: &mut MutatorView, input: Self::Input) -> Result<Self::Output, RuntimeError> {
        let first = view.alloc_text(Text::new_from_str(view, input)?)?;
        let second = view.alloc_text(Text::new_from_str(view, input)?)?;
        if let (Value::Text(a), Value::Text(b)) = (first, second) {
            assert_eq!(view.text(a).as_str(view), input);
            assert_eq!(view.text(b).as_str(view), input);
            assert_eq!(view.text(a).clone(), *view.text(b));
        } else {
            panic!("expected two texts");
        }
        Ok((first, second))
    }
}

#[test]
fn texts_are_not_interned() {
    let mut mem = Memory::new();
    let (first, second) = mem.mutate(&TextsOnTheHeap {}, "same").unwrap();
    assert!(first.is(first));
    assert!(!first.is(second));
}

struct Failing {}

impl Mutator for Failing {
    type Input = u8;
    type Output = u8;

    fn run(&self, _view: &mut MutatorView, input: Self::Input) -> Result<Self::Output, RuntimeError> {
        if input == 0 {
            Err(RuntimeError::new(ErrorKind::OutOfMemory))
        } else {
            Ok(input + 1)
        }
    }
}

#[test]
fn mutate_hands_back_what_the_mutator_returns() {
    let mut mem = Memory::new();
    assert_eq!(mem.mutate(&Failing {}, 1).unwrap(), 2);
    let err = mem.mutate(&Failing {}, 0).unwrap_err();
    assert_eq!(*err.error_kind(), ErrorKind::OutOfMemory);
}
