use evalrus::error::{
    err_eval, err_lexer, err_parser, err_parser_wpos, spos, ErrorKind, RuntimeError, SourcePos,
};
use evalrus::memory::AllocError;

#[test]
fn source_positions_hold_line_and_column() {
    let pos = spos(3, 14);
    assert_eq!(pos, SourcePos { line: 3, column: 14 });
    assert_eq!(pos, SourcePos::new(3, 14));
    assert_eq!(pos.line, 3);
    assert_eq!(pos.column, 14);
}

#[test]
fn new_has_no_position_and_with_pos_has_one() {
    let plain = RuntimeError::new(ErrorKind::OutOfMemory);
    assert_eq!(plain.error_pos(), None);
    assert_eq!(*plain.error_kind(), ErrorKind::OutOfMemory);

    let placed = RuntimeError::with_pos(ErrorKind::BadAllocationRequest, spos(1, 2));
    assert_eq!(placed.error_pos(), Some(spos(1, 2)));
    assert_eq!(*placed.error_kind(), ErrorKind::BadAllocationRequest);
    assert_ne!(plain, placed);
}

#[test]
fn shorthands_build_the_right_kinds() {
    let lexer = err_lexer(spos(2, 5), "bad character");
    assert_eq!(*lexer.error_kind(), ErrorKind::LexerError(String::from("bad character")));
    assert_eq!(lexer.error_pos(), Some(spos(2, 5)));

    let parser = err_parser("unbalanced");
    assert_eq!(*parser.error_kind(), ErrorKind::ParseError(String::from("unbalanced")));
    assert_eq!(parser.error_pos(), None);

    let placed = err_parser_wpos(spos(7, 1), "unbalanced");
    assert_eq!(*placed.error_kind(), ErrorKind::ParseError(String::from("unbalanced")));
    assert_eq!(placed.error_pos(), Some(spos(7, 1)));

    let eval = err_eval("no such thing");
    assert_eq!(*eval.error_kind(), ErrorKind::EvalError(String::from("no such thing")));
    assert_eq!(eval.error_pos(), None);
}

#[test]
fn messages_name_the_kind() {
    assert_eq!(err_lexer(spos(1, 1), "x").message(), "Parse error: x");
    assert_eq!(err_parser("y").message(), "Parse error: y");
    assert_eq!(err_eval("z").message(), "Evaluation error: z");
    assert_eq!(RuntimeError::new(ErrorKind::OutOfMemory).message(), "Out of memory!");
    assert_eq!(
        RuntimeError::new(ErrorKind::BadAllocationRequest).message(),
        "An invalid memory size allocation was requested!"
    );
}

#[test]
fn descriptions_are_the_reasons() {
    assert_eq!(err_lexer(spos(1, 1), "x").description(), "x");
    assert_eq!(err_parser("y").description(), "y");
    assert_eq!(err_eval("z").description(), "z");
    assert_eq!(RuntimeError::new(ErrorKind::OutOfMemory).description(), "");
    assert_eq!(RuntimeError::new(ErrorKind::BadAllocationRequest).description(), "");
}

#[test]
fn allocation_failures_convert() {
    let oom = RuntimeError::from(AllocError::OutOfMemory);
    assert_eq!(oom, RuntimeError::new(ErrorKind::OutOfMemory));
    let bad = RuntimeError::from(AllocError::BadRequest);
    assert_eq!(bad, RuntimeError::new(ErrorKind::BadAllocationRequest));
    let through_into: RuntimeError = AllocError::OutOfMemory.into();
    assert_eq!(through_into, oom);
}

#[test]
fn an_error_without_a_position_shows_its_message() {
    let shown = err_eval("no such thing").source_context("first\nsecond\n");
    assert_eq!(shown, vec![String::from("error: Evaluation error: no such thing")]);
}

#[test]
fn an_error_with_a_position_shows_the_line_and_a_caret() {
    let shown = err_parser_wpos(spos(2, 3), "unbalanced").source_context("(first\n  (second\nthird)");
    assert_eq!(
        shown,
        vec![
            String::from("error: Parse error: unbalanced"),
            String::from("    2|  (second"),
            String::from("     |   ^"),
            String::from("     |"),
        ]
    );
}

#[test]
fn a_column_of_zero_or_one_puts_the_caret_behind_one_space() {
    let zero = err_lexer(spos(1, 0), "x").source_context("abc");
    assert_eq!(zero[1], "    1|abc");
    assert_eq!(zero[2], "     | ^");
    let one = err_lexer(spos(1, 1), "x").source_context("abc");
    assert_eq!(one[2], "     | ^");
    let two = err_lexer(spos(1, 2), "x").source_context("abc");
    assert_eq!(two[2], "     |  ^");
}

#[test]
fn a_position_outside_the_source_shows_nothing() {
    let source = "one\ntwo\n";
    assert!(err_lexer(spos(3, 1), "x").source_context(source).is_empty());
    assert!(err_lexer(spos(0, 1), "x").source_context(source).is_empty());
    assert!(err_lexer(spos(1, 1), "x").source_context("").is_empty());
    assert_eq!(err_lexer(spos(2, 1), "x").source_context(source).len(), 4);
}

#[test]
fn long_line_numbers_are_not_cut() {
    let mut source = String::new();
    for _ in 0..123456 {
        source.push_str("line\r\n");
    }
    let shown = err_lexer(spos(123456, 4), "x").source_context(&source);
    assert_eq!(shown[1], "123456|line");
    assert_eq!(shown[2], "     |    ^");
}

#[test]
fn context_lines_take_the_lines_as_they_are_given() {
    let lines = vec![String::from("alpha"), String::from("beta")];
    let error = RuntimeError::with_pos(ErrorKind::OutOfMemory, spos(2, 5));
    let shown = error.context_lines(&lines, "  two");
    assert_eq!(
        shown,
        vec![
            String::from("error: Out of memory!"),
            String::from("  two|beta"),
            String::from("     |     ^"),
            String::from("     |"),
        ]
    );
    let nowhere = RuntimeError::with_pos(ErrorKind::OutOfMemory, spos(3, 5));
    assert!(nowhere.context_lines(&lines, "    3").is_empty());
    let plain = RuntimeError::new(ErrorKind::BadAllocationRequest);
    assert_eq!(
        plain.context_lines(&lines, "    1"),
        vec![String::from("error: An invalid memory size allocation was requested!")]
    );
}

#[test]
fn line_numbers_are_padded_to_five_and_no_further() {
    let mut source = String::new();
    for _ in 0..12345 {
        source.push_str("x\n");
    }
    let shown = |line: u32| err_lexer(spos(line, 1), "x").source_context(&source)[1].clone();
    assert_eq!(shown(1), "    1|x");
    assert_eq!(shown(9), "    9|x");
    assert_eq!(shown(10), "   10|x");
    assert_eq!(shown(305), "  305|x");
    assert_eq!(shown(4096), " 4096|x");
    assert_eq!(shown(12345), "12345|x");
}
