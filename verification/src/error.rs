//! The runtime's error type and the source positions that errors carry.
use crate::memory::AllocError;
use vstd::prelude::*;

verus! {

/// A position in source text: a line and a column.
#[derive(Copy, Clone, Debug, PartialEq, Eq, Structural)]
pub struct SourcePos {
    pub line: u32,
    pub column: u32,
}

impl SourcePos {
    /// The position at `line` and `column`.
    pub fn new(line: u32, column: u32) -> (pos: SourcePos)
        ensures
            pos == (SourcePos { line, column }),
    {
        SourcePos { line, column }
    }
}

/// What went wrong. The first three kinds carry a reason in words.
#[derive(Debug, PartialEq)]
pub enum ErrorKind {
    LexerError(String),
    ParseError(String),
    EvalError(String),
    BadAllocationRequest,
    OutOfMemory,
}

/// An error kind with its reason as a sequence of characters.
pub enum ErrorKindView {
    LexerError(Seq<char>),
    ParseError(Seq<char>),
    EvalError(Seq<char>),
    BadAllocationRequest,
    OutOfMemory,
}

impl View for ErrorKind {
    type V = ErrorKindView;

    open spec fn view(&self) -> ErrorKindView {
        match self {
            ErrorKind::LexerError(reason) => ErrorKindView::LexerError(reason@),
            ErrorKind::ParseError(reason) => ErrorKindView::ParseError(reason@),
            ErrorKind::EvalError(reason) => ErrorKindView::EvalError(reason@),
            ErrorKind::BadAllocationRequest => ErrorKindView::BadAllocationRequest,
            ErrorKind::OutOfMemory => ErrorKindView::OutOfMemory,
        }
    }
}

impl ErrorKindView {
    /// The reason that the kind carries; empty for the two allocation kinds.
    pub open spec fn reason(self) -> Seq<char> {
        match self {
            ErrorKindView::LexerError(reason) => reason,
            ErrorKindView::ParseError(reason) => reason,
            ErrorKindView::EvalError(reason) => reason,
            ErrorKindView::BadAllocationRequest => Seq::empty(),
            ErrorKindView::OutOfMemory => Seq::empty(),
        }
    }

    /// The one-line message that describes an error of this kind.
    pub open spec fn message(self) -> Seq<char> {
        match self {
            ErrorKindView::LexerError(reason) => "Parse error: "@ + reason,
            ErrorKindView::ParseError(reason) => "Parse error: "@ + reason,
            ErrorKindView::EvalError(reason) => "Evaluation error: "@ + reason,
            ErrorKindView::OutOfMemory => "Out of memory!"@,
            ErrorKindView::BadAllocationRequest =>
                "An invalid memory size allocation was requested!"@,
        }
    }
}

/// A runtime error: its kind and, where known, the source position it arose at.
#[derive(Debug, PartialEq)]
pub struct RuntimeError {
    kind: ErrorKind,
    pos: Option<SourcePos>,
}

/// A runtime error as contracts speak of it.
pub struct RuntimeErrorView {
    pub kind: ErrorKindView,
    pub pos: Option<SourcePos>,
}

impl View for RuntimeError {
    type V = RuntimeErrorView;

    closed spec fn view(&self) -> RuntimeErrorView {
        RuntimeErrorView { kind: self.kind@, pos: self.pos }
    }
}

/// An evaluation error with the given reason and no position.
pub open spec fn eval_error(reason: Seq<char>) -> RuntimeErrorView {
    RuntimeErrorView { kind: ErrorKindView::EvalError(reason), pos: None }
}

/// The error that an allocation failure becomes.
pub open spec fn alloc_error(e: AllocError) -> RuntimeErrorView {
    match e {
        AllocError::OutOfMemory => RuntimeErrorView { kind: ErrorKindView::OutOfMemory, pos: None },
        AllocError::BadRequest => RuntimeErrorView {
            kind: ErrorKindView::BadAllocationRequest,
            pos: None,
        },
    }
}

impl RuntimeError {
    /// An error of the given kind without a position.
    pub fn new(kind: ErrorKind) -> (e: RuntimeError)
        ensures
            e@ == (RuntimeErrorView { kind: kind@, pos: None }),
    {
        RuntimeError { kind: kind, pos: None }
    }

    /// An error of the given kind at a position.
    pub fn with_pos(kind: ErrorKind, pos: SourcePos) -> (e: RuntimeError)
        ensures
            e@ == (RuntimeErrorView { kind: kind@, pos: Some(pos) }),
    {
        RuntimeError { kind: kind, pos: Some(pos) }
    }

    /// The position that the error arose at, where one is known.
    pub fn error_pos(&self) -> (pos: Option<SourcePos>)
        ensures
            pos == self@.pos,
    {
        self.pos
    }

    /// The kind of the error.
    pub fn error_kind(&self) -> (kind: &ErrorKind)
        ensures
            kind@ == self@.kind,
    {
        &self.kind
    }

    /// The reason in words, empty for the two allocation kinds.
    pub fn description(&self) -> (reason: &str)
        ensures
            reason@ == self@.kind.reason(),
    {
        match &self.kind {
            ErrorKind::LexerError(reason) => reason.as_str(),
            ErrorKind::ParseError(reason) => reason.as_str(),
            ErrorKind::EvalError(reason) => reason.as_str(),
            _ => {
                proof {
                    reveal_strlit("");
                }
                assert(""@ =~= Seq::<char>::empty());
                ""
            },
        }
    }

    /// The one-line message that describes the error.
    pub fn message(&self) -> (text: String)
        ensures
            text@ == self@.kind.message(),
    {
        match &self.kind {
            ErrorKind::LexerError(reason) => "Parse error: ".to_owned().concat(reason.as_str()),
            ErrorKind::ParseError(reason) => "Parse error: ".to_owned().concat(reason.as_str()),
            ErrorKind::EvalError(reason) => "Evaluation error: ".to_owned().concat(
                reason.as_str(),
            ),
            ErrorKind::OutOfMemory => "Out of memory!".to_owned(),
            ErrorKind::BadAllocationRequest =>
                "An invalid memory size allocation was requested!".to_owned(),
        }
    }
}

/// The lines of a text, without their line endings, as `str::lines` of the
/// standard library gives them.
pub uninterp spec fn text_lines(source: Seq<char>) -> Seq<Seq<char>>;

/// The decimal digit for a number below ten.
pub open spec fn digit(number: nat) -> char {
    if number == 0 {
        '0'
    } else if number == 1 {
        '1'
    } else if number == 2 {
        '2'
    } else if number == 3 {
        '3'
    } else if number == 4 {
        '4'
    } else if number == 5 {
        '5'
    } else if number == 6 {
        '6'
    } else if number == 7 {
        '7'
    } else if number == 8 {
        '8'
    } else {
        '9'
    }
}

/// A number in decimal, without leading zeros.
pub open spec fn decimal(number: nat) -> Seq<char>
    decreases number,
{
    if number < 10 {
        seq![digit(number)]
    } else {
        decimal(number / 10).push(digit(number % 10))
    }
}

/// A number in decimal, with spaces before it up to a width of five; a
/// number of more than five digits stands as it is.
pub open spec fn padded_number(number: u32) -> Seq<char> {
    let digits = decimal(number as nat);
    if digits.len() >= 5 {
        digits
    } else {
        spaces((5 - digits.len()) as nat) + digits
    }
}

/// `count` spaces.
pub open spec fn spaces(count: nat) -> Seq<char> {
    Seq::new(count, |i: int| ' ')
}

/// The characters of each of the strings.
pub open spec fn texts(lines: Seq<String>) -> Seq<Seq<char>> {
    Seq::new(lines.len(), |i: int| lines[i]@)
}

/// What is shown of an error: without a position, the message alone. With
/// one, the message, the line of the source that the position names, under
/// its line number `number`, a caret in the position's column, and an empty
/// margin; and nothing at all where the source has no such line. Lines
/// count from one.
pub open spec fn context(
    message: Seq<char>,
    pos: Option<SourcePos>,
    lines: Seq<Seq<char>>,
    number: Seq<char>,
) -> Seq<Seq<char>> {
    match pos {
        None => seq!["error: "@ + message],
        Some(pos) => if 1 <= pos.line <= lines.len() {
            seq![
                "error: "@ + message,
                number + "|"@ + lines[pos.line - 1],
                spaces(5) + "|"@ + spaces(
                    if pos.column == 0 {
                        1nat
                    } else {
                        pos.column as nat
                    },
                ) + "^"@,
                spaces(5) + "|"@,
            ]
        } else {
            Seq::empty()
        },
    }
}

/// Calls `str::lines` of the standard library and copies each line into a
/// string of its own, in their order. That these are the lines of `source`
/// is taken from the standard library, not proved here.
#[verifier::external_body]
fn lines_of(source: &str) -> (lines: Vec<String>)
    ensures
        texts(lines@) == text_lines(source@),
{
    source.lines().map(String::from).collect()
}

/// Calls the standard library's formatting with `{:5}`, which gives an
/// integer in decimal and, where that is shorter than five characters, puts
/// spaces before it up to that width. That this is what comes back is
/// taken from the standard library, not proved here.
#[verifier::external_body]
fn pad_number(number: u32) -> (text: String)
    ensures
        text@ == padded_number(number),
{
    format!("{:5}", number)
}

/// A string of `count` spaces.
fn blank(count: u32) -> (text: String)
    ensures
        text@ == spaces(count as nat),
{
    let mut text = String::new();
    let mut done: u32 = 0;
    while done < count
        invariant
            done <= count,
            text@ == spaces(done as nat),
        decreases count - done,
    {
        proof {
            reveal_strlit(" ");
        }
        text.append(" ");
        done += 1;
        assert(text@ =~= spaces(done as nat));
    }
    text
}

impl RuntimeError {
    /// What is shown of the error, given the lines of the source and the
    /// error's line number as it is to be printed.
    pub fn context_lines(&self, lines: &Vec<String>, number: &str) -> (shown: Vec<String>)
        ensures
            texts(shown@) == context(self@.kind.message(), self@.pos, texts(lines@), number@),
    {
        let mut shown: Vec<String> = Vec::new();
        match self.pos {
            None => {
                shown.push("error: ".to_owned().concat(self.message().as_str()));
                assert(texts(shown@) =~= seq!["error: "@ + self@.kind.message()]);
            },
            Some(pos) => {
                if 1 <= pos.line && (pos.line as usize) <= lines.len() {
                    let line = lines[(pos.line - 1) as usize].as_str();
                    let width = if pos.column == 0 {
                        1
                    } else {
                        pos.column
                    };
                    shown.push("error: ".to_owned().concat(self.message().as_str()));
                    shown.push(number.to_owned().concat("|").concat(line));
                    shown.push(
                        blank(5).concat("|").concat(blank(width).as_str()).concat("^"),
                    );
                    shown.push(blank(5).concat("|"));
                    assert(texts(shown@) =~= context(
                        self@.kind.message(),
                        self@.pos,
                        texts(lines@),
                        number@,
                    ));
                } else {
                    assert(texts(shown@) =~= Seq::<Seq<char>>::empty());
                }
            },
        }
        shown
    }

    /// What is shown of the error in the context of the source text that it
    /// arose in.
    pub fn source_context(&self, source: &str) -> (shown: Vec<String>)
        ensures
            texts(shown@) == context(
                self@.kind.message(),
                self@.pos,
                text_lines(source@),
                match self@.pos {
                    Some(pos) => padded_number(pos.line),
                    None => Seq::empty(),
                },
            ),
    {
        match self.pos {
            None => {
                let lines: Vec<String> = Vec::new();
                proof {
                    reveal_strlit("");
                }
                let shown = self.context_lines(&lines, "");
                shown
            },
            Some(pos) => {
                let lines = lines_of(source);
                let number = pad_number(pos.line);
                self.context_lines(&lines, number.as_str())
            },
        }
    }
}

impl From<AllocError> for RuntimeError {
    /// `OutOfMemory` for a full arena, `BadAllocationRequest` for a size
    /// that cannot be represented; neither has a position.
    fn from(other: AllocError) -> (e: RuntimeError)
        ensures
            e@ == alloc_error(other),
    {
        match other {
            AllocError::OutOfMemory => RuntimeError::new(ErrorKind::OutOfMemory),
            AllocError::BadRequest => RuntimeError::new(ErrorKind::BadAllocationRequest),
        }
    }
}

impl vstd::std_specs::convert::FromSpecImpl<AllocError> for RuntimeError {
    open spec fn obeys_from_spec() -> bool {
        true
    }

    open spec fn from_spec(other: AllocError) -> RuntimeError {
        choose|e: RuntimeError| e@ == alloc_error(other)
    }
}

/// Builds a source position.
pub fn spos(line: u32, column: u32) -> (pos: SourcePos)
    ensures
        pos == (SourcePos { line, column }),
{
    SourcePos::new(line, column)
}

/// Builds a lexer error at a position.
pub fn err_lexer(pos: SourcePos, reason: &str) -> (e: RuntimeError)
    ensures
        e@ == (RuntimeErrorView { kind: ErrorKindView::LexerError(reason@), pos: Some(pos) }),
{
    RuntimeError::with_pos(ErrorKind::LexerError(reason.to_owned()), pos)
}

/// Builds a parser error without a position.
pub fn err_parser(reason: &str) -> (e: RuntimeError)
    ensures
        e@ == (RuntimeErrorView { kind: ErrorKindView::ParseError(reason@), pos: None }),
{
    RuntimeError::new(ErrorKind::ParseError(reason.to_owned()))
}

/// Builds a parser error at a position.
pub fn err_parser_wpos(pos: SourcePos, reason: &str) -> (e: RuntimeError)
    ensures
        e@ == (RuntimeErrorView { kind: ErrorKindView::ParseError(reason@), pos: Some(pos) }),
{
    RuntimeError::with_pos(ErrorKind::ParseError(reason.to_owned()), pos)
}

/// Builds an evaluation error without a position.
pub fn err_eval(reason: &str) -> (e: RuntimeError)
    ensures
        e@ == eval_error(reason@),
{
    RuntimeError::new(ErrorKind::EvalError(reason.to_owned()))
}

} // verus!
