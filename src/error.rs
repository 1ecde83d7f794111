use vstd::prelude::*;

verus! {

/// The construct that a parser expected at the place where it failed.
#[derive(Debug, Clone, Copy, PartialEq, Eq, Structural)]
pub enum Expected {
    /// A meta-identifier, at the start of a syntax-rule.
    MetaIdentifier,
    /// The defining-symbol `=`.
    Defining,
    /// A terminator-symbol, `;` or `.`.
    Terminator,
    /// A syntactic-primary.
    Primary,
    /// The closing `?` of a special-sequence.
    SpecialSequenceEnd,
    /// A quote that opens a terminal-string.
    TerminalString,
    /// The `?` that opens a special-sequence.
    SpecialSequence,
    /// The first digit of a repetition count.
    RepetitionCount,
}

/// The kind of bracketed sequence.
#[derive(Debug, Clone, Copy, PartialEq, Eq, Structural)]
pub enum BracketKind {
    /// `( ... )`.
    Group,
    /// `[ ... ]` or `(/ ... /)`.
    Option,
    /// `{ ... }` or `(: ... :)`.
    Repeat,
}

/// What went wrong in a failed parse.
#[derive(Debug, Clone, Copy, PartialEq, Eq, Structural)]
pub enum ErrorKind {
    /// A `(*` whose comment is not closed before the end of the input.
    UnterminatedComment,
    /// A quote whose terminal-string is not closed before the end of the input.
    UnterminatedTerminalString,
    /// A terminal-string with nothing between its quotes.
    EmptyTerminalString,
    /// Digits that do not form a repetition count: too large, or not followed by `*`.
    InvalidRepetitionCount,
    /// A definition-list with no text at all before its end.
    EmptyDefinitionList,
    /// Something other than the expected construct.
    UnexpectedSymbol(Expected),
    /// A bracketed sequence whose closing symbol is missing.
    UnmatchedBracket(BracketKind),
    /// Significant text after the last syntax-rule.
    TrailingInput,
    /// Brackets nested deeper than the parser allows.
    NestingTooDeep,
}

/// A failed parse: what went wrong, and at which character of the input.
#[derive(Debug, Clone, Copy, PartialEq, Eq, Structural)]
pub struct ParseError {
    pub kind: ErrorKind,
    /// Where the failure was found: a byte offset in the text given to
    /// `parse_ebnf`, a character index in the `Input` of the other parsers.
    pub offset: usize,
}

/// The description of the rule that an error of kind `k` broke.
pub open spec fn description_of(k: ErrorKind) -> Seq<char> {
    match k {
        ErrorKind::UnterminatedComment => "unterminated comment"@,
        ErrorKind::UnterminatedTerminalString => "unterminated terminal-string"@,
        ErrorKind::EmptyTerminalString => "empty terminal-string"@,
        ErrorKind::InvalidRepetitionCount => "invalid repetition count"@,
        ErrorKind::EmptyDefinitionList => "empty definition list"@,
        ErrorKind::UnexpectedSymbol(Expected::MetaIdentifier) => "expected a meta-identifier"@,
        ErrorKind::UnexpectedSymbol(Expected::Defining) => "expected `=`"@,
        ErrorKind::UnexpectedSymbol(Expected::Terminator) => "expected one of `;`, `.`"@,
        ErrorKind::UnexpectedSymbol(Expected::Primary) => "expected a syntactic-primary"@,
        ErrorKind::UnexpectedSymbol(Expected::SpecialSequenceEnd) => "expected a closing `?`"@,
        ErrorKind::UnexpectedSymbol(Expected::TerminalString) => "expected a terminal-string"@,
        ErrorKind::UnexpectedSymbol(Expected::SpecialSequence) => "expected a special-sequence"@,
        ErrorKind::UnexpectedSymbol(Expected::RepetitionCount) => "expected a repetition count"@,
        ErrorKind::UnmatchedBracket(BracketKind::Group) => "expected `)`"@,
        ErrorKind::UnmatchedBracket(BracketKind::Option) => "expected one of `]`, `/)`"@,
        ErrorKind::UnmatchedBracket(BracketKind::Repeat) => "expected one of `}`, `:)`"@,
        ErrorKind::TrailingInput => "unexpected text after the last rule"@,
        ErrorKind::NestingTooDeep => "brackets nested too deeply"@,
    }
}

impl ErrorKind {
    /// A short description of the rule that was broken.
    pub fn description(&self) -> (r: &'static str)
        ensures
            r@ == description_of(*self),
            r@.len() > 0,
    {
        let r = match self {
            ErrorKind::UnterminatedComment => "unterminated comment",
            ErrorKind::UnterminatedTerminalString => "unterminated terminal-string",
            ErrorKind::EmptyTerminalString => "empty terminal-string",
            ErrorKind::InvalidRepetitionCount => "invalid repetition count",
            ErrorKind::EmptyDefinitionList => "empty definition list",
            ErrorKind::UnexpectedSymbol(Expected::MetaIdentifier) => "expected a meta-identifier",
            ErrorKind::UnexpectedSymbol(Expected::Defining) => "expected `=`",
            ErrorKind::UnexpectedSymbol(Expected::Terminator) => "expected one of `;`, `.`",
            ErrorKind::UnexpectedSymbol(Expected::Primary) => "expected a syntactic-primary",
            ErrorKind::UnexpectedSymbol(Expected::SpecialSequenceEnd) => "expected a closing `?`",
            ErrorKind::UnexpectedSymbol(Expected::TerminalString) => "expected a terminal-string",
            ErrorKind::UnexpectedSymbol(Expected::SpecialSequence) => "expected a special-sequence",
            ErrorKind::UnexpectedSymbol(Expected::RepetitionCount) => "expected a repetition count",
            ErrorKind::UnmatchedBracket(BracketKind::Group) => "expected `)`",
            ErrorKind::UnmatchedBracket(BracketKind::Option) => "expected one of `]`, `/)`",
            ErrorKind::UnmatchedBracket(BracketKind::Repeat) => "expected one of `}`, `:)`",
            ErrorKind::TrailingInput => "unexpected text after the last rule",
            ErrorKind::NestingTooDeep => "brackets nested too deeply",
        };
        proof {
            reveal_strlit("unterminated comment");
            reveal_strlit("unterminated terminal-string");
            reveal_strlit("empty terminal-string");
            reveal_strlit("invalid repetition count");
            reveal_strlit("empty definition list");
            reveal_strlit("expected a meta-identifier");
            reveal_strlit("expected `=`");
            reveal_strlit("expected one of `;`, `.`");
            reveal_strlit("expected a syntactic-primary");
            reveal_strlit("expected a closing `?`");
            reveal_strlit("expected a terminal-string");
            reveal_strlit("expected a special-sequence");
            reveal_strlit("expected a repetition count");
            reveal_strlit("expected `)`");
            reveal_strlit("expected one of `]`, `/)`");
            reveal_strlit("expected one of `}`, `:)`");
            reveal_strlit("unexpected text after the last rule");
            reveal_strlit("brackets nested too deeply");
        }
        r
    }
}

impl ParseError {
    pub fn new(kind: ErrorKind, offset: usize) -> (r: ParseError)
        ensures
            r.kind == kind,
            r.offset == offset,
    {
        ParseError { kind, offset }
    }
}

} // verus!
