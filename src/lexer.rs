use vstd::prelude::*;
use crate::error::{BracketKind, ErrorKind, ParseError};
use crate::symbols::Symbol as OperatorSymbol;

verus! {

/// Whether `c` is a gap-separator: space, horizontal tab, carriage return,
/// new-line or vertical tab.
pub open spec fn gap_separator(c: char) -> bool {
    c == ' ' || c == '\t' || c == '\r' || c == '\n' || c == '\u{000B}'
}

/// Checks whether `chr` is a gap-separator.
pub fn is_gap_separator(chr: char) -> (r: bool)
    ensures
        r == gap_separator(chr),
{
    chr == ' ' || chr == '\n' || chr == '\r' || chr == '\t' || chr == '\u{000B}'
}

/// Whether `s` holds `a` at `i` and `b` right after it.
pub open spec fn pair_at(s: Seq<char>, i: int, a: char, b: char) -> bool {
    0 <= i && i + 1 < s.len() && s[i] == a && s[i + 1] == b
}

/// The first position from `i` on that holds no gap-separator.
pub open spec fn gaps_end(s: Seq<char>, i: int) -> int
    decreases s.len() - i,
{
    if 0 <= i < s.len() && gap_separator(s[i]) {
        gaps_end(s, i + 1)
    } else {
        i
    }
}

/// Scanning inside a comment at `i`, with `depth` comments open: the position
/// right after the `*)` that closes the outermost one, or `None` where the input
/// ends first.
pub open spec fn comment_close(s: Seq<char>, i: int, depth: nat) -> Option<int>
    decreases s.len() - i,
{
    if i < 0 || i >= s.len() {
        None
    } else if pair_at(s, i, '(', '*') {
        comment_close(s, i + 2, depth + 1)
    } else if pair_at(s, i, '*', ')') {
        if depth <= 1 {
            Some(i + 2)
        } else {
            comment_close(s, i + 2, (depth - 1) as nat)
        }
    } else {
        comment_close(s, i + 1, depth)
    }
}

/// The first position from `i` on past all gap-separators and comments, or, as
/// `Err`, the position of a comment that is never closed.
pub open spec fn insignificant_end(s: Seq<char>, i: int) -> Result<int, int>
    decreases s.len() - i,
{
    let g = gaps_end(s, i);
    if pair_at(s, g, '(', '*') {
        match comment_close(s, g + 2, 1) {
            Some(e) => if i < e <= s.len() {
                insignificant_end(s, e)
            } else {
                Err(g)
            },
            None => Err(g),
        }
    } else {
        Ok(g)
    }
}

/// Skipping gaps stays within the text and stops at a non-gap.
pub proof fn lemma_gaps_end_bounds(s: Seq<char>, i: int)
    requires
        0 <= i <= s.len(),
    ensures
        i <= gaps_end(s, i) <= s.len(),
        gaps_end(s, i) < s.len() ==> !gap_separator(s[gaps_end(s, i)]),
    decreases s.len() - i,
{
    if i < s.len() && gap_separator(s[i]) {
        lemma_gaps_end_bounds(s, i + 1);
    }
}

/// A comment that closes ends after where its scan started.
pub proof fn lemma_comment_close_bounds(s: Seq<char>, i: int, depth: nat)
    requires
        0 <= i,
    ensures
        comment_close(s, i, depth) matches Some(e) ==> i < e <= s.len(),
    decreases s.len() - i,
{
    if i < s.len() {
        if pair_at(s, i, '(', '*') {
            lemma_comment_close_bounds(s, i + 2, depth + 1);
        } else if pair_at(s, i, '*', ')') {
            if depth > 1 {
                lemma_comment_close_bounds(s, i + 2, (depth - 1) as nat);
            }
        } else {
            lemma_comment_close_bounds(s, i + 1, depth);
        }
    }
}

/// Skipping insignificant text stays within the text, and stops neither on a
/// gap nor on the start of a comment.
pub proof fn lemma_insignificant_end_bounds(s: Seq<char>, i: int)
    requires
        0 <= i <= s.len(),
    ensures
        insignificant_end(s, i) matches Ok(e) ==> i <= e <= s.len() && (e < s.len()
            ==> !gap_separator(s[e])) && !pair_at(s, e, '(', '*'),
        insignificant_end(s, i) matches Err(e) ==> i <= e < s.len(),
    decreases s.len() - i,
{
    let g = gaps_end(s, i);
    lemma_gaps_end_bounds(s, i);
    if pair_at(s, g, '(', '*') {
        lemma_comment_close_bounds(s, g + 2, 1);
        if let Some(e) = comment_close(s, g + 2, 1) {
            lemma_insignificant_end_bounds(s, e);
        }
    }
}

/// Skips gap-separators from `i` on: the first position that holds none.
pub fn parse_gap_separator(s: &Vec<char>, i: usize) -> (r: usize)
    requires
        i <= s.len(),
    ensures
        r == gaps_end(s@, i as int),
{
    let mut j = i;
    while j < s.len() && is_gap_separator(s[j])
        invariant
            i <= j <= s.len(),
            gaps_end(s@, j as int) == gaps_end(s@, i as int),
        decreases s.len() - j,
    {
        j = j + 1;
    }
    j
}

/// Skips the comment that starts at `i`, nested comments included: the position
/// right after it, or an `UnterminatedComment` error at `i`.
pub fn skip_comment(s: &Vec<char>, i: usize) -> (r: Result<usize, ParseError>)
    requires
        pair_at(s@, i as int, '(', '*'),
    ensures
        r matches Ok(e) ==> comment_close(s@, i + 2, 1) == Some(e as int),
        r matches Err(err) ==> comment_close(s@, i + 2, 1) is None && err.offset == i
            && err.kind == ErrorKind::UnterminatedComment,
{
    let n = s.len();
    assert(i + 1 < n);
    let mut j = i + 2;
    let mut depth: usize = 1;
    while j < s.len()
        invariant
            i + 2 <= j <= s.len(),
            1 <= depth <= j,
            comment_close(s@, j as int, depth as nat) == comment_close(s@, i + 2, 1),
        decreases s.len() - j,
    {
        if j + 1 < s.len() && s[j] == '(' && s[j + 1] == '*' {
            depth = depth + 1;
            j = j + 2;
        } else if j + 1 < s.len() && s[j] == '*' && s[j + 1] == ')' {
            if depth <= 1 {
                return Ok(j + 2);
            }
            depth = depth - 1;
            j = j + 2;
        } else {
            j = j + 1;
        }
    }
    Err(ParseError::new(ErrorKind::UnterminatedComment, i))
}

/// Skips gap-separators and comments from `i` on: the first position of
/// significant text (or the end), or an `UnterminatedComment` error.
pub fn skip_insignificant(s: &Vec<char>, i: usize) -> (r: Result<usize, ParseError>)
    requires
        i <= s.len(),
    ensures
        r matches Ok(e) ==> insignificant_end(s@, i as int) == Ok::<int, int>(e as int),
        r matches Err(err) ==> insignificant_end(s@, i as int) == Err::<int, int>(err.offset as int)
            && err.kind == ErrorKind::UnterminatedComment,
{
    let mut j = i;
    loop
        invariant
            i <= j <= s.len(),
            insignificant_end(s@, j as int) == insignificant_end(s@, i as int),
        decreases s.len() - j,
    {
        let g = parse_gap_separator(s, j);
        proof {
            lemma_gaps_end_bounds(s@, j as int);
        }
        if g < s.len() && s[g] == '(' && g + 1 < s.len() && s[g + 1] == '*' {
            let e = skip_comment(s, g)?;
            proof {
                lemma_comment_close_bounds(s@, g + 2, 1);
            }
            j = e;
        } else {
            return Ok(g);
        }
    }
}

/// The opening symbol of a bracketed sequence, whatever its spelling.
#[derive(Debug, Clone, Copy, PartialEq, Eq, Structural)]
pub enum BracketStart {
    Group,
    Option,
    Repeat,
}

/// The closing symbol of a bracketed sequence, whatever its spelling.
#[derive(Debug, Clone, Copy, PartialEq, Eq, Structural)]
pub enum BracketEnd {
    Group,
    Option,
    Repeat,
}

/// An operator of Extended BNF.
pub type Operator = OperatorSymbol;

/// A symbol of Extended BNF, with its spelling already resolved.
#[derive(Debug, Clone, Copy, PartialEq, Eq, Structural)]
pub enum Symbol {
    Operator(Operator),
    BracketStart(BracketStart),
    BracketEnd(BracketEnd),
}

/// The kind of sequence that an opening bracket starts.
pub open spec fn start_kind(b: BracketStart) -> BracketKind {
    match b {
        BracketStart::Group => BracketKind::Group,
        BracketStart::Option => BracketKind::Option,
        BracketStart::Repeat => BracketKind::Repeat,
    }
}

/// The kind of sequence that a closing bracket ends.
pub open spec fn end_kind(b: BracketEnd) -> BracketKind {
    match b {
        BracketEnd::Group => BracketKind::Group,
        BracketEnd::Option => BracketKind::Option,
        BracketEnd::Repeat => BracketKind::Repeat,
    }
}

/// The symbol spelled at `i`, with the number of characters of its spelling.
/// Two-character spellings are tried first; `(*` starts a comment and is no symbol.
pub open spec fn symbol_spec(s: Seq<char>, i: int) -> Option<(Symbol, int)> {
    if !(0 <= i < s.len()) {
        None
    } else if pair_at(s, i, '(', '*') {
        None
    } else if pair_at(s, i, '(', '/') {
        Some((Symbol::BracketStart(BracketStart::Option), 2))
    } else if pair_at(s, i, '(', ':') {
        Some((Symbol::BracketStart(BracketStart::Repeat), 2))
    } else if pair_at(s, i, '/', ')') {
        Some((Symbol::BracketEnd(BracketEnd::Option), 2))
    } else if pair_at(s, i, ':', ')') {
        Some((Symbol::BracketEnd(BracketEnd::Repeat), 2))
    } else {
        let c = s[i];
        if c == '(' {
            Some((Symbol::BracketStart(BracketStart::Group), 1))
        } else if c == '[' {
            Some((Symbol::BracketStart(BracketStart::Option), 1))
        } else if c == '{' {
            Some((Symbol::BracketStart(BracketStart::Repeat), 1))
        } else if c == ')' {
            Some((Symbol::BracketEnd(BracketEnd::Group), 1))
        } else if c == ']' {
            Some((Symbol::BracketEnd(BracketEnd::Option), 1))
        } else if c == '}' {
            Some((Symbol::BracketEnd(BracketEnd::Repeat), 1))
        } else if c == '|' || c == '/' || c == '!' {
            Some((Symbol::Operator(Operator::DefinitionSeparator), 1))
        } else if c == ';' || c == '.' {
            Some((Symbol::Operator(Operator::Terminator), 1))
        } else if c == ',' {
            Some((Symbol::Operator(Operator::Concatenate), 1))
        } else if c == '-' {
            Some((Symbol::Operator(Operator::Except), 1))
        } else if c == '*' {
            Some((Symbol::Operator(Operator::Repetition), 1))
        } else if c == '=' {
            Some((Symbol::Operator(Operator::Defining), 1))
        } else {
            None
        }
    }
}

/// Reads the symbol spelled at `i`, if any, with the length of its spelling.
pub fn symbol_at(s: &Vec<char>, i: usize) -> (r: Option<(Symbol, usize)>)
    ensures
        r matches Some(p) ==> symbol_spec(s@, i as int) == Some((p.0, p.1 as int)),
        r is None ==> symbol_spec(s@, i as int) is None,
        r matches Some(p) ==> 1 <= p.1 <= 2 && i + p.1 <= s@.len(),
{
    if i >= s.len() {
        return None;
    }
    let c = s[i];
    let two = i + 1 < s.len();
    if two && c == '(' && s[i + 1] == '*' {
        None
    } else if two && c == '(' && s[i + 1] == '/' {
        Some((Symbol::BracketStart(BracketStart::Option), 2))
    } else if two && c == '(' && s[i + 1] == ':' {
        Some((Symbol::BracketStart(BracketStart::Repeat), 2))
    } else if two && c == '/' && s[i + 1] == ')' {
        Some((Symbol::BracketEnd(BracketEnd::Option), 2))
    } else if two && c == ':' && s[i + 1] == ')' {
        Some((Symbol::BracketEnd(BracketEnd::Repeat), 2))
    } else if c == '(' {
        Some((Symbol::BracketStart(BracketStart::Group), 1))
    } else if c == '[' {
        Some((Symbol::BracketStart(BracketStart::Option), 1))
    } else if c == '{' {
        Some((Symbol::BracketStart(BracketStart::Repeat), 1))
    } else if c == ')' {
        Some((Symbol::BracketEnd(BracketEnd::Group), 1))
    } else if c == ']' {
        Some((Symbol::BracketEnd(BracketEnd::Option), 1))
    } else if c == '}' {
        Some((Symbol::BracketEnd(BracketEnd::Repeat), 1))
    } else if c == '|' || c == '/' || c == '!' {
        Some((Symbol::Operator(Operator::DefinitionSeparator), 1))
    } else if c == ';' || c == '.' {
        Some((Symbol::Operator(Operator::Terminator), 1))
    } else if c == ',' {
        Some((Symbol::Operator(Operator::Concatenate), 1))
    } else if c == '-' {
        Some((Symbol::Operator(Operator::Except), 1))
    } else if c == '*' {
        Some((Symbol::Operator(Operator::Repetition), 1))
    } else if c == '=' {
        Some((Symbol::Operator(Operator::Defining), 1))
    } else {
        None
    }
}

/// A token of Extended BNF text.
#[derive(Debug, Clone, Copy, PartialEq, Eq, Structural)]
pub enum Token {
    Symbol(Symbol),
}

/// The symbol that starts the significant text of `s`, if it starts with one.
pub open spec fn first_token(s: Seq<char>) -> Option<Token> {
    match insignificant_end(s, 0) {
        Ok(p) => match symbol_spec(s, p) {
            Some((sym, _)) => Some(Token::Symbol(sym)),
            None => None,
        },
        Err(_) => None,
    }
}

/// The characters of `s`, in order.
pub fn chars_of(s: &str) -> (r: Vec<char>)
    ensures
        r@ == s@,
{
    let mut out: Vec<char> = Vec::new();
    for c in it: s.chars()
        invariant
            out@ == it.seq().take(it.index() as int),
    {
        out.push(c);
    }
    out
}

/// Reads the first token of `input`, past gap-separators and comments. `None`
/// where the significant text starts with no symbol, or a comment is not closed.
pub fn lexical_analysis(input: &str) -> (r: Option<Token>)
    ensures
        r == first_token(input@),
{
    let s = chars_of(input);
    match skip_insignificant(&s, 0) {
        Ok(p) => match symbol_at(&s, p) {
            Some((sym, _)) => Some(Token::Symbol(sym)),
            None => None,
        },
        Err(_) => None,
    }
}

} // verus!
