use vstd::prelude::*;
use vstd::string::StrSliceExecFns;
use vstd::utf8::encode_utf8;
use crate::error::{BracketKind, ErrorKind, Expected, ParseError};
use crate::lexer::{
    chars_of, insignificant_end, lemma_insignificant_end_bounds,
    skip_insignificant, symbol_at, symbol_spec, BracketEnd, BracketStart, Operator, Symbol,
};
use crate::grammar::{
    alternatives_spec, definition_list_spec, factor_spec, prepend, primary_spec, rule_spec,
    rules_spec, single_definition_spec, syntax_spec, term_spec,
};
use crate::structure::{
    FactorTree, PrimaryTree, RuleTree, TermTree,
    is_digit, is_letter, valid_identifier, DefinitionList, MetaIdentifier, QuoteStyle,
    SingleDefinition, Syntax, SyntacticFactor, SyntacticPrimary, SyntacticTerm, SyntaxRule,
    TerminalString,
};

verus! {

/// Grammar text, held both as given and as its characters.
pub struct Input<'a> {
    pub text: &'a str,
    pub chars: Vec<char>,
}

impl<'a> Input<'a> {
    /// The characters are those of the text.
    pub open spec fn wf(&self) -> bool {
        self.chars@ == self.text@
    }

    pub fn new(text: &'a str) -> (r: Input<'a>)
        ensures
            r.wf(),
            r.text == text,
    {
        Input { text, chars: chars_of(text) }
    }

    /// The characters from `from` up to `to`, as a `String`.
    fn slice(&self, from: usize, to: usize) -> (r: String)
        requires
            self.wf(),
            from <= to <= self.chars@.len(),
        ensures
            r@ == self.chars@.subrange(from as int, to as int),
    {
        self.text.substring_char(from, to).to_owned()
    }
}

/// Checks whether `c` is an ASCII letter.
pub fn is_letter_char(c: char) -> (r: bool)
    ensures
        r == is_letter(c),
{
    ('a' <= c && c <= 'z') || ('A' <= c && c <= 'Z')
}

/// Checks whether `c` is a decimal digit.
pub fn is_digit_char(c: char) -> (r: bool)
    ensures
        r == is_digit(c),
{
    '0' <= c && c <= '9'
}

/// The first position from `i` on that holds no letter or digit.
pub open spec fn alnum_end(s: Seq<char>, i: int) -> int
    decreases s.len() - i,
{
    if 0 <= i < s.len() && (is_letter(s[i]) || is_digit(s[i])) {
        alnum_end(s, i + 1)
    } else {
        i
    }
}

/// The first position from `i` on that holds no decimal digit.
pub open spec fn digits_end(s: Seq<char>, i: int) -> int
    decreases s.len() - i,
{
    if 0 <= i < s.len() && is_digit(s[i]) {
        digits_end(s, i + 1)
    } else {
        i
    }
}

/// The number that the decimal digits from `i` up to `j` write.
pub open spec fn digits_value(s: Seq<char>, i: int, j: int) -> nat
    decreases j - i,
{
    if j <= i {
        0
    } else {
        digits_value(s, i, j - 1) * 10 + (s[j - 1] as u32 - '0' as u32) as nat
    }
}

/// Inside a terminal-string, from `i` on: the position of the quote `q` that
/// closes it, a backslash escaping the character after it; `None` where the
/// input ends first.
pub open spec fn quote_close(s: Seq<char>, i: int, q: char) -> Option<int>
    decreases s.len() - i,
{
    if i < 0 || i >= s.len() {
        None
    } else if s[i] == '\\' {
        if i + 1 < s.len() {
            quote_close(s, i + 2, q)
        } else {
            None
        }
    } else if s[i] == q {
        Some(i)
    } else {
        quote_close(s, i + 1, q)
    }
}

/// The first position from `i` on that holds `c`.
pub open spec fn char_close(s: Seq<char>, i: int, c: char) -> Option<int>
    decreases s.len() - i,
{
    if i < 0 || i >= s.len() {
        None
    } else if s[i] == c {
        Some(i)
    } else {
        char_close(s, i + 1, c)
    }
}

/// The error of kind `kind` at `offset`.
pub open spec fn error(kind: ErrorKind, offset: int) -> ParseError {
    ParseError { kind, offset: offset as usize }
}

/// A meta-identifier with insignificant text on both sides, from `i`: its name
/// and the position after the insignificant text that follows it.
pub open spec fn meta_identifier_spec(s: Seq<char>, i: int) -> Result<(Seq<char>, int), ParseError> {
    match insignificant_end(s, i) {
        Err(o) => Err(error(ErrorKind::UnterminatedComment, o)),
        Ok(p) => if p < s.len() && is_letter(s[p]) {
            match insignificant_end(s, alnum_end(s, p)) {
                Ok(q) => Ok((s.subrange(p, alnum_end(s, p)), q)),
                Err(o) => Err(error(ErrorKind::UnterminatedComment, o)),
            }
        } else {
            Err(error(ErrorKind::UnexpectedSymbol(Expected::MetaIdentifier), p))
        },
    }
}

/// A terminal-string whose opening quote stands at `p`: its content and the
/// position after its closing quote.
pub open spec fn terminal_string_spec(s: Seq<char>, p: int) -> Result<(Seq<char>, int), ParseError> {
    match quote_close(s, p + 1, s[p]) {
        None => Err(error(ErrorKind::UnterminatedTerminalString, p)),
        Some(c) => if c == p + 1 {
            Err(error(ErrorKind::EmptyTerminalString, p))
        } else {
            Ok((s.subrange(p + 1, c), c + 1))
        },
    }
}

/// A special-sequence whose opening `?` stands at `p`: its content and the
/// position after its closing `?`.
pub open spec fn special_sequence_spec(s: Seq<char>, p: int) -> Result<(Seq<char>, int), ParseError> {
    match char_close(s, p + 1, '?') {
        None => Err(error(ErrorKind::UnexpectedSymbol(Expected::SpecialSequenceEnd), s.len() as int)),
        Some(c) => Ok((s.subrange(p + 1, c), c + 1)),
    }
}

/// A repetition count whose first digit stands at `p`, with the `*` after it:
/// the count and the position after the `*`.
pub open spec fn repetition_count_spec(s: Seq<char>, p: int) -> Result<(nat, int), ParseError> {
    let d = digits_end(s, p);
    let v = digits_value(s, p, d);
    if v > u32::MAX {
        Err(error(ErrorKind::InvalidRepetitionCount, p))
    } else {
        match insignificant_end(s, d) {
            Err(o) => Err(error(ErrorKind::UnterminatedComment, o)),
            Ok(q) => if q < s.len() && s[q] == '*' {
                Ok((v, q + 1))
            } else {
                Err(error(ErrorKind::InvalidRepetitionCount, p))
            },
        }
    }
}

proof fn lemma_alnum_end_bounds(s: Seq<char>, i: int)
    requires
        0 <= i <= s.len(),
    ensures
        i <= alnum_end(s, i) <= s.len(),
        forall|k: int| i <= k < alnum_end(s, i) ==> is_letter(#[trigger] s[k]) || is_digit(s[k]),
    decreases s.len() - i,
{
    if i < s.len() && (is_letter(s[i]) || is_digit(s[i])) {
        lemma_alnum_end_bounds(s, i + 1);
    }
}

proof fn lemma_digits_end_bounds(s: Seq<char>, i: int)
    requires
        0 <= i <= s.len(),
    ensures
        i <= digits_end(s, i) <= s.len(),
    decreases s.len() - i,
{
    if i < s.len() && is_digit(s[i]) {
        lemma_digits_end_bounds(s, i + 1);
    }
}

proof fn lemma_digits_value_grows(s: Seq<char>, i: int, j: int, k: int)
    requires
        i <= j <= k,
    ensures
        digits_value(s, i, j) <= digits_value(s, i, k),
    decreases k - j,
{
    if j < k {
        lemma_digits_value_grows(s, i, j, k - 1);
    }
}

/// Parses a meta-identifier, skipping insignificant text before and after it.
#[verifier::loop_isolation(false)]
pub fn parse_meta_identifier(src: &Input, i: usize) -> (r: Result<(MetaIdentifier, usize), ParseError>)
    requires
        src.wf(),
        i <= src.chars@.len(),
    ensures
        r matches Ok((m, e)) ==> meta_identifier_spec(src.chars@, i as int) == Ok::<
            (Seq<char>, int),
            ParseError,
        >((m.name@, e as int)) && valid_identifier(m.name@) && i < e && e <= src.chars@.len(),
        r matches Err(err) ==> meta_identifier_spec(src.chars@, i as int) == Err::<
            (Seq<char>, int),
            ParseError,
        >(err) && err.offset <= src.chars@.len(),
{
    let s = &src.chars;
    proof {
        lemma_insignificant_end_bounds(s@, i as int);
    }
    let p = skip_insignificant(s, i)?;
    if p >= s.len() || !is_letter_char(s[p]) {
        return Err(ParseError::new(ErrorKind::UnexpectedSymbol(Expected::MetaIdentifier), p));
    }
    let mut j = p + 1;
    while j < s.len() && (is_letter_char(s[j]) || is_digit_char(s[j]))
        invariant
            p < j <= s.len(),
            alnum_end(s@, j as int) == alnum_end(s@, p as int),
            forall|k: int| p <= k < j ==> is_letter(#[trigger] s@[k]) || is_digit(s@[k]),
        decreases s.len() - j,
    {
        j = j + 1;
    }
    let name = src.slice(p, j);
    proof {
        lemma_alnum_end_bounds(s@, j as int);
        assert(alnum_end(s@, j as int) == j);
        assert(valid_identifier(name@)) by {
            assert forall|k: int| 1 <= k < name@.len() implies is_letter(#[trigger] name@[k])
                || is_digit(name@[k]) by {
                assert(name@[k] == s@[p + k]);
            }
        }
    }
    proof {
        lemma_insignificant_end_bounds(s@, j as int);
    }
    let q = skip_insignificant(s, j)?;
    Ok((MetaIdentifier { name }, q))
}

/// Parses the terminal-string whose opening quote stands at `p`. Nothing is
/// skipped inside it: its content is the text between the quotes as written.
#[verifier::loop_isolation(false)]
pub fn parse_terminal_string(src: &Input, p: usize) -> (r: Result<(TerminalString, usize), ParseError>)
    requires
        src.wf(),
        p <= src.chars@.len(),
    ensures
        !(p < src.chars@.len() && (src.chars@[p as int] == '"' || src.chars@[p as int] == '\''))
            ==> r == Err::<(TerminalString, usize), ParseError>(
            error(ErrorKind::UnexpectedSymbol(Expected::TerminalString), p as int),
        ),
        r matches Ok((t, e)) ==> terminal_string_spec(src.chars@, p as int) == Ok::<
            (Seq<char>, int),
            ParseError,
        >((t.content@, e as int)) && t.content@.len() > 0 && p < e <= src.chars@.len() && (
        t.quote == QuoteStyle::Double <==> src.chars@[p as int] == '"'),
        r matches Err(err) ==> err.offset <= src.chars@.len() && (p < src.chars@.len() && (src.chars@[p as int] == '"' || src.chars@[p as int] == '\'')
            ==> terminal_string_spec(src.chars@, p as int) == Err::<(Seq<char>, int), ParseError>(err)),
{
    let s = &src.chars;
    let n = s.len();
    if p >= n || (s[p] != '"' && s[p] != '\'') {
        return Err(ParseError::new(ErrorKind::UnexpectedSymbol(Expected::TerminalString), p));
    }
    let q = s[p];
    let mut j = p + 1;
    while j < n && s[j] != q
        invariant
            p < j <= n,
            n == s@.len(),
            q == s@[p as int],
            q == '"' || q == '\'',
            quote_close(s@, j as int, q) == quote_close(s@, p + 1, q),
        decreases n - j,
    {
        if s[j] == '\\' {
            if j + 1 >= n {
                return Err(ParseError::new(ErrorKind::UnterminatedTerminalString, p));
            }
            j = j + 2;
        } else {
            j = j + 1;
        }
    }
    if j >= n {
        assert(quote_close(s@, j as int, q) is None);
        return Err(ParseError::new(ErrorKind::UnterminatedTerminalString, p));
    }
    assert(quote_close(s@, j as int, q) == Some(j as int));
    if j == p + 1 {
        return Err(ParseError::new(ErrorKind::EmptyTerminalString, p));
    }
    let content = src.slice(p + 1, j);
    let quote = if q == '"' {
        QuoteStyle::Double
    } else {
        QuoteStyle::Single
    };
    Ok((TerminalString { content, quote }, j + 1))
}

/// Parses the special-sequence whose opening `?` stands at `p`; its content is
/// kept as written.
#[verifier::loop_isolation(false)]
pub fn parse_special_sequence(src: &Input, p: usize) -> (r: Result<(String, usize), ParseError>)
    requires
        src.wf(),
        p <= src.chars@.len(),
    ensures
        !(p < src.chars@.len() && src.chars@[p as int] == '?') ==> r == Err::<
            (String, usize),
            ParseError,
        >(error(ErrorKind::UnexpectedSymbol(Expected::SpecialSequence), p as int)),
        r matches Ok((t, e)) ==> special_sequence_spec(src.chars@, p as int) == Ok::<
            (Seq<char>, int),
            ParseError,
        >((t@, e as int)) && p < e <= src.chars@.len(),
        r matches Err(err) ==> err.offset <= src.chars@.len() && (p < src.chars@.len() && src.chars@[p as int] == '?'
            ==> special_sequence_spec(src.chars@, p as int) == Err::<(Seq<char>, int), ParseError>(err)),
{
    let s = &src.chars;
    let n = s.len();
    if p >= n || s[p] != '?' {
        return Err(ParseError::new(ErrorKind::UnexpectedSymbol(Expected::SpecialSequence), p));
    }
    let mut j = p + 1;
    while j < s.len() && s[j] != '?'
        invariant
            p < j <= s.len(),
            char_close(s@, j as int, '?') == char_close(s@, p + 1, '?'),
        decreases s.len() - j,
    {
        j = j + 1;
    }
    if j >= s.len() {
        return Err(ParseError::new(ErrorKind::UnexpectedSymbol(Expected::SpecialSequenceEnd), j));
    }
    let content = src.slice(p + 1, j);
    Ok((content, j + 1))
}

/// Parses the repetition count whose first digit stands at `p`, up to and
/// including the `*` that must follow it.
#[verifier::loop_isolation(false)]
pub fn parse_repetition_count(src: &Input, p: usize) -> (r: Result<(u32, usize), ParseError>)
    requires
        src.wf(),
        p <= src.chars@.len(),
    ensures
        !(p < src.chars@.len() && is_digit(src.chars@[p as int])) ==> r == Err::<
            (u32, usize),
            ParseError,
        >(error(ErrorKind::UnexpectedSymbol(Expected::RepetitionCount), p as int)),
        r matches Ok((n, e)) ==> repetition_count_spec(src.chars@, p as int) == Ok::<
            (nat, int),
            ParseError,
        >((n as nat, e as int)) && p < e <= src.chars@.len(),
        r matches Err(err) ==> err.offset <= src.chars@.len() && (p < src.chars@.len() && is_digit(src.chars@[p as int])
            ==> repetition_count_spec(src.chars@, p as int) == Err::<(nat, int), ParseError>(err)),
{
    let s = &src.chars;
    if p >= s.len() || !is_digit_char(s[p]) {
        return Err(ParseError::new(ErrorKind::UnexpectedSymbol(Expected::RepetitionCount), p));
    }
    let mut j = p;
    let mut v: u64 = 0;
    proof {
        lemma_digits_end_bounds(s@, p as int);
    }
    while j < s.len() && is_digit_char(s[j])
        invariant
            p <= j <= s.len(),
            digits_end(s@, j as int) == digits_end(s@, p as int),
            v == digits_value(s@, p as int, j as int),
            v <= u32::MAX,
        decreases s.len() - j,
    {
        let d = (s[j] as u32 - '0' as u32) as u64;
        v = v * 10 + d;
        j = j + 1;
        assert(digits_end(s@, j - 1) == digits_end(s@, j as int));
        assert(v == digits_value(s@, p as int, j as int));
        if v > u32::MAX as u64 {
            proof {
                lemma_digits_end_bounds(s@, j as int);
                lemma_digits_value_grows(s@, p as int, j as int, digits_end(s@, p as int));
                assert(digits_value(s@, p as int, digits_end(s@, p as int)) > u32::MAX);
            }
            return Err(ParseError::new(ErrorKind::InvalidRepetitionCount, p));
        }
    }
    proof {
        lemma_insignificant_end_bounds(s@, j as int);
    }
    let q = skip_insignificant(s, j)?;
    if q < s.len() && s[q] == '*' {
        Ok((v as u32, q + 1))
    } else {
        Err(ParseError::new(ErrorKind::InvalidRepetitionCount, p))
    }
}

/// How deep brackets may nest before a parse fails with `NestingTooDeep`.
pub const NESTING_LIMIT: usize = 64;

/// Whether the symbol at `p` ends a definition-list: a terminator or a closing bracket.
pub open spec fn ends_definition_list(s: Seq<char>, p: int) -> bool {
    p >= s.len() || match symbol_spec(s, p) {
        Some((Symbol::Operator(Operator::Terminator), _)) => true,
        Some((Symbol::BracketEnd(_), _)) => true,
        _ => false,
    }
}

/// Whether the symbol at `p` may follow an empty primary.
pub open spec fn follows_empty_primary(sym: Symbol) -> bool {
    match sym {
        Symbol::Operator(op) => op != Operator::Defining && op != Operator::Repetition,
        Symbol::BracketEnd(_) => true,
        Symbol::BracketStart(_) => false,
    }
}

/// Whether `sym` is a definition-separator-symbol.
pub open spec fn is_separator(sym: Option<(Symbol, int)>) -> bool {
    sym matches Some((Symbol::Operator(Operator::DefinitionSeparator), _))
}

/// `seps` are increasing positions from `lo` up to `hi`, each holding a
/// definition-separator-symbol.
pub open spec fn separators_at(s: Seq<char>, seps: Seq<int>, lo: int, hi: int) -> bool {
    &&& forall|k: int| 0 <= k < seps.len() ==> lo <= #[trigger] seps[k] < hi
    &&& forall|k: int|
        0 <= k < seps.len() ==> is_separator(#[trigger] symbol_spec(s, seps[k]))
    &&& forall|a: int, b: int| 0 <= a < b < seps.len() ==> seps[a] < seps[b]
}

/// `seps` are increasing positions from `lo` up to `hi`, each holding a `,`.
pub open spec fn commas_at(s: Seq<char>, seps: Seq<int>, lo: int, hi: int) -> bool {
    &&& forall|k: int| 0 <= k < seps.len() ==> lo <= #[trigger] seps[k] < hi
    &&& forall|k: int| 0 <= k < seps.len() ==> s[#[trigger] seps[k]] == ','
    &&& forall|a: int, b: int| 0 <= a < b < seps.len() ==> seps[a] < seps[b]
}

/// The kind of sequence that the opening bracket `b` starts.
fn bracket_kind(b: BracketStart) -> (r: BracketKind)
    ensures
        r == crate::lexer::start_kind(b),
{
    match b {
        BracketStart::Group => BracketKind::Group,
        BracketStart::Option => BracketKind::Option,
        BracketStart::Repeat => BracketKind::Repeat,
    }
}

/// Whether `e` closes a sequence opened by `b`, in any spelling of either.
fn closes(b: BracketStart, e: BracketEnd) -> (r: bool)
    ensures
        r == (crate::lexer::start_kind(b) == crate::lexer::end_kind(e)),
{
    match (b, e) {
        (BracketStart::Group, BracketEnd::Group) => true,
        (BracketStart::Option, BracketEnd::Option) => true,
        (BracketStart::Repeat, BracketEnd::Repeat) => true,
        _ => false,
    }
}

/// Parses a syntactic-primary after any insignificant text from `i`. A bracket
/// opens a definition-list, which may nest `depth` more levels.
pub fn parse_primary(src: &Input, i: usize, depth: usize) -> (r: Result<
    (SyntacticPrimary, usize),
    ParseError,
>)
    requires
        src.wf(),
        i <= src.chars@.len(),
    ensures
        r matches Ok((p, e)) ==> i <= e <= src.chars@.len() && p.wf(),
        r matches Err(err) ==> err.offset <= src.chars@.len() && err.kind
            != ErrorKind::TrailingInput,
        match r {
            Ok((p, e)) => primary_spec(src.chars@, i as int, depth as nat) matches Ok((t, e2))
                && e2 == e && p.denotes(t),
            Err(err) => primary_spec(src.chars@, i as int, depth as nat) == Err::<
                (PrimaryTree, int),
                ParseError,
            >(err),
        },
    decreases depth, 0nat,
{
    let s = &src.chars;
    proof {
        lemma_insignificant_end_bounds(s@, i as int);
    }
    let p = skip_insignificant(s, i)?;
    if p >= s.len() {
        return Ok((SyntacticPrimary::EmptySequence, p));
    }
    let c = s[p];
    if c == '"' || c == '\'' {
        let (t, e) = parse_terminal_string(src, p)?;
        return Ok((SyntacticPrimary::TerminalString(t), e));
    }
    if c == '?' {
        let (t, e) = parse_special_sequence(src, p)?;
        return Ok((SyntacticPrimary::SpecialSequence(t), e));
    }
    if is_letter_char(c) {
        let (m, e) = parse_meta_identifier(src, p)?;
        return Ok((SyntacticPrimary::MetaIdentifier(m), e));
    }
    match symbol_at(s, p) {
        Some((Symbol::BracketStart(b), len)) => {
            if depth == 0 {
                return Err(ParseError::new(ErrorKind::NestingTooDeep, p));
            }
            let (dl, e, _) = parse_definition_lists(src, p + len, depth - 1)?;
            proof {
                lemma_insignificant_end_bounds(s@, e as int);
            }
            let q = skip_insignificant(s, e)?;
            match symbol_at(s, q) {
                Some((Symbol::BracketEnd(be), len2)) => {
                    if closes(b, be) {
                        let prim = match b {
                            BracketStart::Group => SyntacticPrimary::GroupedSequence(dl),
                            BracketStart::Option => SyntacticPrimary::OptionalSequence(dl),
                            BracketStart::Repeat => SyntacticPrimary::RepeatedSequence(dl),
                        };
                        Ok((prim, q + len2))
                    } else {
                        Err(ParseError::new(ErrorKind::UnmatchedBracket(bracket_kind(b)), q))
                    }
                },
                _ => Err(ParseError::new(ErrorKind::UnmatchedBracket(bracket_kind(b)), q)),
            }
        },
        Some((sym, _)) => {
            let empty = match sym {
                Symbol::Operator(op) => match op {
                    Operator::Defining => false,
                    Operator::Repetition => false,
                    _ => true,
                },
                Symbol::BracketEnd(_) => true,
                Symbol::BracketStart(_) => false,
            };
            if empty {
                Ok((SyntacticPrimary::EmptySequence, p))
            } else {
                Err(ParseError::new(ErrorKind::UnexpectedSymbol(Expected::Primary), p))
            }
        },
        None => Err(ParseError::new(ErrorKind::UnexpectedSymbol(Expected::Primary), p)),
    }
}

/// Parses a syntactic-factor: an optional repetition count and `*`, then a primary.
pub fn parse_factor(src: &Input, i: usize, depth: usize) -> (r: Result<
    (SyntacticFactor, usize),
    ParseError,
>)
    requires
        src.wf(),
        i <= src.chars@.len(),
    ensures
        r matches Ok((f, e)) ==> i <= e <= src.chars@.len() && f.wf(),
        r matches Err(err) ==> err.offset <= src.chars@.len() && err.kind
            != ErrorKind::TrailingInput,
        match r {
            Ok((f, e)) => factor_spec(src.chars@, i as int, depth as nat) matches Ok((t, e2))
                && e2 == e && f.denotes(t),
            Err(err) => factor_spec(src.chars@, i as int, depth as nat) == Err::<
                (FactorTree, int),
                ParseError,
            >(err),
        },
    decreases depth, 1nat,
{
    let s = &src.chars;
    proof {
        lemma_insignificant_end_bounds(s@, i as int);
    }
    let p = skip_insignificant(s, i)?;
    if p < s.len() && is_digit_char(s[p]) {
        let (count, q) = parse_repetition_count(src, p)?;
        let (primary, e) = parse_primary(src, q, depth)?;
        Ok((SyntacticFactor { count, primary }, e))
    } else {
        let (primary, e) = parse_primary(src, p, depth)?;
        Ok((SyntacticFactor { count: 1, primary }, e))
    }
}

/// Parses a syntactic-term: a factor, then, after an except-symbol `-`, an
/// optional exception factor.
pub fn parse_term(src: &Input, i: usize, depth: usize) -> (r: Result<
    (SyntacticTerm, usize),
    ParseError,
>)
    requires
        src.wf(),
        i <= src.chars@.len(),
    ensures
        r matches Ok((t, e)) ==> i <= e <= src.chars@.len() && t.wf(),
        r matches Err(err) ==> err.offset <= src.chars@.len() && err.kind
            != ErrorKind::TrailingInput,
        match r {
            Ok((t, e)) => term_spec(src.chars@, i as int, depth as nat) matches Ok((v, e2))
                && e2 == e && t.denotes(v),
            Err(err) => term_spec(src.chars@, i as int, depth as nat) == Err::<
                (TermTree, int),
                ParseError,
            >(err),
        },
    decreases depth, 2nat,
{
    let s = &src.chars;
    let (factor, e) = parse_factor(src, i, depth)?;
    proof {
        lemma_insignificant_end_bounds(s@, e as int);
    }
    let q = skip_insignificant(s, e)?;
    if q < s.len() && s[q] == '-' {
        let (x, e2) = parse_factor(src, q + 1, depth)?;
        Ok((SyntacticTerm { factor, exception: Some(x) }, e2))
    } else {
        Ok((SyntacticTerm { factor, exception: None }, q))
    }
}

/// Parses a single-definition: terms joined by the concatenate-symbol `,`.
/// The ghost result holds the positions of the `,` that were consumed: there is
/// one term more than there are of them.
#[verifier::rlimit(50)]
pub fn parse_single_definition(src: &Input, i: usize, depth: usize) -> (r: Result<
    (SingleDefinition, usize, Ghost<Seq<int>>),
    ParseError,
>)
    requires
        src.wf(),
        i <= src.chars@.len(),
    ensures
        r matches Ok((d, e, seps)) ==> i <= e <= src.chars@.len() && d.wf() && d.terms@.len()
            == seps@.len() + 1 && commas_at(src.chars@, seps@, i as int, e as int),
        r matches Err(err) ==> err.offset <= src.chars@.len() && err.kind
            != ErrorKind::TrailingInput,
        match r {
            Ok((d, e, _)) => single_definition_spec(src.chars@, i as int, depth as nat) matches Ok(
                (v, e2),
            ) && e2 == e && d.denotes(v),
            Err(err) => single_definition_spec(src.chars@, i as int, depth as nat) == Err::<
                (Seq<TermTree>, int),
                ParseError,
            >(err),
        },
    decreases depth, 3nat,
{
    let s = &src.chars;
    let mut terms: Vec<SyntacticTerm> = Vec::new();
    let ghost mut seps: Seq<int> = Seq::empty();
    let ghost mut acc: Seq<TermTree> = Seq::empty();
    let mut j = i;
    loop
        invariant
            src.wf(),
            s == &src.chars,
            i <= j <= s@.len(),
            terms@.len() == seps.len(),
            terms@.len() == acc.len(),
            forall|k: int| 0 <= k < terms@.len() ==> (#[trigger] terms@[k]).wf(),
            forall|k: int| 0 <= k < terms@.len() ==> (#[trigger] terms@[k]).denotes(acc[k]),
            commas_at(s@, seps, i as int, j as int),
            seps.len() > 0 ==> seps.last() < j,
            single_definition_spec(s@, i as int, depth as nat) == prepend(
                acc,
                single_definition_spec(s@, j as int, depth as nat),
            ),
        decreases s@.len() - j,
    {
        let (t, e) = parse_term(src, j, depth)?;
        let ghost tv = term_spec(s@, j as int, depth as nat)->Ok_0.0;
        terms.push(t);
        proof {
            lemma_insignificant_end_bounds(s@, e as int);
        }
        let q = skip_insignificant(s, e)?;
        if q < s.len() && s[q] == ',' {
            proof {
                seps = seps.push(q as int);
                let rest = single_definition_spec(s@, q + 1, depth as nat);
                assert(single_definition_spec(s@, j as int, depth as nat) == prepend(seq![tv], rest));
                match rest {
                    Ok((v, e3)) => {
                        assert(acc + (seq![tv] + v) =~= acc.push(tv) + v);
                    },
                    Err(_) => {},
                }
                acc = acc.push(tv);
            }
            j = q + 1;
        } else {
            proof {
                assert(acc + seq![tv] =~= acc.push(tv));
                acc = acc.push(tv);
            }
            return Ok((SingleDefinition { terms }, q, Ghost(seps)));
        }
    }
}

/// Parses a definition-list: single-definitions joined by a
/// definition-separator-symbol, in any of its spellings. The ghost result holds
/// the positions of the separators that were consumed: there is one
/// single-definition more than there are of them. A list with no text before
/// its end fails with `EmptyDefinitionList`.
#[verifier::rlimit(50)]
pub fn parse_definition_lists(src: &Input, i: usize, depth: usize) -> (r: Result<
    (DefinitionList, usize, Ghost<Seq<int>>),
    ParseError,
>)
    requires
        src.wf(),
        i <= src.chars@.len(),
    ensures
        r matches Ok((d, e, seps)) ==> i <= e <= src.chars@.len() && d.wf()
            && d.definitions@.len() == seps@.len() + 1 && separators_at(
            src.chars@,
            seps@,
            i as int,
            e as int,
        ),
        r matches Err(err) ==> err.offset <= src.chars@.len() && err.kind
            != ErrorKind::TrailingInput,
        match r {
            Ok((d, e, _)) => definition_list_spec(src.chars@, i as int, depth as nat) matches Ok(
                (v, e2),
            ) && e2 == e && d.denotes(v),
            Err(err) => definition_list_spec(src.chars@, i as int, depth as nat) == Err::<
                (Seq<Seq<TermTree>>, int),
                ParseError,
            >(err),
        },
    decreases depth, 4nat,
{
    let s = &src.chars;
    proof {
        lemma_insignificant_end_bounds(s@, i as int);
    }
    let p = skip_insignificant(s, i)?;
    let at_end = match symbol_at(s, p) {
        Some((Symbol::Operator(Operator::Terminator), _)) => true,
        Some((Symbol::BracketEnd(_), _)) => true,
        _ => false,
    };
    if p >= s.len() || at_end {
        return Err(ParseError::new(ErrorKind::EmptyDefinitionList, p));
    }
    let mut definitions: Vec<SingleDefinition> = Vec::new();
    let ghost mut seps: Seq<int> = Seq::empty();
    let ghost mut acc: Seq<Seq<TermTree>> = Seq::empty();
    let mut j = i;
    let n = s.len();
    loop
        invariant
            src.wf(),
            s == &src.chars,
            s@.len() <= usize::MAX,
            i <= j <= s@.len(),
            definitions@.len() == seps.len(),
            definitions@.len() == acc.len(),
            forall|k: int| 0 <= k < definitions@.len() ==> (#[trigger] definitions@[k]).wf(),
            forall|k: int|
                0 <= k < definitions@.len() ==> (#[trigger] definitions@[k]).denotes(acc[k]),
            separators_at(s@, seps, i as int, j as int),
            seps.len() > 0 ==> seps.last() < j,
            definition_list_spec(s@, i as int, depth as nat) == prepend(
                acc,
                alternatives_spec(s@, j as int, depth as nat),
            ),
        decreases s@.len() - j,
    {
        let (d, e, _) = parse_single_definition(src, j, depth)?;
        let ghost dv = single_definition_spec(s@, j as int, depth as nat)->Ok_0.0;
        definitions.push(d);
        proof {
            lemma_insignificant_end_bounds(s@, e as int);
        }
        let q = skip_insignificant(s, e)?;
        match symbol_at(s, q) {
            Some((Symbol::Operator(Operator::DefinitionSeparator), len)) => {
                proof {
                    seps = seps.push(q as int);
                    let rest = alternatives_spec(s@, q + len, depth as nat);
                    assert(alternatives_spec(s@, j as int, depth as nat) == prepend(seq![dv], rest));
                    match rest {
                        Ok((v, e3)) => {
                            assert(acc + (seq![dv] + v) =~= acc.push(dv) + v);
                        },
                        Err(_) => {},
                    }
                    acc = acc.push(dv);
                }
                j = q + len;
            },
            _ => {
                proof {
                    assert(acc + seq![dv] =~= acc.push(dv));
                    acc = acc.push(dv);
                }
                return Ok((DefinitionList { definitions }, q, Ghost(seps)));
            },
        }
    }
}

/// Whether `s` holds a terminator-symbol, `;` or `.`, at `k`.
pub open spec fn terminates(s: Seq<char>, k: int) -> bool {
    0 <= k < s.len() && (s[k] == ';' || s[k] == '.')
}

/// Parses a syntax-rule after any insignificant text from `i`: a
/// meta-identifier, `=`, a definition-list, and a terminator-symbol (`;` or `.`).
pub fn parse_syntax_rule(src: &Input, i: usize) -> (r: Result<(SyntaxRule, usize), ParseError>)
    requires
        src.wf(),
        i <= src.chars@.len(),
    ensures
        r matches Ok((rule, e)) ==> i < e <= src.chars@.len() && rule.wf(),
        r matches Err(err) ==> err.offset <= src.chars@.len() && err.kind
            != ErrorKind::TrailingInput,
        r matches Ok((rule, e)) ==> terminates(src.chars@, e - 1),
        match r {
            Ok((rule, e)) => rule_spec(src.chars@, i as int) matches Ok((v, e2)) && e2 == e
                && rule.denotes(v),
            Err(err) => rule_spec(src.chars@, i as int) == Err::<(RuleTree, int), ParseError>(err),
        },
{
    reveal(rule_spec);
    let s = &src.chars;
    let (identifier, e) = parse_meta_identifier(src, i)?;
    proof {
        lemma_insignificant_end_bounds(s@, e as int);
    }
    let q = skip_insignificant(s, e)?;
    if q >= s.len() || s[q] != '=' {
        return Err(ParseError::new(ErrorKind::UnexpectedSymbol(Expected::Defining), q));
    }
    let (definitions, e2, _) = parse_definition_lists(src, q + 1, NESTING_LIMIT)?;
    proof {
        lemma_insignificant_end_bounds(s@, e2 as int);
    }
    let t = skip_insignificant(s, e2)?;
    if t < s.len() && (s[t] == ';' || s[t] == '.') {
        Ok((SyntaxRule { identifier, definitions }, t + 1))
    } else {
        Err(ParseError::new(ErrorKind::UnexpectedSymbol(Expected::Terminator), t))
    }
}

/// Parses a whole syntax: one or more syntax-rules, then nothing but
/// insignificant text to the end of the input.
#[verifier::rlimit(50)]
pub fn parse_syntax(src: &Input) -> (r: Result<Syntax, ParseError>)
    requires
        src.wf(),
    ensures
        r matches Ok(syntax) ==> syntax.wf(),
        r matches Err(err) ==> err.offset <= src.chars@.len(),
        match r {
            Ok(syntax) => syntax_spec(src.chars@) matches Ok(v) && syntax.denotes(v),
            Err(err) => syntax_spec(src.chars@) == Err::<Seq<RuleTree>, ParseError>(err),
        },
{
    let s = &src.chars;
    let mut rules: Vec<SyntaxRule> = Vec::new();
    let ghost mut acc: Seq<RuleTree> = Seq::empty();
    let mut j: usize = 0;
    loop
        invariant
            src.wf(),
            s == &src.chars,
            j <= s@.len(),
            j == 0 <==> rules@.len() == 0,
            rules@.len() == acc.len(),
            forall|k: int| 0 <= k < rules@.len() ==> (#[trigger] rules@[k]).denotes(acc[k]),
            syntax_spec(s@) == match rules_spec(s@, j as int, j == 0) {
                Ok(v) => Ok(acc + v),
                Err(x) => Err::<Seq<RuleTree>, ParseError>(x),
            },
            forall|k: int| 0 <= k < rules@.len() ==> (#[trigger] rules@[k]).wf(),
        decreases s@.len() - j,
    {
        proof {
            lemma_insignificant_end_bounds(s@, j as int);
        }
        let p = skip_insignificant(s, j)?;
        if p >= s.len() {
            if rules.len() == 0 {
                return Err(ParseError::new(ErrorKind::UnexpectedSymbol(Expected::MetaIdentifier), p));
            }
            proof {
                assert(acc + Seq::<RuleTree>::empty() =~= acc);
            }
            return Ok(Syntax { rules });
        }
        if rules.len() > 0 && !is_letter_char(s[p]) {
            return Err(ParseError::new(ErrorKind::TrailingInput, p));
        }
        let (rule, e) = parse_syntax_rule(src, p)?;
        let ghost rv = rule_spec(s@, p as int)->Ok_0.0;
        proof {
            let rest = rules_spec(s@, e as int, false);
            match rest {
                Ok(v) => {
                    assert(acc + (seq![rv] + v) =~= acc.push(rv) + v);
                },
                Err(_) => {},
            }
            acc = acc.push(rv);
        }
        rules.push(rule);
        j = e;
    }
}

/// Parses grammar text written in ISO/IEC 14977 Extended BNF. The offset of an
/// error is in bytes of `input`.
#[verifier::rlimit(50)]
pub fn parse_ebnf(input: &str) -> (r: Result<Syntax, ParseError>)
    ensures
        r matches Ok(syntax) ==> syntax.wf(),
        match r {
            Ok(syntax) => syntax_spec(input@) matches Ok(v) && syntax.denotes(v),
            Err(err) => syntax_spec(input@) matches Err(x) && err.kind == x.kind && x.offset
                <= input@.len() && err.offset as int == encode_utf8(
                input@.subrange(0, x.offset as int),
            ).len(),
        },
{
    let src = Input::new(input);
    assert(src.chars@ == input@);
    match parse_syntax(&src) {
        Ok(syntax) => {
            assert(syntax_spec(src.chars@) matches Ok(v) && syntax.denotes(v));
            Ok(syntax)
        },
        Err(err) => {
            let prefix = input.substring_char(0, err.offset);
            let bytes = prefix.as_bytes();
            Err(ParseError::new(err.kind, bytes.len()))
        },
    }
}

} // verus!
