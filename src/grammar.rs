use vstd::prelude::*;
use crate::error::{ErrorKind, Expected, ParseError};
use crate::lexer::{
    end_kind, insignificant_end, start_kind, symbol_spec, BracketStart, Operator, Symbol,
};
use crate::parsers::{
    ends_definition_list, error, follows_empty_primary, meta_identifier_spec,
    repetition_count_spec, special_sequence_spec, terminal_string_spec, terminates,
    NESTING_LIMIT,
};
use crate::structure::{is_digit, is_letter, FactorTree, PrimaryTree, QuoteStyle, RuleTree, TermTree};

verus! {

/// `acc` put in front of the items of a successful result.
pub open spec fn prepend<T>(acc: Seq<T>, r: Result<(Seq<T>, int), ParseError>) -> Result<
    (Seq<T>, int),
    ParseError,
> {
    match r {
        Ok((v, e)) => Ok((acc + v, e)),
        Err(x) => Err(x),
    }
}

/// The sequence that a bracket `b` opens, holding the alternatives `v`.
pub open spec fn bracket_tree(b: BracketStart, v: Seq<Seq<TermTree>>) -> PrimaryTree {
    match b {
        BracketStart::Group => PrimaryTree::Grouped(v),
        BracketStart::Option => PrimaryTree::Optional(v),
        BracketStart::Repeat => PrimaryTree::Repeated(v),
    }
}

/// A syntactic-primary from `i`, with `depth` more levels of brackets allowed:
/// its form and the position after it, or the error of the text.
pub open spec fn primary_spec(s: Seq<char>, i: int, depth: nat) -> Result<(PrimaryTree, int), ParseError>
    decreases depth, 0int, 0int,
{
    match insignificant_end(s, i) {
        Err(o) => Err(error(ErrorKind::UnterminatedComment, o)),
        Ok(p) => if p >= s.len() {
            Ok((PrimaryTree::Empty, p))
        } else if s[p] == '"' || s[p] == '\'' {
            match terminal_string_spec(s, p) {
                Ok((c, e)) => Ok((
                    PrimaryTree::Terminal(
                        c,
                        if s[p] == '"' {
                            QuoteStyle::Double
                        } else {
                            QuoteStyle::Single
                        },
                    ),
                    e,
                )),
                Err(x) => Err(x),
            }
        } else if s[p] == '?' {
            match special_sequence_spec(s, p) {
                Ok((c, e)) => Ok((PrimaryTree::Special(c), e)),
                Err(x) => Err(x),
            }
        } else if is_letter(s[p]) {
            match meta_identifier_spec(s, p) {
                Ok((c, e)) => Ok((PrimaryTree::Meta(c), e)),
                Err(x) => Err(x),
            }
        } else {
            match symbol_spec(s, p) {
                Some((Symbol::BracketStart(b), len)) => if depth == 0 {
                    Err(error(ErrorKind::NestingTooDeep, p))
                } else {
                    match definition_list_spec(s, p + len, (depth - 1) as nat) {
                        Err(x) => Err(x),
                        Ok((v, e)) => match insignificant_end(s, e) {
                            Err(o) => Err(error(ErrorKind::UnterminatedComment, o)),
                            Ok(q) => match symbol_spec(s, q) {
                                Some((Symbol::BracketEnd(be), len2)) => if start_kind(b)
                                    == end_kind(be) {
                                    Ok((bracket_tree(b, v), q + len2))
                                } else {
                                    Err(error(ErrorKind::UnmatchedBracket(start_kind(b)), q))
                                },
                                _ => Err(error(ErrorKind::UnmatchedBracket(start_kind(b)), q)),
                            },
                        },
                    }
                },
                Some((sym, _)) => if follows_empty_primary(sym) {
                    Ok((PrimaryTree::Empty, p))
                } else {
                    Err(error(ErrorKind::UnexpectedSymbol(Expected::Primary), p))
                },
                None => Err(error(ErrorKind::UnexpectedSymbol(Expected::Primary), p)),
            }
        },
    }
}

/// A syntactic-factor from `i`: a repetition count and `*` if digits come
/// first (else the count 1), then a primary.
pub open spec fn factor_spec(s: Seq<char>, i: int, depth: nat) -> Result<(FactorTree, int), ParseError>
    decreases depth, 1int, 0int,
{
    match insignificant_end(s, i) {
        Err(o) => Err(error(ErrorKind::UnterminatedComment, o)),
        Ok(p) => if p < s.len() && is_digit(s[p]) {
            match repetition_count_spec(s, p) {
                Err(x) => Err(x),
                Ok((n, q)) => match primary_spec(s, q, depth) {
                    Ok((pt, e)) => Ok((FactorTree { count: n, primary: pt }, e)),
                    Err(x) => Err(x),
                },
            }
        } else {
            match primary_spec(s, p, depth) {
                Ok((pt, e)) => Ok((FactorTree { count: 1, primary: pt }, e)),
                Err(x) => Err(x),
            }
        },
    }
}

/// A syntactic-term from `i`: a factor, and after a `-` an exception factor.
pub open spec fn term_spec(s: Seq<char>, i: int, depth: nat) -> Result<(TermTree, int), ParseError>
    decreases depth, 2int, 0int,
{
    match factor_spec(s, i, depth) {
        Err(x) => Err(x),
        Ok((f, e)) => match insignificant_end(s, e) {
            Err(o) => Err(error(ErrorKind::UnterminatedComment, o)),
            Ok(q) => if q < s.len() && s[q] == '-' {
                match factor_spec(s, q + 1, depth) {
                    Ok((x, e2)) => Ok((TermTree { factor: f, exception: Some(x) }, e2)),
                    Err(x) => Err(x),
                }
            } else {
                Ok((TermTree { factor: f, exception: None }, q))
            },
        },
    }
}

/// A single-definition from `j`: terms, each after a `,` but the first.
pub open spec fn single_definition_spec(s: Seq<char>, j: int, depth: nat) -> Result<
    (Seq<TermTree>, int),
    ParseError,
>
    decreases depth, 3int, s.len() - j,
{
    match term_spec(s, j, depth) {
        Err(x) => Err(x),
        Ok((t, e)) => match insignificant_end(s, e) {
            Err(o) => Err(error(ErrorKind::UnterminatedComment, o)),
            Ok(q) => if q < s.len() && s[q] == ',' {
                if j < q + 1 <= s.len() {
                    prepend(seq![t], single_definition_spec(s, q + 1, depth))
                } else {
                    Err(error(ErrorKind::UnexpectedSymbol(Expected::Primary), q))
                }
            } else {
                Ok((seq![t], q))
            },
        },
    }
}

/// The single-definitions from `j`, each after a definition-separator-symbol
/// but the first.
pub open spec fn alternatives_spec(s: Seq<char>, j: int, depth: nat) -> Result<
    (Seq<Seq<TermTree>>, int),
    ParseError,
>
    decreases depth, 4int, s.len() - j,
{
    match single_definition_spec(s, j, depth) {
        Err(x) => Err(x),
        Ok((d, e)) => match insignificant_end(s, e) {
            Err(o) => Err(error(ErrorKind::UnterminatedComment, o)),
            Ok(q) => match symbol_spec(s, q) {
                Some((Symbol::Operator(Operator::DefinitionSeparator), len)) => if j < q + len
                    <= s.len() {
                    prepend(seq![d], alternatives_spec(s, q + len, depth))
                } else {
                    Err(error(ErrorKind::UnexpectedSymbol(Expected::Primary), q))
                },
                _ => Ok((seq![d], q)),
            },
        },
    }
}

/// A definition-list from `i`: `EmptyDefinitionList` where no text comes before
/// its end, else its alternatives.
pub open spec fn definition_list_spec(s: Seq<char>, i: int, depth: nat) -> Result<
    (Seq<Seq<TermTree>>, int),
    ParseError,
>
    decreases depth, 5int, 0int,
{
    match insignificant_end(s, i) {
        Err(o) => Err(error(ErrorKind::UnterminatedComment, o)),
        Ok(p) => if ends_definition_list(s, p) {
            Err(error(ErrorKind::EmptyDefinitionList, p))
        } else {
            alternatives_spec(s, i, depth)
        },
    }
}

/// A syntax-rule from `i`: a meta-identifier, `=`, a definition-list, and a
/// terminator-symbol.
#[verifier::opaque]
pub open spec fn rule_spec(s: Seq<char>, i: int) -> Result<(RuleTree, int), ParseError> {
    match meta_identifier_spec(s, i) {
        Err(x) => Err(x),
        Ok((name, e)) => match insignificant_end(s, e) {
            Err(o) => Err(error(ErrorKind::UnterminatedComment, o)),
            Ok(q) => if !(q < s.len() && s[q] == '=') {
                Err(error(ErrorKind::UnexpectedSymbol(Expected::Defining), q))
            } else {
                match definition_list_spec(s, q + 1, NESTING_LIMIT as nat) {
                    Err(x) => Err(x),
                    Ok((v, e2)) => match insignificant_end(s, e2) {
                        Err(o) => Err(error(ErrorKind::UnterminatedComment, o)),
                        Ok(t) => if terminates(s, t) {
                            Ok((RuleTree { name, definitions: v }, t + 1))
                        } else {
                            Err(error(ErrorKind::UnexpectedSymbol(Expected::Terminator), t))
                        },
                    },
                }
            },
        },
    }
}

/// The rules from `j` to the end of the text; `first` where none came before.
/// After a rule, significant text that cannot start another is `TrailingInput`.
pub open spec fn rules_spec(s: Seq<char>, j: int, first: bool) -> Result<Seq<RuleTree>, ParseError>
    decreases s.len() - j,
{
    match insignificant_end(s, j) {
        Err(o) => Err(error(ErrorKind::UnterminatedComment, o)),
        Ok(p) => if p >= s.len() {
            if first {
                Err(error(ErrorKind::UnexpectedSymbol(Expected::MetaIdentifier), p))
            } else {
                Ok(Seq::empty())
            }
        } else if !first && !is_letter(s[p]) {
            Err(error(ErrorKind::TrailingInput, p))
        } else {
            match rule_spec(s, p) {
                Err(x) => Err(x),
                Ok((r, e)) => if j < e <= s.len() {
                    match rules_spec(s, e, false) {
                        Ok(rs) => Ok(seq![r] + rs),
                        Err(x) => Err(x),
                    }
                } else {
                    Err(error(ErrorKind::TrailingInput, p))
                },
            }
        },
    }
}

/// What a whole text parses to: its rules, or the first error in it.
pub open spec fn syntax_spec(s: Seq<char>) -> Result<Seq<RuleTree>, ParseError> {
    rules_spec(s, 0, true)
}

} // verus!
