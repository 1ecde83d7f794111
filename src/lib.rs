//! A parser for grammars written in ISO/IEC 14977 Extended BNF.
//!
//! `parse_ebnf` reads grammar text into a `Syntax`: its rules, each a
//! definition-list of alternatives, down to terms, factors and primaries. The
//! operator layering of the standard is the nesting of these types. Equivalent
//! spellings of a symbol (`[` and `(/`, `|`, `/` and `!`, ...) give the same tree.
//! A text that does not conform gives a `ParseError` with the place of the failure.
pub mod error;
pub mod grammar;
pub mod lexer;
pub mod parsers;
pub mod structure;
pub mod symbols;

pub use error::{BracketKind, ErrorKind, Expected, ParseError};
pub use lexer::{is_gap_separator, lexical_analysis, parse_gap_separator, Token};
pub use parsers::{parse_ebnf, parse_meta_identifier, parse_syntax, parse_syntax_rule, Input};
pub use structure::{
    DefinitionList, MetaIdentifier, QuoteStyle, SingleDefinition, Syntax, SyntacticFactor,
    SyntacticPrimary, SyntacticTerm, SyntaxRule, TerminalString,
};
