use vstd::prelude::*;
use vstd::string::StrSliceExecFns;

verus! {

/// The operator symbols of Extended BNF, from the loosest binding to the tightest.
#[derive(Debug, Clone, Copy, PartialOrd, PartialEq, Eq, Ord, Structural)]
pub enum Symbol {
    Terminator,
    Defining,
    DefinitionSeparator,
    Concatenate,
    Except,
    Repetition,
}

/// The operator written by the single character `c`, if any, in any of its
/// spellings.
pub open spec fn operator_of(c: char) -> Option<Symbol> {
    if c == '*' {
        Some(Symbol::Repetition)
    } else if c == '-' {
        Some(Symbol::Except)
    } else if c == ',' {
        Some(Symbol::Concatenate)
    } else if c == '|' || c == '/' || c == '!' {
        Some(Symbol::DefinitionSeparator)
    } else if c == '=' {
        Some(Symbol::Defining)
    } else if c == ';' || c == '.' {
        Some(Symbol::Terminator)
    } else {
        None
    }
}

/// The character that writes the operator `s` in its first spelling.
pub open spec fn char_of(s: Symbol) -> char {
    match s {
        Symbol::Terminator => ';',
        Symbol::Defining => '=',
        Symbol::DefinitionSeparator => '|',
        Symbol::Concatenate => ',',
        Symbol::Except => '-',
        Symbol::Repetition => '*',
    }
}

impl Symbol {
    /// The operator written by `c`, or `None` where `c` writes no operator.
    pub fn from_char(c: char) -> (r: Option<Symbol>)
        ensures
            r == operator_of(c),
    {
        if c == '*' {
            Some(Symbol::Repetition)
        } else if c == '-' {
            Some(Symbol::Except)
        } else if c == ',' {
            Some(Symbol::Concatenate)
        } else if c == '|' || c == '/' || c == '!' {
            Some(Symbol::DefinitionSeparator)
        } else if c == '=' {
            Some(Symbol::Defining)
        } else if c == ';' || c == '.' {
            Some(Symbol::Terminator)
        } else {
            None
        }
    }

    /// The operator that the text `s` writes: one character, which must write
    /// an operator.
    pub fn from_text(s: &str) -> (r: Option<Symbol>)
        ensures
            r == (if s@.len() == 1 {
                operator_of(s@[0])
            } else {
                None
            }),
    {
        if s.unicode_len() == 1 {
            Symbol::from_char(s.get_char(0))
        } else {
            None
        }
    }

    /// The text of the first spelling of this operator.
    pub fn as_str(self) -> (r: &'static str)
        ensures
            r@ == seq![char_of(self)],
    {
        proof {
            reveal_strlit(";");
            reveal_strlit("=");
            reveal_strlit("|");
            reveal_strlit(",");
            reveal_strlit("-");
            reveal_strlit("*");
        }
        match self {
            Symbol::Terminator => ";",
            Symbol::Defining => "=",
            Symbol::DefinitionSeparator => "|",
            Symbol::Concatenate => ",",
            Symbol::Except => "-",
            Symbol::Repetition => "*",
        }
    }

    /// The character that writes this operator in its first spelling.
    pub fn to_char(self) -> (r: char)
        ensures
            r == char_of(self),
    {
        match self {
            Symbol::Terminator => ';',
            Symbol::Defining => '=',
            Symbol::DefinitionSeparator => '|',
            Symbol::Concatenate => ',',
            Symbol::Except => '-',
            Symbol::Repetition => '*',
        }
    }
}

/// Reading back the character of an operator gives the operator.
pub proof fn lemma_operator_char_round_trip(s: Symbol)
    ensures
        operator_of(char_of(s)) == Some(s),
{
}

impl std::convert::TryFrom<char> for Symbol {
    type Error = String;

    fn try_from(from: char) -> Result<Symbol, String> {
        match Symbol::from_char(from) {
            Some(s) => Ok(s),
            None => Err(String::from_str("not a valid operator for Extended BNF")),
        }
    }
}

/// The contract of the conversion is that of `Symbol::from_char`; the text of
/// the error is left unstated.
impl vstd::std_specs::convert::TryFromSpecImpl<char> for Symbol {
    open spec fn obeys_try_from_spec() -> bool {
        false
    }

    open spec fn try_from_spec(v: char) -> Result<Symbol, String> {
        arbitrary()
    }
}

impl<'a> std::convert::TryFrom<&'a str> for Symbol {
    type Error = String;

    fn try_from(from: &'a str) -> Result<Symbol, String> {
        match Symbol::from_text(from) {
            Some(s) => Ok(s),
            None => Err(String::from_str("not a valid operator for Extended BNF")),
        }
    }
}

/// As for characters, the error's text is left unstated.
impl<'a> vstd::std_specs::convert::TryFromSpecImpl<&'a str> for Symbol {
    open spec fn obeys_try_from_spec() -> bool {
        false
    }

    open spec fn try_from_spec(v: &'a str) -> Result<Symbol, String> {
        arbitrary()
    }
}

impl From<Symbol> for char {
    fn from(from: Symbol) -> (r: char) {
        from.to_char()
    }
}

impl From<Symbol> for &'static str {
    fn from(from: Symbol) -> (r: &'static str) {
        from.as_str()
    }
}

/// The text is that of `Symbol::as_str`, which a `&str` value in a spec cannot hold.
impl vstd::std_specs::convert::FromSpecImpl<Symbol> for &'static str {
    open spec fn obeys_from_spec() -> bool {
        false
    }

    open spec fn from_spec(v: Symbol) -> &'static str {
        arbitrary()
    }
}

impl vstd::std_specs::convert::FromSpecImpl<Symbol> for char {
    open spec fn obeys_from_spec() -> bool {
        true
    }

    open spec fn from_spec(v: Symbol) -> char {
        char_of(v)
    }
}

} // verus!
