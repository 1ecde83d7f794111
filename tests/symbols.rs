use bnf::symbols::Symbol;
use std::convert::TryFrom;

#[test]
fn test_ebnf_operator_precedence() {
    assert!(Symbol::Repetition > Symbol::Except);
}

#[test]
fn test_convert_from_char() {
    assert_eq!(Symbol::try_from('*'), Ok(Symbol::Repetition));
    assert_eq!(Symbol::try_from('-'), Ok(Symbol::Except));
    assert_eq!(Symbol::try_from(','), Ok(Symbol::Concatenate));
    assert_eq!(Symbol::try_from('|'), Ok(Symbol::DefinitionSeparator));
    assert_eq!(Symbol::try_from('='), Ok(Symbol::Defining));
    assert_eq!(Symbol::try_from(';'), Ok(Symbol::Terminator));
}

#[test]
fn convert_from_other_char_fails() {
    assert!(Symbol::try_from('a').is_err());
    assert_eq!(Symbol::from_char('x'), None);
}

#[test]
fn operator_char_round_trip() {
    for s in [
        Symbol::Terminator,
        Symbol::Defining,
        Symbol::DefinitionSeparator,
        Symbol::Concatenate,
        Symbol::Except,
        Symbol::Repetition,
    ] {
        let c: char = char::from(s);
        assert_eq!(Symbol::try_from(c), Ok(s));
    }
    assert_eq!(char::from(Symbol::Terminator), ';');
}

#[test]
fn convert_from_text() {
    assert_eq!(Symbol::try_from("="), Ok(Symbol::Defining));
    assert_eq!(Symbol::try_from(";"), Ok(Symbol::Terminator));
    assert!(Symbol::try_from("==").is_err());
    assert!(Symbol::try_from("").is_err());
    assert_eq!(Symbol::from_text("-"), Some(Symbol::Except));
}

#[test]
fn alternate_operator_spellings() {
    assert_eq!(Symbol::try_from('/'), Ok(Symbol::DefinitionSeparator));
    assert_eq!(Symbol::try_from('!'), Ok(Symbol::DefinitionSeparator));
    assert_eq!(Symbol::try_from('.'), Ok(Symbol::Terminator));
}

#[test]
fn operator_as_text() {
    let s: &str = <&str>::from(Symbol::Repetition);
    assert_eq!(s, "*");
    assert_eq!(Symbol::DefinitionSeparator.as_str(), "|");
    assert_eq!(Symbol::Terminator.as_str(), ";");
}
