use bnf::lexer::{BracketEnd, BracketStart, Operator, Symbol};
use bnf::{
    is_gap_separator, lexical_analysis, parse_ebnf, BracketKind, ErrorKind, Expected, QuoteStyle,
    SyntacticPrimary, Syntax, Token,
};

const LETTERS: &str = r#"letter = "A" | "B" | "C" | "D" | "E" | "F" | "G" | "H" | "I" | "J" |
        "K" | "L" | "M" | "N" | "O" | "P" | "Q" | "R" | "S" | "T" | "U" | "V" | "W" | "X" | "Y" |
        "Z";
        vowel = "A" | "E" | "I" | "O" | "U";
        consonant = letter - vowel;
        ee = {"A"}-, "E";"#;

fn parse(text: &str) -> Syntax {
    parse_ebnf(text).unwrap()
}

fn only_primary(syntax: &Syntax) -> &SyntacticPrimary {
    &syntax.rules[0].definitions.definitions[0].terms[0].factor.primary
}

fn kind_of(text: &str) -> ErrorKind {
    parse_ebnf(text).unwrap_err().kind
}

#[test]
fn mod_test_parsing_syntax() {
    parse_ebnf(LETTERS).unwrap();
}

#[test]
fn parsers_test_parsing_syntax() {
    let syntax = parse_ebnf(LETTERS).unwrap();
    assert_eq!(syntax.rules.len(), 4);
    assert_eq!(syntax.rules[0].definitions.definitions.len(), 26);
    assert_eq!(syntax.rules[1].identifier.name, "vowel");
    let consonant = &syntax.rules[2].definitions.definitions[0].terms[0];
    assert!(consonant.exception.is_some());
    let ee = &syntax.rules[3].definitions.definitions[0];
    assert_eq!(ee.terms.len(), 2);
    assert_eq!(
        ee.terms[0].exception.as_ref().unwrap().primary,
        SyntacticPrimary::EmptySequence
    );
}

#[test]
fn test_escape_quote() {
    let syntax = r#"letter = "\"" | "A";"#;
    let parsed = parse_ebnf(syntax).unwrap();
    assert_eq!(parsed.rules[0].definitions.definitions.len(), 2);
}

#[test]
fn separators_give_one_more_definition() {
    let s = parse(r#"id = "a" | "b" / "c" ! "d";"#);
    let defs = &s.rules[0].definitions.definitions;
    assert_eq!(defs.len(), 4);
    let names: Vec<String> = defs
        .iter()
        .map(|d| match &d.terms[0].factor.primary {
            SyntacticPrimary::TerminalString(t) => t.content.clone(),
            _ => String::new(),
        })
        .collect();
    assert_eq!(names, vec!["a", "b", "c", "d"]);
}

#[test]
fn concatenations_give_one_more_term() {
    let s = parse(r#"id = "a", b, "c";"#);
    let terms = &s.rules[0].definitions.definitions[0].terms;
    assert_eq!(terms.len(), 3);
    match &terms[1].factor.primary {
        SyntacticPrimary::MetaIdentifier(m) => assert_eq!(m.name, "b"),
        other => panic!("unexpected {:?}", other),
    }
}

#[test]
fn option_spellings_are_equivalent() {
    // Without a `,` between the primaries neither text conforms; both
    // spellings are rejected alike, at the same place.
    let a = parse_ebnf(r#""a"[ "b" ]"c"."#);
    let b = parse_ebnf(r#""a"(/ "b" /)"c"."#);
    assert_eq!(a, b);
    let a = parse_ebnf(r#"id = "a"[ "b" ]"c"."#);
    let b = parse_ebnf(r#"id = "a"(/ "b" /)"c"."#);
    assert_eq!(a, b);
    assert_eq!(a.unwrap_err().offset, 8);
}

#[test]
fn option_spellings_with_concatenation() {
    let a = parse(r#"id = "a", [ "b" ], "c"."#);
    let b = parse(r#"id = "a", (/ "b" /), "c"."#);
    assert_eq!(a, b);
    match &a.rules[0].definitions.definitions[0].terms[1].factor.primary {
        SyntacticPrimary::OptionalSequence(d) => assert_eq!(d.definitions.len(), 1),
        other => panic!("unexpected {:?}", other),
    }
}

#[test]
fn repeat_spellings_are_equivalent() {
    let a = parse(r#"id = { "b" | c };"#);
    let b = parse(r#"id = (: "b" | c :);"#);
    assert_eq!(a, b);
    assert!(matches!(only_primary(&a), SyntacticPrimary::RepeatedSequence(_)));
}

#[test]
fn grouped_sequence() {
    let s = parse(r#"id = ( "a" | "b" ), "c";"#);
    match only_primary(&s) {
        SyntacticPrimary::GroupedSequence(d) => assert_eq!(d.definitions.len(), 2),
        other => panic!("unexpected {:?}", other),
    }
}

#[test]
fn nested_comment_is_one_unit() {
    let s = parse(r#"(* outer (* inner *) still outer *) id = "x";"#);
    assert_eq!(s.rules.len(), 1);
    assert_eq!(s.rules[0].identifier.name, "id");
    match only_primary(&s) {
        SyntacticPrimary::TerminalString(t) => assert_eq!(t.content, "x"),
        other => panic!("unexpected {:?}", other),
    }
}

#[test]
fn apostrophe_inside_double_quotes() {
    let s = parse(r#"id = "it's";"#);
    match only_primary(&s) {
        SyntacticPrimary::TerminalString(t) => {
            assert_eq!(t.content, "it's");
            assert_eq!(t.quote, QuoteStyle::Double);
        }
        other => panic!("unexpected {:?}", other),
    }
}

#[test]
fn double_quote_inside_single_quotes_keeps_gaps() {
    let s = parse("id = ' say \"hi\" ';");
    match only_primary(&s) {
        SyntacticPrimary::TerminalString(t) => {
            assert_eq!(t.content, " say \"hi\" ");
            assert_eq!(t.quote, QuoteStyle::Single);
        }
        other => panic!("unexpected {:?}", other),
    }
}

#[test]
fn repetition_count() {
    let s = parse(r#"id = 3 * "a";"#);
    let f = &s.rules[0].definitions.definitions[0].terms[0].factor;
    assert_eq!(f.count, 3);
    match &f.primary {
        SyntacticPrimary::TerminalString(t) => assert_eq!(t.content, "a"),
        other => panic!("unexpected {:?}", other),
    }
}

#[test]
fn zero_repetition_count() {
    let s = parse(r#"id = 0 * "a";"#);
    assert_eq!(s.rules[0].definitions.definitions[0].terms[0].factor.count, 0);
}

#[test]
fn default_repetition_count_is_one() {
    let s = parse(r#"id = "a";"#);
    assert_eq!(s.rules[0].definitions.definitions[0].terms[0].factor.count, 1);
}

#[test]
fn largest_repetition_count() {
    let s = parse(r#"id = 4294967295 * "a";"#);
    assert_eq!(
        s.rules[0].definitions.definitions[0].terms[0].factor.count,
        u32::MAX
    );
    assert_eq!(kind_of(r#"id = 4294967296 * "a";"#), ErrorKind::InvalidRepetitionCount);
}

#[test]
fn count_without_repetition_symbol() {
    assert_eq!(kind_of(r#"id = 3 "a";"#), ErrorKind::InvalidRepetitionCount);
}

#[test]
fn empty_definition_list() {
    let e = parse_ebnf("id = ;").unwrap_err();
    assert_eq!(e.kind, ErrorKind::EmptyDefinitionList);
    assert_eq!(e.offset, 5);
}

#[test]
fn unterminated_comment() {
    let e = parse_ebnf(r#"id = "a"; (* never closed"#).unwrap_err();
    assert_eq!(e.kind, ErrorKind::UnterminatedComment);
    assert_eq!(e.offset, 10);
    assert_eq!(kind_of("(* a (* b *) id = \"x\";"), ErrorKind::UnterminatedComment);
}

#[test]
fn trailing_input() {
    let e = parse_ebnf(r#"id = "a"; ]"#).unwrap_err();
    assert_eq!(e.kind, ErrorKind::TrailingInput);
    assert_eq!(e.offset, 10);
}

#[test]
fn unterminated_terminal_string() {
    assert_eq!(kind_of(r#"id = "abc;"#), ErrorKind::UnterminatedTerminalString);
}

#[test]
fn empty_terminal_string() {
    let e = parse_ebnf(r#"id = "";"#).unwrap_err();
    assert_eq!(e.kind, ErrorKind::EmptyTerminalString);
    assert_eq!(e.offset, 5);
}

#[test]
fn unmatched_bracket() {
    assert_eq!(
        kind_of(r#"id = [ "a" ;"#),
        ErrorKind::UnmatchedBracket(BracketKind::Option)
    );
    assert_eq!(
        kind_of(r#"id = { "a" ) ;"#),
        ErrorKind::UnmatchedBracket(BracketKind::Repeat)
    );
}

#[test]
fn missing_defining_and_terminator() {
    assert_eq!(
        kind_of(r#"id "a";"#),
        ErrorKind::UnexpectedSymbol(Expected::Defining)
    );
    assert_eq!(
        kind_of(r#"id = "a""#),
        ErrorKind::UnexpectedSymbol(Expected::Terminator)
    );
    assert_eq!(kind_of(""), ErrorKind::UnexpectedSymbol(Expected::MetaIdentifier));
}

#[test]
fn nesting_too_deep() {
    let mut text = String::from("id = ");
    for _ in 0..100 {
        text.push('(');
    }
    text.push_str("\"a\"");
    for _ in 0..100 {
        text.push(')');
    }
    text.push(';');
    assert_eq!(kind_of(&text), ErrorKind::NestingTooDeep);
}

#[test]
fn special_sequence_is_verbatim() {
    let s = parse("id = ? any text ?;");
    assert_eq!(
        only_primary(&s),
        &SyntacticPrimary::SpecialSequence(String::from(" any text "))
    );
    assert_eq!(
        kind_of("id = ? open;"),
        ErrorKind::UnexpectedSymbol(Expected::SpecialSequenceEnd)
    );
}

#[test]
fn empty_alternative_is_empty_sequence() {
    let s = parse(r#"id = "a" | ;"#);
    let defs = &s.rules[0].definitions.definitions;
    assert_eq!(defs.len(), 2);
    assert_eq!(defs[1].terms[0].factor.primary, SyntacticPrimary::EmptySequence);
}

#[test]
fn duplicate_rules_are_kept() {
    let s = parse(r#"a = "x"; a = "y"."#);
    assert_eq!(s.rules.len(), 2);
    assert_eq!(s.rules[0].identifier.name, "a");
    assert_eq!(s.rules[1].identifier.name, "a");
}

#[test]
fn gap_separators() {
    for c in [' ', '\t', '\r', '\n', '\u{000B}'] {
        assert!(is_gap_separator(c));
    }
    assert!(!is_gap_separator('a'));
    let s = parse("\u{000B}id\t=\r\n\"a\" ;\n");
    assert_eq!(s.rules[0].identifier.name, "id");
}

#[test]
fn first_token_after_comment() {
    assert_eq!(
        lexical_analysis(" (* c *) (/ x"),
        Some(Token::Symbol(Symbol::BracketStart(BracketStart::Option)))
    );
    assert_eq!(
        lexical_analysis(":)"),
        Some(Token::Symbol(Symbol::BracketEnd(BracketEnd::Repeat)))
    );
    assert_eq!(
        lexical_analysis("!"),
        Some(Token::Symbol(Symbol::Operator(Operator::DefinitionSeparator)))
    );
    assert_eq!(lexical_analysis("abc"), None);
    assert_eq!(lexical_analysis("(* open"), None);
}

#[test]
fn syntax_from_rules_keeps_them() {
    let parsed = parse(r#"a = "x"; b = a;"#);
    let rebuilt = Syntax::from(parsed.rules);
    assert_eq!(rebuilt.rules.len(), 2);
    assert_eq!(rebuilt.rules[1].identifier.name, "b");
}

#[test]
fn terminal_string_content_is_not_the_quotes() {
    let s = parse(r#"id = "ab";"#);
    match only_primary(&s) {
        SyntacticPrimary::TerminalString(t) => {
            assert_eq!(t.content, "ab");
            assert_ne!(t.content, "\"ab\"");
        }
        other => panic!("unexpected {:?}", other),
    }
}

#[test]
fn error_offset_is_in_bytes() {
    // `é` takes two bytes, so the `;` at character 13 is at byte 14.
    let e = parse_ebnf("(* é *) id = ;").unwrap_err();
    assert_eq!(e.kind, ErrorKind::EmptyDefinitionList);
    assert_eq!(e.offset, 14);
}

#[test]
fn meta_identifier_skips_gaps_on_both_sides() {
    let src = bnf::Input::new("  abc12 = x");
    let (m, e) = bnf::parse_meta_identifier(&src, 0).unwrap();
    assert_eq!(m.name, "abc12");
    assert_eq!(e, 8);
    let src = bnf::Input::new("a (* c *) ");
    let (m, e) = bnf::parse_meta_identifier(&src, 0).unwrap();
    assert_eq!(m.name, "a");
    assert_eq!(e, 10);
}

#[test]
fn leaf_parsers_reject_wrong_opening() {
    let src = bnf::Input::new("abc");
    assert_eq!(
        bnf::parsers::parse_terminal_string(&src, 0).unwrap_err().kind,
        ErrorKind::UnexpectedSymbol(Expected::TerminalString)
    );
    assert_eq!(
        bnf::parsers::parse_special_sequence(&src, 0).unwrap_err().kind,
        ErrorKind::UnexpectedSymbol(Expected::SpecialSequence)
    );
    assert_eq!(
        bnf::parsers::parse_repetition_count(&src, 3).unwrap_err().kind,
        ErrorKind::UnexpectedSymbol(Expected::RepetitionCount)
    );
}

#[test]
fn operator_layering() {
    let s = parse(r#"id = 2 * a - b, c | d;"#);
    let defs = &s.rules[0].definitions.definitions;
    assert_eq!(defs.len(), 2);
    assert_eq!(defs[0].terms.len(), 2);
    let first = &defs[0].terms[0];
    assert_eq!(first.factor.count, 2);
    assert!(matches!(&first.factor.primary, SyntacticPrimary::MetaIdentifier(m) if m.name == "a"));
    assert!(
        matches!(&first.exception.as_ref().unwrap().primary, SyntacticPrimary::MetaIdentifier(m) if m.name == "b")
    );
}

#[test]
fn comment_between_symbols_changes_nothing() {
    let a = parse(r#"id = "a" , b ;"#);
    let b = parse(r#"id (* x *) = "a" (* y (* z *) *) , b ;"#);
    assert_eq!(a, b);
}
