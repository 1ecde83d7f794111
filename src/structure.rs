use vstd::prelude::*;

verus! {

/// An ASCII letter.
pub open spec fn is_letter(c: char) -> bool {
    ('a' <= c && c <= 'z') || ('A' <= c && c <= 'Z')
}

/// A decimal digit.
pub open spec fn is_digit(c: char) -> bool {
    '0' <= c && c <= '9'
}

/// A meta-identifier: a letter, then letters and decimal digits.
pub open spec fn valid_identifier(n: Seq<char>) -> bool {
    n.len() >= 1 && is_letter(n[0]) && forall|k: int|
        1 <= k < n.len() ==> is_letter(#[trigger] n[k]) || is_digit(n[k])
}

/// The name of a syntax-rule.
#[derive(Debug, Clone, PartialEq, Eq)]
pub struct MetaIdentifier {
    pub name: String,
}

/// The quote that delimits a terminal-string.
#[derive(Debug, Clone, Copy, PartialEq, Eq, Structural)]
pub enum QuoteStyle {
    /// `'`, the first-quote-symbol.
    Single,
    /// `"`, the second-quote-symbol.
    Double,
}

/// A quoted literal: its text, taken verbatim between the quotes.
#[derive(Debug, Clone, PartialEq, Eq)]
pub struct TerminalString {
    pub content: String,
    pub quote: QuoteStyle,
}

/// The smallest unit of a definition.
#[derive(Debug, PartialEq, Eq)]
pub enum SyntacticPrimary {
    OptionalSequence(DefinitionList),
    RepeatedSequence(DefinitionList),
    GroupedSequence(DefinitionList),
    MetaIdentifier(MetaIdentifier),
    TerminalString(TerminalString),
    /// The text between the two `?`, uninterpreted.
    SpecialSequence(String),
    /// A primary that is present in the grammar but empty in the text.
    EmptySequence,
}

/// A primary repeated `count` times.
#[derive(Debug, PartialEq, Eq)]
pub struct SyntacticFactor {
    pub count: u32,
    pub primary: SyntacticPrimary,
}

/// A factor, less what its exception factor matches, if it has one.
#[derive(Debug, PartialEq, Eq)]
pub struct SyntacticTerm {
    pub factor: SyntacticFactor,
    pub exception: Option<SyntacticFactor>,
}

/// Terms to be matched one after the other.
#[derive(Debug, PartialEq, Eq)]
pub struct SingleDefinition {
    pub terms: Vec<SyntacticTerm>,
}

/// Alternatives, in the order of the text.
#[derive(Debug, PartialEq, Eq)]
pub struct DefinitionList {
    pub definitions: Vec<SingleDefinition>,
}

/// A named definition-list.
#[derive(Debug, PartialEq, Eq)]
pub struct SyntaxRule {
    pub identifier: MetaIdentifier,
    pub definitions: DefinitionList,
}

/// The rules of a grammar, in the order of the text; a name may be defined twice.
#[derive(Debug, PartialEq, Eq)]
pub struct Syntax {
    pub rules: Vec<SyntaxRule>,
}

impl MetaIdentifier {
    /// The meta-identifier named `name`, or `None` where `name` is not a letter
    /// followed by letters and decimal digits.
    pub fn new(name: String) -> (r: Option<MetaIdentifier>)
        ensures
            r is Some <==> valid_identifier(name@),
            r matches Some(m) ==> m.name@ == name@,
    {
        let chars = crate::lexer::chars_of(name.as_str());
        if chars.len() == 0 || !crate::parsers::is_letter_char(chars[0]) {
            return None;
        }
        let mut k: usize = 1;
        while k < chars.len()
            invariant
                chars@ == name@,
                1 <= k <= chars@.len(),
                forall|j: int| 1 <= j < k ==> is_letter(#[trigger] chars@[j]) || is_digit(chars@[j]),
            decreases chars@.len() - k,
        {
            if !crate::parsers::is_letter_char(chars[k]) && !crate::parsers::is_digit_char(chars[k]) {
                return None;
            }
            k = k + 1;
        }
        Some(MetaIdentifier { name })
    }
}

/// The mathematical form of a syntactic-primary.
pub enum PrimaryTree {
    Optional(Seq<Seq<TermTree>>),
    Repeated(Seq<Seq<TermTree>>),
    Grouped(Seq<Seq<TermTree>>),
    Meta(Seq<char>),
    Terminal(Seq<char>, QuoteStyle),
    Special(Seq<char>),
    Empty,
}

/// The mathematical form of a syntactic-factor.
pub struct FactorTree {
    pub count: nat,
    pub primary: PrimaryTree,
}

/// The mathematical form of a syntactic-term.
pub struct TermTree {
    pub factor: FactorTree,
    pub exception: Option<FactorTree>,
}

/// The mathematical form of a syntax-rule: its name and its alternatives, each
/// a sequence of terms.
pub struct RuleTree {
    pub name: Seq<char>,
    pub definitions: Seq<Seq<TermTree>>,
}

impl SyntacticPrimary {
    /// This primary has the form `t`.
    pub open spec fn denotes(&self, t: PrimaryTree) -> bool
        decreases self,
    {
        match self {
            SyntacticPrimary::OptionalSequence(d) => t matches PrimaryTree::Optional(v) && d.denotes(v),
            SyntacticPrimary::RepeatedSequence(d) => t matches PrimaryTree::Repeated(v) && d.denotes(v),
            SyntacticPrimary::GroupedSequence(d) => t matches PrimaryTree::Grouped(v) && d.denotes(v),
            SyntacticPrimary::MetaIdentifier(m) => t == PrimaryTree::Meta(m.name@),
            SyntacticPrimary::TerminalString(x) => t == PrimaryTree::Terminal(x.content@, x.quote),
            SyntacticPrimary::SpecialSequence(x) => t == PrimaryTree::Special(x@),
            SyntacticPrimary::EmptySequence => t == PrimaryTree::Empty,
        }
    }

    pub open spec fn wf(&self) -> bool
        decreases self,
    {
        match self {
            SyntacticPrimary::OptionalSequence(d) => d.wf(),
            SyntacticPrimary::RepeatedSequence(d) => d.wf(),
            SyntacticPrimary::GroupedSequence(d) => d.wf(),
            SyntacticPrimary::MetaIdentifier(m) => valid_identifier(m.name@),
            SyntacticPrimary::TerminalString(t) => t.content@.len() > 0,
            _ => true,
        }
    }
}

impl SyntacticFactor {
    /// This factor has the form `t`.
    pub open spec fn denotes(&self, t: FactorTree) -> bool
        decreases self,
    {
        self.count as nat == t.count && self.primary.denotes(t.primary)
    }

    pub open spec fn wf(&self) -> bool
        decreases self,
    {
        self.primary.wf()
    }
}

impl SyntacticTerm {
    /// This term has the form `t`.
    pub open spec fn denotes(&self, t: TermTree) -> bool
        decreases self,
    {
        &&& self.factor.denotes(t.factor)
        &&& match self.exception {
            Some(x) => t.exception matches Some(y) && x.denotes(y),
            None => t.exception is None,
        }
    }

    pub open spec fn wf(&self) -> bool
        decreases self,
    {
        &&& self.factor.wf()
        &&& match self.exception {
            Some(x) => x.wf(),
            None => true,
        }
    }
}

impl SingleDefinition {
    /// This single-definition has the terms `v`, in order.
    pub open spec fn denotes(&self, v: Seq<TermTree>) -> bool
        decreases self,
    {
        &&& self.terms@.len() == v.len()
        &&& forall|k: int| 0 <= k < v.len() ==> (#[trigger] self.terms@[k]).denotes(v[k])
    }

    /// At least one term, each well formed.
    pub open spec fn wf(&self) -> bool
        decreases self,
    {
        &&& self.terms@.len() > 0
        &&& forall|k: int| 0 <= k < self.terms@.len() ==> (#[trigger] self.terms@[k]).wf()
    }
}

impl DefinitionList {
    /// This definition-list has the alternatives `v`, in order.
    pub open spec fn denotes(&self, v: Seq<Seq<TermTree>>) -> bool
        decreases self,
    {
        &&& self.definitions@.len() == v.len()
        &&& forall|k: int| 0 <= k < v.len() ==> (#[trigger] self.definitions@[k]).denotes(v[k])
    }

    /// At least one alternative, each well formed.
    pub open spec fn wf(&self) -> bool
        decreases self,
    {
        &&& self.definitions@.len() > 0
        &&& forall|k: int|
            0 <= k < self.definitions@.len() ==> (#[trigger] self.definitions@[k]).wf()
    }
}

impl SyntaxRule {
    /// This rule has the form `t`.
    pub open spec fn denotes(&self, t: RuleTree) -> bool {
        self.identifier.name@ == t.name && self.definitions.denotes(t.definitions)
    }

    pub open spec fn wf(&self) -> bool {
        valid_identifier(self.identifier.name@) && self.definitions.wf()
    }
}

impl Syntax {
    /// This syntax has the rules `v`, in order.
    pub open spec fn denotes(&self, v: Seq<RuleTree>) -> bool {
        &&& self.rules@.len() == v.len()
        &&& forall|k: int| 0 <= k < v.len() ==> (#[trigger] self.rules@[k]).denotes(v[k])
    }

    /// At least one rule, each well formed.
    pub open spec fn wf(&self) -> bool {
        &&& self.rules@.len() > 0
        &&& forall|k: int| 0 <= k < self.rules@.len() ==> (#[trigger] self.rules@[k]).wf()
    }
}

impl From<Vec<SyntaxRule>> for Syntax {
    fn from(rules: Vec<SyntaxRule>) -> (r: Syntax) {
        Syntax { rules }
    }
}

impl vstd::std_specs::convert::FromSpecImpl<Vec<SyntaxRule>> for Syntax {
    open spec fn obeys_from_spec() -> bool {
        true
    }

    open spec fn from_spec(v: Vec<SyntaxRule>) -> Syntax {
        Syntax { rules: v }
    }
}

} // verus!
