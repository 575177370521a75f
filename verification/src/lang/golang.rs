//! # Go lexer
//!
//! The lexical grammar of the Go programming language, as far as it is
//! written down: the vocabulary of identifiers, keywords, operators, literals
//! and comments, and the rules for one operator and for rune literals.
use crate::error::{LexError, LexErrorView};
use crate::lexer::{Lexer, LexerBuilder};
use crate::pattern::{group_text, is_valid, Captures};
use crate::text::enclose;
use crate::token::{NoSkip, Token, TokenFactory};
use vstd::prelude::*;
use vstd::string::*;

verus! {

#[derive(Copy, Clone, Ord, PartialOrd, Eq, PartialEq, Debug)]
pub enum GoToken<'a> {
    /// identifiers
    Ident(&'a str),
    /// keywords
    Keyword(GoKeyword),
    /// operators and punctuation,
    Operator(GoOperator),
    /// literals
    Literal(GoLiteral<'a>),
    /// White space
    Comment(&'a str),
}

/// Go programming language keywords
#[derive(Copy, Clone, Ord, PartialOrd, Eq, PartialEq, Debug)]
pub enum GoKeyword {
    Break,
    Default,
    Func,
    Interface,
    Select,
    Case,
    Defer,
    Go,
    /// The keyword `map`. Its variant carries the word `Keyword` because the
    /// plain name is taken by the verifier's library.
    MapKeyword,
    Struct,
    Chan,
    Else,
    Goto,
    Package,
    Switch,
    Const,
    Fallthrough,
    If,
    Range,
    Type,
    Continue,
    For,
    Import,
    Return,
    Var,
}

#[derive(Copy, Clone, Ord, PartialOrd, Eq, PartialEq, Debug)]
pub enum GoOperator {
    Add,
    Sub,
    Mul,
    Quo,
    Rem,

    And,
    Or,
    Xor,
    Shl,
    Shr,
    AndNot,

    AddAssign,
    SubAssign,
    QuoAssign,
    RemAssign,
    MulAssign,

    AndAssign,
    OrAssign,
    XorAssign,
    ShlAssign,
    ShrAssign,
    AndNotAssign,

    LAnd,
    LOr,
    Arrow,
    Inc,
    Dec,

    Eql,
    Lss,
    Gtr,
    Assign,
    Not,

    NEq,
    LEq,
    GEq,
    Define,
    Ellipsis,

    LParen,
    LBrack,
    LBrace,
    Comma,
    Period,

    RParen,
    RBrack,
    RBrace,
    Semicolon,
    Colon,
}

#[derive(Copy, Clone, Ord, PartialOrd, Eq, PartialEq, Debug)]
pub enum GoLiteral<'a> {
    String(&'a str),
    Integer(&'a str),
    Float(&'a str),
    Imaginary(&'a str),
    Rune(&'a str),
}

/// A [`GoLiteral`] with its text.
pub enum GoLiteralView {
    String(Seq<char>),
    Integer(Seq<char>),
    Float(Seq<char>),
    Imaginary(Seq<char>),
    Rune(Seq<char>),
}

/// A [`GoToken`] with the text of its payload.
pub enum GoTokenView {
    Ident(Seq<char>),
    Keyword(GoKeyword),
    Operator(GoOperator),
    Literal(GoLiteralView),
    Comment(Seq<char>),
}

impl<'a> View for GoLiteral<'a> {
    type V = GoLiteralView;

    open spec fn view(&self) -> GoLiteralView {
        match *self {
            GoLiteral::String(s) => GoLiteralView::String(s@),
            GoLiteral::Integer(s) => GoLiteralView::Integer(s@),
            GoLiteral::Float(s) => GoLiteralView::Float(s@),
            GoLiteral::Imaginary(s) => GoLiteralView::Imaginary(s@),
            GoLiteral::Rune(s) => GoLiteralView::Rune(s@),
        }
    }
}

impl<'a> View for GoToken<'a> {
    type V = GoTokenView;

    open spec fn view(&self) -> GoTokenView {
        match *self {
            GoToken::Ident(s) => GoTokenView::Ident(s@),
            GoToken::Keyword(kw) => GoTokenView::Keyword(kw),
            GoToken::Operator(op) => GoTokenView::Operator(op),
            GoToken::Literal(lit) => GoTokenView::Literal(lit@),
            GoToken::Comment(s) => GoTokenView::Comment(s@),
        }
    }
}

/// What formatting a string slice with `{:?}` writes: the text in double
/// quotes, with the characters escaped that the standard library escapes.
pub uninterp spec fn debug_text(text: Seq<char>) -> Seq<char>;

/// Formats a string slice with `{:?}`, that is with `<str as Debug>::fmt`.
/// The contract names the result.
#[verifier::external_body]
fn debug_str(text: &str) -> (quoted: String)
    ensures
        quoted@ == debug_text(text@),
{
    format!("{:?}", text)
}

impl GoKeyword {
    /// The keyword's name, as it is written in the list of variants.
    pub open spec fn name(self) -> Seq<char> {
        match self {
            GoKeyword::Break => "Break"@,
            GoKeyword::Default => "Default"@,
            GoKeyword::Func => "Func"@,
            GoKeyword::Interface => "Interface"@,
            GoKeyword::Select => "Select"@,
            GoKeyword::Case => "Case"@,
            GoKeyword::Defer => "Defer"@,
            GoKeyword::Go => "Go"@,
            GoKeyword::MapKeyword => "Map"@,
            GoKeyword::Struct => "Struct"@,
            GoKeyword::Chan => "Chan"@,
            GoKeyword::Else => "Else"@,
            GoKeyword::Goto => "Goto"@,
            GoKeyword::Package => "Package"@,
            GoKeyword::Switch => "Switch"@,
            GoKeyword::Const => "Const"@,
            GoKeyword::Fallthrough => "Fallthrough"@,
            GoKeyword::If => "If"@,
            GoKeyword::Range => "Range"@,
            GoKeyword::Type => "Type"@,
            GoKeyword::Continue => "Continue"@,
            GoKeyword::For => "For"@,
            GoKeyword::Import => "Import"@,
            GoKeyword::Return => "Return"@,
            GoKeyword::Var => "Var"@,
        }
    }

    /// The keyword's name.
    pub fn as_str(self) -> (name: &'static str)
        ensures
            name@ == self.name(),
    {
        match self {
            GoKeyword::Break => "Break",
            GoKeyword::Default => "Default",
            GoKeyword::Func => "Func",
            GoKeyword::Interface => "Interface",
            GoKeyword::Select => "Select",
            GoKeyword::Case => "Case",
            GoKeyword::Defer => "Defer",
            GoKeyword::Go => "Go",
            GoKeyword::MapKeyword => "Map",
            GoKeyword::Struct => "Struct",
            GoKeyword::Chan => "Chan",
            GoKeyword::Else => "Else",
            GoKeyword::Goto => "Goto",
            GoKeyword::Package => "Package",
            GoKeyword::Switch => "Switch",
            GoKeyword::Const => "Const",
            GoKeyword::Fallthrough => "Fallthrough",
            GoKeyword::If => "If",
            GoKeyword::Range => "Range",
            GoKeyword::Type => "Type",
            GoKeyword::Continue => "Continue",
            GoKeyword::For => "For",
            GoKeyword::Import => "Import",
            GoKeyword::Return => "Return",
            GoKeyword::Var => "Var",
        }
    }
}

impl GoOperator {
    /// The operator's name, as it is written in the list of variants.
    pub open spec fn name(self) -> Seq<char> {
        match self {
            GoOperator::Add => "Add"@,
            GoOperator::Sub => "Sub"@,
            GoOperator::Mul => "Mul"@,
            GoOperator::Quo => "Quo"@,
            GoOperator::Rem => "Rem"@,
            GoOperator::And => "And"@,
            GoOperator::Or => "Or"@,
            GoOperator::Xor => "Xor"@,
            GoOperator::Shl => "Shl"@,
            GoOperator::Shr => "Shr"@,
            GoOperator::AndNot => "AndNot"@,
            GoOperator::AddAssign => "AddAssign"@,
            GoOperator::SubAssign => "SubAssign"@,
            GoOperator::QuoAssign => "QuoAssign"@,
            GoOperator::RemAssign => "RemAssign"@,
            GoOperator::MulAssign => "MulAssign"@,
            GoOperator::AndAssign => "AndAssign"@,
            GoOperator::OrAssign => "OrAssign"@,
            GoOperator::XorAssign => "XorAssign"@,
            GoOperator::ShlAssign => "ShlAssign"@,
            GoOperator::ShrAssign => "ShrAssign"@,
            GoOperator::AndNotAssign => "AndNotAssign"@,
            GoOperator::LAnd => "LAnd"@,
            GoOperator::LOr => "LOr"@,
            GoOperator::Arrow => "Arrow"@,
            GoOperator::Inc => "Inc"@,
            GoOperator::Dec => "Dec"@,
            GoOperator::Eql => "Eql"@,
            GoOperator::Lss => "Lss"@,
            GoOperator::Gtr => "Gtr"@,
            GoOperator::Assign => "Assign"@,
            GoOperator::Not => "Not"@,
            GoOperator::NEq => "NEq"@,
            GoOperator::LEq => "LEq"@,
            GoOperator::GEq => "GEq"@,
            GoOperator::Define => "Define"@,
            GoOperator::Ellipsis => "Ellipsis"@,
            GoOperator::LParen => "LParen"@,
            GoOperator::LBrack => "LBrack"@,
            GoOperator::LBrace => "LBrace"@,
            GoOperator::Comma => "Comma"@,
            GoOperator::Period => "Period"@,
            GoOperator::RParen => "RParen"@,
            GoOperator::RBrack => "RBrack"@,
            GoOperator::RBrace => "RBrace"@,
            GoOperator::Semicolon => "Semicolon"@,
            GoOperator::Colon => "Colon"@,
        }
    }

    /// The operator's name.
    pub fn as_str(self) -> (name: &'static str)
        ensures
            name@ == self.name(),
    {
        match self {
            GoOperator::Add => "Add",
            GoOperator::Sub => "Sub",
            GoOperator::Mul => "Mul",
            GoOperator::Quo => "Quo",
            GoOperator::Rem => "Rem",
            GoOperator::And => "And",
            GoOperator::Or => "Or",
            GoOperator::Xor => "Xor",
            GoOperator::Shl => "Shl",
            GoOperator::Shr => "Shr",
            GoOperator::AndNot => "AndNot",
            GoOperator::AddAssign => "AddAssign",
            GoOperator::SubAssign => "SubAssign",
            GoOperator::QuoAssign => "QuoAssign",
            GoOperator::RemAssign => "RemAssign",
            GoOperator::MulAssign => "MulAssign",
            GoOperator::AndAssign => "AndAssign",
            GoOperator::OrAssign => "OrAssign",
            GoOperator::XorAssign => "XorAssign",
            GoOperator::ShlAssign => "ShlAssign",
            GoOperator::ShrAssign => "ShrAssign",
            GoOperator::AndNotAssign => "AndNotAssign",
            GoOperator::LAnd => "LAnd",
            GoOperator::LOr => "LOr",
            GoOperator::Arrow => "Arrow",
            GoOperator::Inc => "Inc",
            GoOperator::Dec => "Dec",
            GoOperator::Eql => "Eql",
            GoOperator::Lss => "Lss",
            GoOperator::Gtr => "Gtr",
            GoOperator::Assign => "Assign",
            GoOperator::Not => "Not",
            GoOperator::NEq => "NEq",
            GoOperator::LEq => "LEq",
            GoOperator::GEq => "GEq",
            GoOperator::Define => "Define",
            GoOperator::Ellipsis => "Ellipsis",
            GoOperator::LParen => "LParen",
            GoOperator::LBrack => "LBrack",
            GoOperator::LBrace => "LBrace",
            GoOperator::Comma => "Comma",
            GoOperator::Period => "Period",
            GoOperator::RParen => "RParen",
            GoOperator::RBrack => "RBrack",
            GoOperator::RBrace => "RBrace",
            GoOperator::Semicolon => "Semicolon",
            GoOperator::Colon => "Colon",
        }
    }
}

impl<'a> GoLiteral<'a> {
    /// The literal as its debug rendering: the name of its kind, and in
    /// brackets its text as `{:?}` writes a string.
    pub open spec fn rendering(&self) -> Seq<char> {
        match *self {
            GoLiteral::String(s) => "String("@ + debug_text(s@) + ")"@,
            GoLiteral::Integer(s) => "Integer("@ + debug_text(s@) + ")"@,
            GoLiteral::Float(s) => "Float("@ + debug_text(s@) + ")"@,
            GoLiteral::Imaginary(s) => "Imaginary("@ + debug_text(s@) + ")"@,
            GoLiteral::Rune(s) => "Rune("@ + debug_text(s@) + ")"@,
        }
    }

    /// Renders the literal.
    pub fn render(&self) -> (text: String)
        ensures
            text@ == self.rendering(),
    {
        match *self {
            GoLiteral::String(s) => enclose("String(", debug_str(s).as_str(), ")"),
            GoLiteral::Integer(s) => enclose("Integer(", debug_str(s).as_str(), ")"),
            GoLiteral::Float(s) => enclose("Float(", debug_str(s).as_str(), ")"),
            GoLiteral::Imaginary(s) => enclose("Imaginary(", debug_str(s).as_str(), ")"),
            GoLiteral::Rune(s) => enclose("Rune(", debug_str(s).as_str(), ")"),
        }
    }
}

impl<'a> Token for GoToken<'a> {
    /// An identifier is rendered as it is spelled, a keyword by its name, and
    /// every other token as its debug rendering.
    open spec fn description(&self) -> Seq<char> {
        match *self {
            GoToken::Ident(id) => id@,
            GoToken::Keyword(kw) => kw.name(),
            GoToken::Operator(op) => "Operator("@ + op.name() + ")"@,
            GoToken::Literal(lit) => "Literal("@ + lit.rendering() + ")"@,
            GoToken::Comment(c) => "Comment("@ + debug_text(c@) + ")"@,
        }
    }

    open spec fn category(&self) -> Seq<char> {
        match *self {
            GoToken::Ident(..) => "Ident"@,
            GoToken::Keyword(..) => "Keyword"@,
            GoToken::Operator(..) => "Operator"@,
            GoToken::Literal(..) => "Literal"@,
            GoToken::Comment(..) => "Comment"@,
        }
    }

    fn describe(&self) -> (text: String) {
        match *self {
            GoToken::Ident(id) => String::from_str(id),
            GoToken::Keyword(kw) => String::from_str(kw.as_str()),
            GoToken::Operator(op) => enclose("Operator(", op.as_str(), ")"),
            GoToken::Literal(lit) => enclose("Literal(", lit.render().as_str(), ")"),
            GoToken::Comment(c) => enclose("Comment(", debug_str(c).as_str(), ")"),
        }
    }

    fn descriptor(&self) -> (label: &'static str) {
        match *self {
            GoToken::Ident(..) => "Ident",
            GoToken::Keyword(..) => "Keyword",
            GoToken::Operator(..) => "Operator",
            GoToken::Literal(..) => "Literal",
            GoToken::Comment(..) => "Comment",
        }
    }
}

/// The category of a token does not depend on its payload: two tokens of
/// one kind have one label.
pub proof fn lemma_category_ignores_payload(a: GoToken, b: GoToken)
    ensures
        a is Ident && b is Ident ==> a.category() == b.category(),
        a is Keyword && b is Keyword ==> a.category() == b.category(),
        a is Operator && b is Operator ==> a.category() == b.category(),
        a is Literal && b is Literal ==> a.category() == b.category(),
        a is Comment && b is Comment ==> a.category() == b.category(),
{
}

/// The constructors of the rules.
#[derive(Copy, Clone, Eq, PartialEq, Debug)]
pub enum GoRule {
    /// Makes the same operator of every match.
    Operator(GoOperator),
    /// Takes the whole lexeme, quotes included, as a rune literal.
    Rune,
}

impl<'a> TokenFactory<'a, GoToken<'a>> for GoRule {
    open spec fn token(&self, groups: Seq<Option<Seq<char>>>) -> GoTokenView {
        match *self {
            GoRule::Operator(op) => GoTokenView::Operator(op),
            GoRule::Rune => GoTokenView::Literal(GoLiteralView::Rune(group_text(groups, 0))),
        }
    }

    fn create(&self, groups: &Captures<'a>) -> (made: GoToken<'a>) {
        match *self {
            GoRule::Operator(op) => GoToken::Operator(op),
            GoRule::Rune => GoToken::Literal(GoLiteral::Rune(groups.text(0))),
        }
    }
}

/// The pattern of a rune literal, written with insignificant whitespace and
/// comments.
pub open spec fn rune_pattern() -> Seq<char> {
    r#"(?x)
        ' # open quote
        ( # unicode_value = unicode_char | little_u_value | big_u_value | escaped_char

              # unicode_char = /* an arbitrary Unicode code point except newline */
                [^\\\n]
            | # little_u_value
                \\u ([0-9A-Fa-f]){4}
            | # big_u_value
                \\U ([0-9A-Fa-f]){8}
            | # escaped_char
                \\   [abfnrtv\\'"]

        | # byte value = octal_byte_value | hex_byte_value

              # octal_byte_value
                \\   [0-7]{3}
            | # hex_byte_value
                \\x ([0-9A-Fa-f]){2}
        )
        ' # close quote
    "#@
}

/// The patterns of the rules, in the order of their priority.
pub open spec fn patterns() -> Seq<Seq<char>> {
    seq![r"-"@, rune_pattern()]
}

/// The constructors of the rules, each at the index of its pattern.
pub open spec fn constructors() -> Seq<GoRule> {
    seq![GoRule::Operator(GoOperator::Dec), GoRule::Rune]
}

/// The engine of the language. It skips no whitespace.
pub type GoLexer<'a> = Lexer<'a, GoToken<'a>, NoSkip, GoRule>;

/// Builds the engine: the rule for `-` and the rule for rune literals. It
/// fails only where the regex crate does not accept one of the patterns.
pub fn make_lexer<'a>() -> (built: Result<GoLexer<'a>, LexError>)
    ensures
        built is Ok <==> forall|i: int|
            0 <= i < patterns().len() ==> is_valid(#[trigger] patterns()[i]),
        built matches Ok(lexer) ==> {
            &&& lexer.patterns() == patterns()
            &&& lexer.constructors() == constructors()
        },
        built matches Err(e) ==> e@ == LexErrorView::invalid_pattern(),
{
    let rune: &str = r#"(?x)
        ' # open quote
        ( # unicode_value = unicode_char | little_u_value | big_u_value | escaped_char

              # unicode_char = /* an arbitrary Unicode code point except newline */
                [^\\\n]
            | # little_u_value
                \\u ([0-9A-Fa-f]){4}
            | # big_u_value
                \\U ([0-9A-Fa-f]){8}
            | # escaped_char
                \\   [abfnrtv\\'"]

        | # byte value = octal_byte_value | hex_byte_value

              # octal_byte_value
                \\   [0-7]{3}
            | # hex_byte_value
                \\x ([0-9A-Fa-f]){2}
        )
        ' # close quote
    "#;
    let builder = LexerBuilder::new().add(r"-", GoRule::Operator(GoOperator::Dec)).add(
        rune,
        GoRule::Rune,
    );
    assert(builder.patterns() =~= patterns());
    assert(builder.constructors() =~= constructors());
    builder.build()
}

} // verus!
