//! # EBNF lexer
//!
//! EBNF (or Extended Backus-Naur Form) language consists of the following lexemes:
//! - terminals (e.g.: `"fn"`, `">="`);
//! - non-terminals (e.g.: `<Condition>`, `<Rule>`);
//! - 2 operators, namely: 'definition' (`::=`) and 'alternative' (`|`);
//! - repetitions (`{`, `}`);
//! - options (`[`, `]`);
//! - grouping parenthesis (`(`, `)`);
//! - rules delimiter: a semicolon (`;`);
//! - comments: everything after `//` until the end of line, and everything
//!   between `/*` and `*/`.
//!
//! Delimiter is optional after the last rule.
pub use self::EbnfOperator::{Alt, Def};
pub use self::EbnfToken::{
    Comment, Delimiter, Group, NonTerminal, Operator, Optional, Repeat, Terminal,
};
pub use self::Side::{End, Start};
use crate::error::{LexError, LexErrorView};
use crate::filter::{dropped_in_front, surviving, Filter, TokenPredicate};
use crate::lexer::{Lexer, LexerBuilder};
use crate::pattern::{group_text, is_valid, Captures};
use crate::stream::{item_view, Item, MetaResult, TokenSource};
use crate::scan::{leading, lemma_leading_bounds, lemma_leading_ends_at, lemma_leading_skipped};
use crate::text::{
    byte_len, char_len, enclose, lemma_cut_between_parts, lemma_encode_concat, len_of, str_after,
};
use crate::token::{is_tail_of, Token, TokenFactory, Whitespace};
use vstd::prelude::*;
use vstd::std_specs::iter::IteratorSpec;
use vstd::string::*;

verus! {

#[derive(Copy, Clone, Ord, PartialOrd, Eq, PartialEq, Debug)]
pub enum EbnfToken<'a> {
    Terminal(&'a str),
    NonTerminal(&'a str),
    Operator(EbnfOperator),
    Repeat(Side),
    Optional(Side),
    Group(Side),
    Delimiter,
    Comment(&'a str),
}

#[derive(Copy, Clone, Ord, PartialOrd, Eq, PartialEq, Debug)]
pub enum EbnfOperator {
    /// Definition `"::="`
    Def,
    /// Alternative `"|"`
    Alt,
}

#[derive(Copy, Clone, Ord, PartialOrd, Eq, PartialEq, Debug)]
pub enum Side {
    Start,
    End,
}

/// An [`EbnfToken`] with the text of its payload.
pub enum EbnfTokenView {
    Terminal(Seq<char>),
    NonTerminal(Seq<char>),
    Operator(EbnfOperator),
    Repeat(Side),
    Optional(Side),
    Group(Side),
    Delimiter,
    Comment(Seq<char>),
}

impl<'a> View for EbnfToken<'a> {
    type V = EbnfTokenView;

    open spec fn view(&self) -> EbnfTokenView {
        match *self {
            EbnfToken::Terminal(s) => EbnfTokenView::Terminal(s@),
            EbnfToken::NonTerminal(s) => EbnfTokenView::NonTerminal(s@),
            EbnfToken::Operator(op) => EbnfTokenView::Operator(op),
            EbnfToken::Repeat(side) => EbnfTokenView::Repeat(side),
            EbnfToken::Optional(side) => EbnfTokenView::Optional(side),
            EbnfToken::Group(side) => EbnfTokenView::Group(side),
            EbnfToken::Delimiter => EbnfTokenView::Delimiter,
            EbnfToken::Comment(s) => EbnfTokenView::Comment(s@),
        }
    }
}

/// Whether `c` counts as whitespace: the low eight bits of its code are
/// those of a space, a horizontal tab, a carriage return or a newline.
pub open spec fn is_space(c: char) -> bool {
    let low = (c as u32) % 256;
    low == 0x20 || low == 0x09 || low == 0x0d || low == 0x0a
}

/// What is left of `text` behind its leading whitespace.
pub open spec fn trimmed(text: Seq<char>) -> Seq<char> {
    text.skip(leading(text, |c: char| is_space(c)) as int)
}

/// Whitespace is skipped once and for all: what is left has none in front.
pub proof fn lemma_trimmed_is_stable(text: Seq<char>)
    ensures
        trimmed(trimmed(text)) == trimmed(text),
        is_tail_of(trimmed(text), text),
{
    let class = |c: char| is_space(c);
    lemma_leading_skipped(text, class);
    lemma_leading_bounds(text, class);
    assert(trimmed(text).skip(0) =~= trimmed(text));
}

/// Tests whether `c` counts as whitespace.
pub fn is_whitespace(c: char) -> (space: bool)
    ensures
        space == is_space(c),
{
    let low: u32 = (c as u32) % 256;
    // spaces (U+0020), horizontal tabs (U+0009), carriage returns (U+000D)
    // and newlines (U+000A)
    low == 0x20 || low == 0x09 || low == 0x0d || low == 0x0a
}

/// Skips the leading whitespace of `source`: hands out what begins at its
/// first character that is no whitespace, or the empty end of `source`.
pub fn whitespace_filter(source: &str) -> (rest: &str)
    ensures
        rest@ == trimmed(source@),
{
    let ghost class = |c: char| is_space(c);
    let total = len_of(source);
    let mut chars = source.chars();
    let mut at: usize = 0;
    let ghost mut seen: int = 0;
    loop
        invariant_except_break
            chars.remaining() == source@.skip(seen),
        invariant
            0 <= seen <= source@.len(),
            at == byte_len(source@.take(seen)),
            total == byte_len(source@),
            forall|i: int| 0 <= i < seen ==> class(#[trigger] source@[i]),
            class == (|c: char| is_space(c)),
        ensures
            0 <= seen <= source@.len(),
            at == byte_len(source@.take(seen)),
            leading(source@, class) == seen,
        decreases source@.len() - seen,
    {
        match chars.next() {
            Some(c) => {
                assert(c == source@[seen]);
                if !is_whitespace(c) {
                    proof {
                        lemma_leading_ends_at(source@, class, seen);
                    }
                    break ;
                }
                let width = char_len(c);
                proof {
                    assert(source@.take(seen + 1) =~= source@.take(seen) + seq![c]);
                    assert(source@ =~= source@.take(seen + 1) + source@.skip(seen + 1));
                    lemma_encode_concat(source@.take(seen), seq![c]);
                    lemma_encode_concat(source@.take(seen + 1), source@.skip(seen + 1));
                    assert(source@.skip(seen).drop_first() =~= source@.skip(seen + 1));
                    seen = seen + 1;
                }
                at = at + width;
            },
            None => {
                proof {
                    lemma_leading_ends_at(source@, class, seen);
                }
                break ;
            },
        }
    }
    proof {
        assert(source@ =~= source@.take(seen) + source@.skip(seen));
        lemma_cut_between_parts(source@.take(seen), source@.skip(seen));
    }
    str_after(source, at)
}

/// The whitespace classifier of the notation.
pub struct EbnfWhitespace;

impl Whitespace for EbnfWhitespace {
    open spec fn rest(&self, text: Seq<char>) -> Seq<char> {
        trimmed(text)
    }

    proof fn lemma_rest_is_tail(&self, text: Seq<char>) {
        lemma_trimmed_is_stable(text);
    }

    proof fn lemma_rest_is_stable(&self, text: Seq<char>) {
        lemma_trimmed_is_stable(text);
    }

    fn skip<'a>(&self, text: &'a str) -> (rest: &'a str) {
        whitespace_filter(text)
    }
}

/// The constructors of the notation's rules.
#[derive(Copy, Clone, Eq, PartialEq, Debug)]
pub enum EbnfRule {
    /// Makes the same token of every match.
    Constant(Fixed),
    /// Takes the name between the triangle quotes from group 1.
    NonTerminal,
    /// Takes the text between the double quotes from group 1.
    Terminal,
    /// Takes the text of the comment from group 1.
    Comment,
}

/// The tokens without a payload.
#[derive(Copy, Clone, Eq, PartialEq, Debug)]
pub enum Fixed {
    Operator(EbnfOperator),
    Repeat(Side),
    Optional(Side),
    Group(Side),
    Delimiter,
}

impl Fixed {
    /// The token that this stands for.
    pub open spec fn token_view(self) -> EbnfTokenView {
        match self {
            Fixed::Operator(op) => EbnfTokenView::Operator(op),
            Fixed::Repeat(side) => EbnfTokenView::Repeat(side),
            Fixed::Optional(side) => EbnfTokenView::Optional(side),
            Fixed::Group(side) => EbnfTokenView::Group(side),
            Fixed::Delimiter => EbnfTokenView::Delimiter,
        }
    }

    /// The token that this stands for.
    pub fn token<'a>(self) -> (made: EbnfToken<'a>)
        ensures
            made@ == self.token_view(),
    {
        match self {
            Fixed::Operator(op) => EbnfToken::Operator(op),
            Fixed::Repeat(side) => EbnfToken::Repeat(side),
            Fixed::Optional(side) => EbnfToken::Optional(side),
            Fixed::Group(side) => EbnfToken::Group(side),
            Fixed::Delimiter => EbnfToken::Delimiter,
        }
    }
}

impl<'a> TokenFactory<'a, EbnfToken<'a>> for EbnfRule {
    open spec fn token(&self, groups: Seq<Option<Seq<char>>>) -> EbnfTokenView {
        match *self {
            EbnfRule::Constant(fixed) => fixed.token_view(),
            EbnfRule::NonTerminal => EbnfTokenView::NonTerminal(group_text(groups, 1)),
            EbnfRule::Terminal => EbnfTokenView::Terminal(group_text(groups, 1)),
            EbnfRule::Comment => EbnfTokenView::Comment(group_text(groups, 1)),
        }
    }

    fn create(&self, groups: &Captures<'a>) -> (made: EbnfToken<'a>) {
        match self {
            EbnfRule::Constant(fixed) => fixed.token(),
            EbnfRule::NonTerminal => EbnfToken::NonTerminal(groups.text(1)),
            EbnfRule::Terminal => EbnfToken::Terminal(groups.text(1)),
            EbnfRule::Comment => EbnfToken::Comment(groups.text(1)),
        }
    }
}

/// The patterns of the notation, in the order of their priority.
pub open spec fn patterns() -> Seq<Seq<char>> {
    seq![
        r"::="@,
        r"\|"@,
        r"<(.+?)>"@,
        "\"(.*?)\""@,
        r"\{"@,
        r"\}"@,
        r"\["@,
        r"\]"@,
        r"\("@,
        r"\)"@,
        r";"@,
        r"//([^\n]*)\n?"@,
        r"(?s)/\*(.*?)\*/"@,
    ]
}

/// The constructors of the notation, each at the index of its pattern.
pub open spec fn constructors() -> Seq<EbnfRule> {
    seq![
        EbnfRule::Constant(Fixed::Operator(EbnfOperator::Def)),
        EbnfRule::Constant(Fixed::Operator(EbnfOperator::Alt)),
        EbnfRule::NonTerminal,
        EbnfRule::Terminal,
        EbnfRule::Constant(Fixed::Repeat(Side::Start)),
        EbnfRule::Constant(Fixed::Repeat(Side::End)),
        EbnfRule::Constant(Fixed::Optional(Side::Start)),
        EbnfRule::Constant(Fixed::Optional(Side::End)),
        EbnfRule::Constant(Fixed::Group(Side::Start)),
        EbnfRule::Constant(Fixed::Group(Side::End)),
        EbnfRule::Constant(Fixed::Delimiter),
        EbnfRule::Comment,
        EbnfRule::Comment,
    ]
}

/// The engine of the notation.
pub type EbnfLexer<'a> = Lexer<'a, EbnfToken<'a>, EbnfWhitespace, EbnfRule>;

/// Builds the engine of the notation: its whitespace classifier and its
/// thirteen rules. It fails only where the regex crate does not accept one of
/// the patterns.
pub fn make_lexer<'a>() -> (built: Result<EbnfLexer<'a>, LexError>)
    ensures
        built is Ok <==> forall|i: int|
            0 <= i < patterns().len() ==> is_valid(#[trigger] patterns()[i]),
        built matches Ok(lexer) ==> {
            &&& lexer.patterns() == patterns()
            &&& lexer.constructors() == constructors()
            &&& lexer.classifier() == EbnfWhitespace
        },
        built matches Err(e) ==> e@ == LexErrorView::invalid_pattern(),
{
    let builder = LexerBuilder::new().skip_whitespaces(EbnfWhitespace)
        .add(r"::=", EbnfRule::Constant(Fixed::Operator(EbnfOperator::Def)))
        .add(r"\|", EbnfRule::Constant(Fixed::Operator(EbnfOperator::Alt)))
        .add(r"<(.+?)>", EbnfRule::NonTerminal)
        .add("\"(.*?)\"", EbnfRule::Terminal)
        .add(r"\{", EbnfRule::Constant(Fixed::Repeat(Side::Start)))
        .add(r"\}", EbnfRule::Constant(Fixed::Repeat(Side::End)))
        .add(r"\[", EbnfRule::Constant(Fixed::Optional(Side::Start)))
        .add(r"\]", EbnfRule::Constant(Fixed::Optional(Side::End)))
        .add(r"\(", EbnfRule::Constant(Fixed::Group(Side::Start)))
        .add(r"\)", EbnfRule::Constant(Fixed::Group(Side::End)))
        .add(r";", EbnfRule::Constant(Fixed::Delimiter))
        .add(r"//([^\n]*)\n?", EbnfRule::Comment)
        .add(r"(?s)/\*(.*?)\*/", EbnfRule::Comment);
    assert(builder.patterns() =~= patterns());
    assert(builder.constructors() =~= constructors());
    builder.build()
}

impl<'a> Token for EbnfToken<'a> {
    open spec fn description(&self) -> Seq<char> {
        match *self {
            EbnfToken::Terminal(t) => "\""@ + t@ + "\""@,
            EbnfToken::NonTerminal(t) => "<"@ + t@ + ">"@,
            EbnfToken::Comment(c) => "/* "@ + c@ + " */\n"@,
            _ => self.category(),
        }
    }

    open spec fn category(&self) -> Seq<char> {
        match *self {
            EbnfToken::Terminal(..) => "Terminal"@,
            EbnfToken::NonTerminal(..) => "NonTerminal"@,
            EbnfToken::Operator(EbnfOperator::Def) => "::="@,
            EbnfToken::Operator(EbnfOperator::Alt) => "|"@,
            EbnfToken::Repeat(Side::Start) => "{"@,
            EbnfToken::Repeat(Side::End) => "}"@,
            EbnfToken::Optional(Side::Start) => "["@,
            EbnfToken::Optional(Side::End) => "]"@,
            EbnfToken::Group(Side::Start) => "("@,
            EbnfToken::Group(Side::End) => ")"@,
            EbnfToken::Delimiter => ";"@,
            EbnfToken::Comment(_) => "Comment"@,
        }
    }

    fn describe(&self) -> (text: String) {
        match *self {
            EbnfToken::Terminal(t) => enclose("\"", t, "\""),
            EbnfToken::NonTerminal(t) => enclose("<", t, ">"),
            EbnfToken::Comment(c) => enclose("/* ", c, " */\n"),
            _ => String::from_str(self.descriptor()),
        }
    }

    fn descriptor(&self) -> (label: &'static str) {
        match *self {
            EbnfToken::Terminal(..) => "Terminal",
            EbnfToken::NonTerminal(..) => "NonTerminal",
            EbnfToken::Operator(EbnfOperator::Def) => "::=",
            EbnfToken::Operator(EbnfOperator::Alt) => "|",
            EbnfToken::Repeat(Side::Start) => "{",
            EbnfToken::Repeat(Side::End) => "}",
            EbnfToken::Optional(Side::Start) => "[",
            EbnfToken::Optional(Side::End) => "]",
            EbnfToken::Group(Side::Start) => "(",
            EbnfToken::Group(Side::End) => ")",
            EbnfToken::Delimiter => ";",
            EbnfToken::Comment(_) => "Comment",
        }
    }
}

/// The category of a token does not depend on its payload: two terminals
/// have one label, and so have two non-terminals and two comments.
pub proof fn lemma_category_ignores_payload(a: EbnfToken, b: EbnfToken)
    ensures
        a is Terminal && b is Terminal ==> a.category() == b.category(),
        a is NonTerminal && b is NonTerminal ==> a.category() == b.category(),
        a is Comment && b is Comment ==> a.category() == b.category(),
{
}

/// The test that tells comments from the other tokens.
pub struct IsComment;

impl<'a> TokenPredicate<EbnfToken<'a>> for IsComment {
    open spec fn excluded(&self, token: EbnfTokenView) -> bool {
        token is Comment
    }

    fn excludes(&self, token: &EbnfToken<'a>) -> (out: bool) {
        match token {
            EbnfToken::Comment(_) => true,
            _ => false,
        }
    }
}

/// A source of EBNF tokens without its comments.
pub struct DropComments<I> {
    inner: Filter<I, IsComment>,
}

impl<I> DropComments<I> {
    /// The source whose comments are dropped.
    pub closed spec fn inner(&self) -> I {
        self.inner.inner()
    }

    /// Takes the filter away and hands out the source as far as it was
    /// pulled.
    pub fn into_inner(self) -> (inner: I)
        ensures
            inner == self.inner(),
    {
        self.inner.into_inner()
    }
}

/// Puts `tokens` behind a filter that drops the comments.
pub fn drop_comments<'a, I>(tokens: I) -> (filtered: DropComments<I>) where
    I: TokenSource<'a, EbnfToken<'a>>,

    ensures
        filtered.inner() == tokens,
{
    DropComments { inner: Filter::wrap(tokens, IsComment) }
}

impl<'a, I: TokenSource<'a, EbnfToken<'a>>> TokenSource<'a, EbnfToken<'a>> for DropComments<I> {
    /// What the inner source has yet to yield, without the comments: every
    /// other token and the error stay, in their order and as they are.
    open spec fn pending(&self) -> Seq<Item<EbnfTokenView>> {
        surviving::<EbnfToken<'a>, IsComment>(IsComment, self.inner().pending())
    }

    /// Pulls the inner source until it yields something that is no comment:
    /// a token, with the position and the lexeme that it had, or the error,
    /// or the end.
    fn next_token(&mut self) -> (item: Option<MetaResult<'a, EbnfToken<'a>>>)
        ensures
            ({
                let items = old(self).inner().pending();
                let dropped = dropped_in_front::<EbnfToken<'a>, IsComment>(IsComment, items);
                match item {
                    Some(found) => {
                        &&& dropped < items.len()
                        &&& item_view(found) == items[dropped as int]
                        &&& final(self).inner().pending() == items.skip(dropped as int + 1)
                    },
                    None => dropped == items.len() && final(self).inner().pending().len() == 0,
                }
            }),
    {
        self.inner.next_token()
    }
}

} // verus!
