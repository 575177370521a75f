//! # BNF lexer
//!
//! This variant of the BNF language consists of the following lexemes:
//! - terminals in double quotes (e.g.: `"fn"`, `">="`);
//! - non-terminals in triangle quotes (e.g.: `<Condition>`, `<Rule>`);
//! - 2 operators: 'definition' (`::=`) and 'alternative' (`|`);
//! - rules delimiter: a semicolon (`;`).
//!
//! Delimiter is optional after the last rule.
use crate::error::{LexError, LexErrorView};
use crate::lexer::{Lexer, LexerBuilder};
use crate::pattern::{group_text, is_valid, Captures};
use crate::scan::{leading, lemma_leading_bounds, lemma_leading_ends_at, lemma_leading_skipped};
use crate::text::{
    byte_len, char_len, enclose, lemma_cut_between_parts, lemma_encode_concat, len_of, str_after,
};
use crate::token::{is_tail_of, Token, TokenFactory, Whitespace};
use vstd::prelude::*;
use vstd::std_specs::iter::IteratorSpec;
use vstd::string::*;

verus! {

#[derive(Copy, Clone, Ord, PartialOrd, Eq, PartialEq, Debug)]
pub enum BnfToken<'a> {
    Terminal(&'a str),
    NonTerminal(&'a str),
    Operator(BnfOperator),
    Delimiter,
}

#[derive(Copy, Clone, Ord, PartialOrd, Eq, PartialEq, Debug)]
pub enum BnfOperator {
    /// Definition `"::="`
    Def,
    /// Alternative `"|"`
    Alt,
}

/// A [`BnfToken`] with the text of its payload.
pub enum BnfTokenView {
    Terminal(Seq<char>),
    NonTerminal(Seq<char>),
    Operator(BnfOperator),
    Delimiter,
}

impl<'a> View for BnfToken<'a> {
    type V = BnfTokenView;

    open spec fn view(&self) -> BnfTokenView {
        match *self {
            BnfToken::Terminal(s) => BnfTokenView::Terminal(s@),
            BnfToken::NonTerminal(s) => BnfTokenView::NonTerminal(s@),
            BnfToken::Operator(op) => BnfTokenView::Operator(op),
            BnfToken::Delimiter => BnfTokenView::Delimiter,
        }
    }
}

/// Whether `c` counts as whitespace: the low eight bits of its code are
/// those of a space, a horizontal tab, a carriage return or a newline.
pub open spec fn is_space(c: char) -> bool {
    let low = (c as u32) % 256;
    low == 0x20 || low == 0x09 || low == 0x0d || low == 0x0a
}

/// What is left of `text` behind its leading whitespace.
pub open spec fn trimmed(text: Seq<char>) -> Seq<char> {
    text.skip(leading(text, |c: char| is_space(c)) as int)
}

/// Whitespace is skipped once and for all: what is left has none in front.
pub proof fn lemma_trimmed_is_stable(text: Seq<char>)
    ensures
        trimmed(trimmed(text)) == trimmed(text),
        is_tail_of(trimmed(text), text),
{
    let class = |c: char| is_space(c);
    lemma_leading_skipped(text, class);
    lemma_leading_bounds(text, class);
    assert(trimmed(text).skip(0) =~= trimmed(text));
}

/// Tests whether `c` counts as whitespace.
pub fn is_whitespace(c: char) -> (space: bool)
    ensures
        space == is_space(c),
{
    let low: u32 = (c as u32) % 256;
    // spaces (U+0020), horizontal tabs (U+0009), carriage returns (U+000D)
    // and newlines (U+000A)
    low == 0x20 || low == 0x09 || low == 0x0d || low == 0x0a
}

/// Skips the leading whitespace of `source`: hands out what begins at its
/// first character that is no whitespace, or the empty end of `source`.
pub fn whitespace_filter(source: &str) -> (rest: &str)
    ensures
        rest@ == trimmed(source@),
{
    let ghost class = |c: char| is_space(c);
    let total = len_of(source);
    let mut chars = source.chars();
    let mut at: usize = 0;
    let ghost mut seen: int = 0;
    loop
        invariant_except_break
            chars.remaining() == source@.skip(seen),
        invariant
            0 <= seen <= source@.len(),
            at == byte_len(source@.take(seen)),
            total == byte_len(source@),
            forall|i: int| 0 <= i < seen ==> class(#[trigger] source@[i]),
            class == (|c: char| is_space(c)),
        ensures
            0 <= seen <= source@.len(),
            at == byte_len(source@.take(seen)),
            leading(source@, class) == seen,
        decreases source@.len() - seen,
    {
        match chars.next() {
            Some(c) => {
                assert(c == source@[seen]);
                if !is_whitespace(c) {
                    proof {
                        lemma_leading_ends_at(source@, class, seen);
                    }
                    break ;
                }
                let width = char_len(c);
                proof {
                    assert(source@.take(seen + 1) =~= source@.take(seen) + seq![c]);
                    assert(source@ =~= source@.take(seen + 1) + source@.skip(seen + 1));
                    lemma_encode_concat(source@.take(seen), seq![c]);
                    lemma_encode_concat(source@.take(seen + 1), source@.skip(seen + 1));
                    assert(source@.skip(seen).drop_first() =~= source@.skip(seen + 1));
                    seen = seen + 1;
                }
                at = at + width;
            },
            None => {
                proof {
                    lemma_leading_ends_at(source@, class, seen);
                }
                break ;
            },
        }
    }
    proof {
        assert(source@ =~= source@.take(seen) + source@.skip(seen));
        lemma_cut_between_parts(source@.take(seen), source@.skip(seen));
    }
    str_after(source, at)
}

/// The whitespace classifier of the notation.
pub struct BnfWhitespace;

impl Whitespace for BnfWhitespace {
    open spec fn rest(&self, text: Seq<char>) -> Seq<char> {
        trimmed(text)
    }

    proof fn lemma_rest_is_tail(&self, text: Seq<char>) {
        lemma_trimmed_is_stable(text);
    }

    proof fn lemma_rest_is_stable(&self, text: Seq<char>) {
        lemma_trimmed_is_stable(text);
    }

    fn skip<'a>(&self, text: &'a str) -> (rest: &'a str) {
        whitespace_filter(text)
    }
}

/// The constructors of the notation's rules, one for each kind of lexeme.
#[derive(Copy, Clone, Eq, PartialEq, Debug)]
pub enum BnfRule {
    Delimiter,
    Def,
    Alt,
    /// Takes the name between the triangle quotes from group 1.
    NonTerminal,
    /// Takes the text between the double quotes from group 1.
    Terminal,
}

impl<'a> TokenFactory<'a, BnfToken<'a>> for BnfRule {
    open spec fn token(&self, groups: Seq<Option<Seq<char>>>) -> BnfTokenView {
        match *self {
            BnfRule::Delimiter => BnfTokenView::Delimiter,
            BnfRule::Def => BnfTokenView::Operator(BnfOperator::Def),
            BnfRule::Alt => BnfTokenView::Operator(BnfOperator::Alt),
            BnfRule::NonTerminal => BnfTokenView::NonTerminal(group_text(groups, 1)),
            BnfRule::Terminal => BnfTokenView::Terminal(group_text(groups, 1)),
        }
    }

    fn create(&self, groups: &Captures<'a>) -> (made: BnfToken<'a>) {
        match self {
            BnfRule::Delimiter => BnfToken::Delimiter,
            BnfRule::Def => BnfToken::Operator(BnfOperator::Def),
            BnfRule::Alt => BnfToken::Operator(BnfOperator::Alt),
            BnfRule::NonTerminal => BnfToken::NonTerminal(groups.text(1)),
            BnfRule::Terminal => BnfToken::Terminal(groups.text(1)),
        }
    }
}

/// The patterns of the notation, in the order of their priority.
pub open spec fn patterns() -> Seq<Seq<char>> {
    seq![r";"@, r"::="@, r"\|"@, r"<(.+?)>"@, "\"(.*?)\""@]
}

/// The constructors of the notation, each at the index of its pattern.
pub open spec fn constructors() -> Seq<BnfRule> {
    seq![BnfRule::Delimiter, BnfRule::Def, BnfRule::Alt, BnfRule::NonTerminal, BnfRule::Terminal]
}

/// The engine of the notation.
pub type BnfLexer<'a> = Lexer<'a, BnfToken<'a>, BnfWhitespace, BnfRule>;

/// Builds the engine of the notation: its whitespace classifier and its five
/// rules. It fails only where the regex crate does not accept one of the
/// patterns.
pub fn make_lexer<'a>() -> (built: Result<BnfLexer<'a>, LexError>)
    ensures
        built is Ok <==> forall|i: int|
            0 <= i < patterns().len() ==> is_valid(#[trigger] patterns()[i]),
        built matches Ok(lexer) ==> {
            &&& lexer.patterns() == patterns()
            &&& lexer.constructors() == constructors()
            &&& lexer.classifier() == BnfWhitespace
        },
        built matches Err(e) ==> e@ == LexErrorView::invalid_pattern(),
{
    let builder = LexerBuilder::new().skip_whitespaces(BnfWhitespace).add(
        r";",
        BnfRule::Delimiter,
    ).add(r"::=", BnfRule::Def).add(r"\|", BnfRule::Alt).add(r"<(.+?)>", BnfRule::NonTerminal).add(
        "\"(.*?)\"",
        BnfRule::Terminal,
    );
    assert(builder.patterns() =~= patterns());
    assert(builder.constructors() =~= constructors());
    builder.build()
}

impl<'a> Token for BnfToken<'a> {
    open spec fn description(&self) -> Seq<char> {
        match *self {
            BnfToken::Terminal(s) => "\""@ + s@ + "\""@,
            BnfToken::NonTerminal(s) => "<"@ + s@ + ">"@,
            BnfToken::Operator(BnfOperator::Def) => "::="@,
            BnfToken::Operator(BnfOperator::Alt) => "|"@,
            BnfToken::Delimiter => ";"@,
        }
    }

    open spec fn category(&self) -> Seq<char> {
        match *self {
            BnfToken::Terminal(..) => "Terminal"@,
            BnfToken::NonTerminal(..) => "NonTerminal"@,
            BnfToken::Operator(BnfOperator::Def) => "::="@,
            BnfToken::Operator(BnfOperator::Alt) => "|"@,
            BnfToken::Delimiter => ";"@,
        }
    }

    fn describe(&self) -> (text: String) {
        match self {
            BnfToken::Terminal(s) => enclose("\"", s, "\""),
            BnfToken::NonTerminal(s) => enclose("<", s, ">"),
            BnfToken::Operator(BnfOperator::Def) => String::from_str("::="),
            BnfToken::Operator(BnfOperator::Alt) => String::from_str("|"),
            BnfToken::Delimiter => String::from_str(";"),
        }
    }

    fn descriptor(&self) -> (label: &'static str) {
        match self {
            BnfToken::Terminal(..) => "Terminal",
            BnfToken::NonTerminal(..) => "NonTerminal",
            BnfToken::Operator(BnfOperator::Def) => "::=",
            BnfToken::Operator(BnfOperator::Alt) => "|",
            BnfToken::Delimiter => ";",
        }
    }
}

/// The category of a token does not depend on its payload: two terminals
/// have one label, and so have two non-terminals.
pub proof fn lemma_category_ignores_payload(a: BnfToken, b: BnfToken)
    ensures
        a is Terminal && b is Terminal ==> a.category() == b.category(),
        a is NonTerminal && b is NonTerminal ==> a.category() == b.category(),
{
}

} // verus!
