//! Streams: a cursor over one source text that pulls tokens from an engine,
//! one at a time, and keeps the position of each.
use crate::error::{LexError, LexErrorView};
use crate::lexer::{lemma_first_match, Lexer, Step, StepView};
use crate::pattern::lemma_match_parts_text;
use crate::position::{lemma_advance_bounds, Place, Position};
use crate::text::{
    byte_len, lemma_chars_fit_in_bytes, lemma_cut_between_parts, lemma_encode_concat, len_of,
    str_after, str_before,
};
use crate::token::{Token, TokenFactory, Whitespace};
use vstd::prelude::*;

verus! {

/// A token with where it was found: the position at which its lexeme
/// begins, the name of the source, and the lexeme.
#[derive(Debug, PartialEq, Eq)]
pub struct TokenMeta<'a, T> {
    pub token: T,
    pub position: Position,
    pub source_name: &'a str,
    pub lexeme: &'a str,
}

/// A [`TokenMeta`] over texts of any length.
pub struct TokenMetaView<V> {
    pub token: V,
    pub position: Place,
    pub source_name: Seq<char>,
    pub lexeme: Seq<char>,
}

impl<'a, T: View> View for TokenMeta<'a, T> {
    type V = TokenMetaView<T::V>;

    open spec fn view(&self) -> TokenMetaView<T::V> {
        TokenMetaView {
            token: self.token@,
            position: self.position@,
            source_name: self.source_name@,
            lexeme: self.lexeme@,
        }
    }
}

/// What a stream yields: a token with its metadata, or the error that ends
/// the stream.
pub type MetaResult<'a, T> = Result<TokenMeta<'a, T>, LexError>;

/// What a stream yields, over texts of any length.
pub type Item<V> = Result<TokenMetaView<V>, LexErrorView>;

/// One yielded item as a value of the model.
pub open spec fn item_view<'a, T: View>(item: MetaResult<'a, T>) -> Item<T::V> {
    match item {
        Ok(meta) => Ok(meta@),
        Err(e) => Err(e@),
    }
}

/// Yielded items as values of the model.
pub open spec fn items_view<'a, T: View>(items: Seq<MetaResult<'a, T>>) -> Seq<Item<T::V>> {
    Seq::new(items.len(), |i: int| item_view(items[i]))
}

impl<'a, T: Token, W: Whitespace, C: TokenFactory<'a, T>> Lexer<'a, T, W, C> {
    /// The whitespace that a step skips at the start of `input`.
    pub open spec fn skipped(&self, input: Seq<char>) -> Seq<char> {
        input.take(input.len() - self.classifier().rest(input).len())
    }

    /// Everything that a stream yields whose cursor stands at `at`, in front
    /// of `input`, in a source named `name`: the tokens in the order of the
    /// text, each at the position where its lexeme begins, and behind them one
    /// error if the engine comes upon input that no rule matches.
    pub open spec fn items(&self, input: Seq<char>, at: Place, name: Seq<char>) -> Seq<Item<T::V>>
        decreases input.len(),
    {
        let start = at.advance(self.skipped(input));
        match self.step_spec(input) {
            StepView::EndOfInput => Seq::empty(),
            StepView::Unrecognized { remaining } => seq![Err(LexErrorView::unrecognized(start))],
            StepView::Token { token, lexeme, remaining } => {
                proof {
                    self.lemma_step_parts_input(input);
                }
                seq![
                    Ok(TokenMetaView { token, position: start, source_name: name, lexeme }),
                ] + self.items(remaining, start.advance(lexeme), name)
            },
        }
    }

    /// A step parts the input in the whitespace it skips and what it leaves
    /// behind the whitespace; a lexeme has a character in it, so what is left
    /// behind a token is shorter than the input.
    pub proof fn lemma_step_parts_input(&self, input: Seq<char>)
        ensures
            self.step_spec(input).unskipped() == self.classifier().rest(input),
            self.step_spec(input).gap(input) == self.skipped(input),
            self.step_spec(input).parts(input),
            self.step_spec(input) matches StepView::Token { token, lexeme, remaining }
                ==> remaining.len() < input.len(),
    {
        let text = self.classifier().rest(input);
        self.classifier().lemma_rest_is_tail(input);
        if text.len() > 0 {
            match self.winner(text) {
                Some(rule) => {
                    lemma_first_match(self.patterns(), text, 0);
                    lemma_match_parts_text(self.patterns()[rule], text);
                },
                None => {},
            }
        } else {
            assert(text =~= Seq::<char>::empty());
        }
    }
}

/// A source of tokens: a stream, or an adapter around one. It is known by
/// the items it has yet to yield, which are finitely many, and yields them
/// one by one, each computed when it is asked for.
pub trait TokenSource<'a, T: View> {
    /// The items that are yet to come, in order.
    spec fn pending(&self) -> Seq<Item<T::V>>;

    /// Yields the next item, or `None` when there is none left.
    fn next_token(&mut self) -> (item: Option<MetaResult<'a, T>>)
        ensures
            match item {
                Some(found) => {
                    &&& old(self).pending().len() > 0
                    &&& item_view(found) == old(self).pending()[0]
                    &&& final(self).pending() == old(self).pending().drop_first()
                },
                None => old(self).pending().len() == 0 && final(self).pending().len() == 0,
            },
    ;
}

/// Pulls a source until it ends, and hands out all that it yielded.
pub fn collect<'a, T: View, S: TokenSource<'a, T>>(source: &mut S) -> (items: Vec<MetaResult<'a, T>>)
    ensures
        items_view(items@) == old(source).pending(),
        final(source).pending().len() == 0,
{
    let mut items: Vec<MetaResult<'a, T>> = Vec::new();
    loop
        invariant
            items_view(items@) + source.pending() == old(source).pending(),
        decreases source.pending().len(),
    {
        let ghost before = source.pending();
        match source.next_token() {
            Some(item) => {
                items.push(item);
                assert(items_view(items@) + source.pending() =~= items_view(
                    items@.drop_last(),
                ) + before);
            },
            None => {
                assert(items_view(items@) + source.pending() =~= items_view(items@));
                return items;
            },
        }
    }
}

/// A stream over one source text. It owns its cursor; the engine it reads
/// from is shared.
pub struct Tokens<'l, 'a, T, W, C> {
    lexer: &'l Lexer<'a, T, W, C>,
    remaining: &'a str,
    position: Position,
    source_name: &'a str,
    halted: bool,
}

/// The state of a stream: the engine, the text that is left, the position of
/// its first character, the name of the source, and whether an error has
/// ended the stream.
pub struct TokensView<'a, T, W, C> {
    pub lexer: Lexer<'a, T, W, C>,
    pub remaining: Seq<char>,
    pub position: Place,
    pub source_name: Seq<char>,
    pub halted: bool,
}

impl<'l, 'a, T: Token, W: Whitespace, C: TokenFactory<'a, T>> View for Tokens<'l, 'a, T, W, C> {
    type V = TokensView<'a, T, W, C>;

    closed spec fn view(&self) -> TokensView<'a, T, W, C> {
        TokensView {
            lexer: *self.lexer,
            remaining: self.remaining@,
            position: self.position@,
            source_name: self.source_name@,
            halted: self.halted,
        }
    }
}

impl<'l, 'a, T, W, C> Tokens<'l, 'a, T, W, C> {
    #[verifier::type_invariant]
    spec fn counters_have_room(&self) -> bool {
        &&& 1 <= self.position.line <= self.position.byte_offset + 1
        &&& 1 <= self.position.column <= self.position.byte_offset + 1
        &&& self.position.byte_offset + byte_len(self.remaining@) < usize::MAX
    }
}

impl<'a, T: View, W, C> TokensView<'a, T, W, C> {
    /// The position behind the whitespace that `found` skipped: where its
    /// lexeme begins, or the input that no rule matches, or the text ends.
    pub open spec fn start_of(self, found: StepView<T::V>) -> Place {
        self.position.advance(found.gap(self.remaining))
    }

    /// What a stream in this state yields on the step `found`: the token at
    /// the position where its lexeme begins, the error at the position of
    /// the input that no rule matches, or nothing at the end of the input.
    pub open spec fn yields(self, found: StepView<T::V>) -> Option<Item<T::V>> {
        match found {
            StepView::Token { token, lexeme, remaining } => Some(
                Ok(
                    TokenMetaView {
                        token,
                        position: self.start_of(found),
                        source_name: self.source_name,
                        lexeme,
                    },
                ),
            ),
            StepView::Unrecognized { remaining } => Some(
                Err(LexErrorView::unrecognized(self.start_of(found))),
            ),
            StepView::EndOfInput => None,
        }
    }

    /// The state of the stream behind the step `found`: the cursor stands
    /// behind the lexeme, or at the end of the text, or, halted, at the input
    /// that no rule matches.
    pub open spec fn follows(self, found: StepView<T::V>) -> Self {
        match found {
            StepView::Token { token, lexeme, remaining } => TokensView {
                remaining,
                position: self.start_of(found).advance(lexeme),
                ..self
            },
            StepView::Unrecognized { remaining } => TokensView {
                remaining,
                position: self.start_of(found),
                halted: true,
                ..self
            },
            StepView::EndOfInput => TokensView {
                remaining: Seq::empty(),
                position: self.start_of(found),
                ..self
            },
        }
    }
}

impl<'l, 'a, T: Token, W: Whitespace, C: TokenFactory<'a, T>> Tokens<'l, 'a, T, W, C> {
    /// Opens a stream over `text` at line 1, column 1, offset 0. The text
    /// must leave the counters room for one more than its bytes.
    pub fn open(lexer: &'l Lexer<'a, T, W, C>, text: &'a str, source_name: &'a str) -> (stream:
        Self)
        requires
            byte_len(text@) < usize::MAX,
        ensures
            stream@.lexer == *lexer,
            stream@.remaining == text@,
            stream@.position == Place::start(),
            stream@.source_name == source_name@,
            !stream@.halted,
    {
        Tokens { lexer, remaining: text, position: Position::start(), source_name, halted: false }
    }

    /// Opens a stream over `text` as [`Tokens::open`] does, where the text
    /// leaves the counters room, and none where it does not.
    pub fn try_open(
        lexer: &'l Lexer<'a, T, W, C>,
        text: &'a str,
        source_name: &'a str,
    ) -> (opened: Option<Self>)
        ensures
            opened is Some <==> byte_len(text@) < usize::MAX,
            opened matches Some(stream) ==> {
                &&& stream@.lexer == *lexer
                &&& stream@.remaining == text@
                &&& stream@.position == Place::start()
                &&& stream@.source_name == source_name@
                &&& !stream@.halted
            },
    {
        if len_of(text) < usize::MAX {
            Some(Self::open(lexer, text, source_name))
        } else {
            None
        }
    }

    /// The position of the cursor: behind the last token that was yielded
    /// or, once the stream has ended, where it ended.
    pub fn position(&self) -> (p: Position)
        ensures
            p@ == self@.position,
    {
        self.position
    }

    /// The text that the stream has not read.
    pub fn remaining(&self) -> (text: &'a str)
        ensures
            text@ == self@.remaining,
    {
        self.remaining
    }

    /// The name of the source.
    pub fn source_name(&self) -> (name: &'a str)
        ensures
            name@ == self@.source_name,
    {
        self.source_name
    }

    /// Whether an error has ended the stream.
    pub fn is_halted(&self) -> (halted: bool)
        ensures
            halted == self@.halted,
    {
        self.halted
    }

    /// Moves the cursor over one step on the text that is left, and hands out
    /// what the step yields. The position is counted over the text that the
    /// step consumed: first the whitespace, then the lexeme.
    pub fn consume(&mut self, found: Step<'a, T>) -> (item: Option<MetaResult<'a, T>>)
        requires
            !old(self)@.halted,
            found@.parts(old(self)@.remaining),
        ensures
            final(self)@ == old(self)@.follows(found@),
            match item {
                Some(made) => old(self)@.yields(found@) == Some(item_view(made)),
                None => old(self)@.yields(found@) is None,
            },
    {
        proof {
            use_type_invariant(&*self);
        }
        let input = self.remaining;
        let lexer = self.lexer;
        let source_name = self.source_name;
        let ghost gap = found@.gap(input@);
        proof {
            assert(gap + found@.unskipped() =~= input@);
            lemma_cut_between_parts(gap, found@.unskipped());
            lemma_encode_concat(gap, found@.unskipped());
            lemma_chars_fit_in_bytes(gap);
            lemma_advance_bounds(self.position@, gap);
        }
        match found {
            Step::EndOfInput => {
                let position = self.position.advance(input);
                let remaining = str_after(input, len_of(input));
                proof {
                    assert(gap =~= input@);
                    assert(input@ + Seq::<char>::empty() =~= input@);
                    lemma_cut_between_parts(input@, Seq::empty());
                }
                *self = Tokens { lexer, remaining, position, source_name, halted: false };
                None
            },
            Step::Unrecognized { remaining } => {
                let skipped = str_before(input, len_of(input) - len_of(remaining));
                let position = self.position.advance(skipped);
                *self = Tokens { lexer, remaining, position, source_name, halted: true };
                Some(Err(LexError::unrecognized(position)))
            },
            Step::Token { token, lexeme, remaining } => {
                proof {
                    lemma_encode_concat(lexeme@, remaining@);
                }
                let skipped = str_before(
                    input,
                    len_of(input) - len_of(lexeme) - len_of(remaining),
                );
                let start = self.position.advance(skipped);
                proof {
                    lemma_chars_fit_in_bytes(lexeme@);
                    lemma_advance_bounds(start@, lexeme@);
                }
                let position = start.advance(lexeme);
                *self = Tokens { lexer, remaining, position, source_name, halted: false };
                Some(Ok(TokenMeta { token, position: start, source_name, lexeme }))
            },
        }
    }
}

impl<'l, 'a, T: Token, W: Whitespace, C: TokenFactory<'a, T>> TokenSource<'a, T> for Tokens<
    'l,
    'a,
    T,
    W,
    C,
> {
    open spec fn pending(&self) -> Seq<Item<T::V>> {
        if self@.halted {
            Seq::empty()
        } else {
            self@.lexer.items(self@.remaining, self@.position, self@.source_name)
        }
    }

    /// Pulls one item: takes one step of the engine on the text that is left
    /// and moves the cursor over it. A halted stream yields nothing and stays
    /// as it is. The engine is read, never changed.
    fn next_token(&mut self) -> (item: Option<MetaResult<'a, T>>)
        ensures
            final(self)@ == if old(self)@.halted {
                old(self)@
            } else {
                old(self)@.follows(old(self)@.lexer.step_spec(old(self)@.remaining))
            },
    {
        if self.halted {
            return None;
        }
        let found = self.lexer.step(self.remaining);
        proof {
            self@.lexer.lemma_step_parts_input(self@.remaining);
            self@.lexer.classifier().lemma_rest_is_tail(Seq::empty());
        }
        self.consume(found)
    }
}

} // verus!
