//! What holds of every engine, every text and every stream.
use crate::lexer::{lemma_first_match, Lexer, StepView};
use crate::pattern::match_at_start;
use crate::position::{lemma_advance_bounds, lemma_advance_concat, Place};
use crate::text::{
    before, byte_len, lemma_cut_between_parts, lemma_encode_concat, lemma_span_of_prefix,
    on_boundary, span,
};
use crate::stream::{Item, TokenSource, Tokens, TokensView};
use crate::token::{Token, TokenFactory, Whitespace};
use vstd::prelude::*;

verus! {

/// Priority. Where the patterns of two rules both match at the cursor, the
/// rule registered later does not win, however much text its pattern
/// matches: the winner is the earlier rule or one registered before it, and
/// it is the earlier rule where none before it matches.
pub proof fn lemma_earlier_rule_wins<'a, T: Token, W: Whitespace, C: TokenFactory<'a, T>>(
    lexer: Lexer<'a, T, W, C>,
    text: Seq<char>,
    earlier: int,
    later: int,
)
    requires
        0 <= earlier < later < lexer.patterns().len(),
        match_at_start(lexer.patterns()[earlier], text) is Some,
        match_at_start(lexer.patterns()[later], text) is Some,
    ensures
        lexer.winner(text) matches Some(rule) && rule <= earlier && rule != later,
        (forall|i: int| 0 <= i < earlier ==> match_at_start(lexer.patterns()[i], text) is None)
            ==> lexer.winner(text) == Some(earlier),
{
    lemma_first_match(lexer.patterns(), text, 0);
}

/// The winner decides the step: behind the whitespace, the step is what the
/// first matching rule makes of the text, whatever the rules behind it would
/// match.
pub proof fn lemma_step_is_the_winners<'a, T: Token, W: Whitespace, C: TokenFactory<'a, T>>(
    lexer: Lexer<'a, T, W, C>,
    input: Seq<char>,
    rule: int,
)
    requires
        0 <= rule < lexer.patterns().len(),
        lexer.classifier().rest(input).len() > 0,
        match_at_start(lexer.patterns()[rule], lexer.classifier().rest(input)) is Some,
        forall|i: int|
            0 <= i < rule ==> match_at_start(
                lexer.patterns()[i],
                lexer.classifier().rest(input),
            ) is None,
    ensures
        lexer.step_spec(input) == lexer.apply(rule, lexer.classifier().rest(input)),
{
    lemma_first_match(lexer.patterns(), lexer.classifier().rest(input), 0);
}

/// Determinism. Two streams that were opened on their own over the same text,
/// under the same name and with the same engine have the same items to
/// yield.
pub proof fn lemma_streams_agree<'l, 'm, 'a, T: Token, W: Whitespace, C: TokenFactory<'a, T>>(
    first: Tokens<'l, 'a, T, W, C>,
    second: Tokens<'m, 'a, T, W, C>,
)
    requires
        first@.lexer == second@.lexer,
        first@.remaining == second@.remaining,
        first@.source_name == second@.source_name,
        first@.position == Place::start(),
        second@.position == Place::start(),
        !first@.halted,
        !second@.halted,
    ensures
        first.pending() == second.pending(),
{
}

/// End of input. A source that holds nothing but whitespace, as the
/// classifier sees it, yields no token and no error.
pub proof fn lemma_blank_source_yields_nothing<
    'a,
    T: Token,
    W: Whitespace,
    C: TokenFactory<'a, T>,
>(lexer: Lexer<'a, T, W, C>, input: Seq<char>, at: Place, name: Seq<char>)
    requires
        lexer.classifier().rest(input).len() == 0,
    ensures
        lexer.step_spec(input) is EndOfInput,
        lexer.items(input, at, name) == Seq::<Item<T::V>>::empty(),
{
}

/// A stream is finite: it yields no more items than its text has characters.
pub proof fn lemma_items_are_bounded<'a, T: Token, W: Whitespace, C: TokenFactory<'a, T>>(
    lexer: Lexer<'a, T, W, C>,
    input: Seq<char>,
    at: Place,
    name: Seq<char>,
)
    ensures
        lexer.items(input, at, name).len() <= input.len(),
    decreases input.len(),
{
    lexer.lemma_step_parts_input(input);
    match lexer.step_spec(input) {
        StepView::Token { token, lexeme, remaining } => {
            let start = at.advance(lexer.skipped(input));
            lemma_items_are_bounded(lexer, remaining, start.advance(lexeme), name);
        },
        StepView::Unrecognized { remaining } => {
            lexer.classifier().lemma_rest_is_tail(input);
        },
        StepView::EndOfInput => {},
    }
}

/// An error ends the stream: every item but the last is a token.
pub proof fn lemma_error_comes_last<'a, T: Token, W: Whitespace, C: TokenFactory<'a, T>>(
    lexer: Lexer<'a, T, W, C>,
    input: Seq<char>,
    at: Place,
    name: Seq<char>,
)
    ensures
        forall|i: int|
            0 <= i < lexer.items(input, at, name).len() - 1 ==> (#[trigger] lexer.items(
                input,
                at,
                name,
            )[i]) is Ok,
    decreases input.len(),
{
    lexer.lemma_step_parts_input(input);
    match lexer.step_spec(input) {
        StepView::Token { token, lexeme, remaining } => {
            let start = at.advance(lexer.skipped(input));
            lemma_error_comes_last(lexer, remaining, start.advance(lexeme), name);
        },
        _ => {},
    }
}

/// Where an item of the model lies: the position of a token or of an error.
pub open spec fn place_of<V>(item: Item<V>) -> Option<Place> {
    match item {
        Ok(meta) => Some(meta.position),
        Err(e) => e.position,
    }
}

/// Positions are true to the source. Let a stream have read `read` of a
/// source and stand in front of `input`, at the place that `read` leads to.
/// Then every item that it yields lies at an offset of the source between
/// two characters, not in what was read; its line and column are those that
/// the source before that offset leads to; and the lexeme of a token is the
/// piece of the source that begins at that offset.
pub proof fn lemma_positions_are_true<'a, T: Token, W: Whitespace, C: TokenFactory<'a, T>>(
    lexer: Lexer<'a, T, W, C>,
    read: Seq<char>,
    input: Seq<char>,
    name: Seq<char>,
    i: int,
)
    requires
        0 <= i < lexer.items(input, Place::start().advance(read), name).len(),
    ensures
        ({
            let source = read + input;
            let item = lexer.items(input, Place::start().advance(read), name)[i];
            &&& place_of(item) matches Some(at)
            &&& byte_len(read) <= at.byte_offset
            &&& on_boundary(source, at.byte_offset)
            &&& at == Place::start().advance(before(source, at.byte_offset))
            &&& item matches Ok(meta) ==> {
                &&& on_boundary(source, at.byte_offset + byte_len(meta.lexeme))
                &&& meta.lexeme == span(
                    source,
                    at.byte_offset,
                    at.byte_offset + byte_len(meta.lexeme),
                )
                &&& meta.source_name == name
            }
        }),
    decreases input.len(),
{
    let source = read + input;
    let from = Place::start().advance(read);
    let gap = lexer.skipped(input);
    let start = from.advance(gap);
    let found = lexer.step_spec(input);
    lexer.lemma_step_parts_input(input);
    let rest = found.unskipped();
    assert(gap + rest =~= input);
    assert(source =~= (read + gap) + rest);
    lemma_advance_concat(Place::start(), read, gap);
    lemma_advance_bounds(Place::start(), read + gap);
    lemma_cut_between_parts(read + gap, rest);
    lemma_encode_concat(read, gap);
    match found {
        StepView::Token { token, lexeme, remaining } => {
            let head = read + gap + lexeme;
            assert(source =~= head + remaining);
            lemma_cut_between_parts(head, remaining);
            lemma_encode_concat(read + gap, lexeme);
            lemma_cut_between_parts(read + gap, lexeme);
            lemma_span_of_prefix(source, byte_len(read + gap) as int, byte_len(head) as int);
            if i > 0 {
                lemma_advance_concat(Place::start(), read + gap, lexeme);
                lemma_positions_are_true(lexer, head, remaining, name, i - 1);
                assert(lexer.items(input, from, name)[i] == lexer.items(
                    remaining,
                    start.advance(lexeme),
                    name,
                )[i - 1]);
            }
        },
        _ => {},
    }
}

/// The cursor never moves backwards: a step leaves the position where it was
/// or behind it, and a token moves it by at least one byte.
pub proof fn lemma_cursor_moves_forward<'a, T: Token, W, C>(
    state: TokensView<'a, T, W, C>,
    found: StepView<T::V>,
)
    requires
        found.parts(state.remaining),
        state.position.column >= 1,
    ensures
        state.position.reaches(state.follows(found).position),
        found is Token ==> state.position.byte_offset < state.follows(found).position.byte_offset,
{
    let gap = found.gap(state.remaining);
    lemma_advance_bounds(state.position, gap);
    if let StepView::Token { token, lexeme, remaining } = found {
        let start = state.position.advance(gap);
        lemma_advance_bounds(start, lexeme);
        crate::text::lemma_empty_iff_no_bytes(lexeme);
    }
}

/// Shared engine. A pull moves the cursor of its own stream and leaves the
/// engine as it was, so what another stream over the same engine has yet to
/// yield is what it was before the pull.
pub proof fn lemma_pull_keeps_engine<'a, T: Token, W: Whitespace, C: TokenFactory<'a, T>>(
    pulled: TokensView<'a, T, W, C>,
    other: TokensView<'a, T, W, C>,
)
    requires
        pulled.lexer == other.lexer,
    ensures
        ({
            let after = pulled.follows(pulled.lexer.step_spec(pulled.remaining));
            &&& after.lexer == other.lexer
            &&& after.source_name == pulled.source_name
            &&& after.lexer.items(other.remaining, other.position, other.source_name)
                == other.lexer.items(other.remaining, other.position, other.source_name)
        }),
{
}

} // verus!
