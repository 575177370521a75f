//! The engine: an ordered table of rules behind a whitespace classifier, and
//! the one step that it takes on an input.
use crate::error::{LexError, LexErrorView};
use crate::pattern::{groups_of, is_valid, match_at_start, match_end, Pattern};
use crate::text::{after, before, lemma_empty_iff_no_bytes, len_of, str_after, str_before};
use crate::token::{is_tail_of, NoSkip, Token, TokenFactory, Whitespace};
use core::marker::PhantomData;
use vstd::prelude::*;
use vstd::string::*;

verus! {

/// A pattern and the constructor of the tokens that it stands for. The place
/// of a rule in the table is its priority.
struct Rule<C> {
    pattern: Pattern,
    constructor: C,
}

/// What one step of the engine finds.
pub enum Step<'a, T> {
    /// A rule matched: the token it made, the text it matched, and the input
    /// that is left behind it.
    Token { token: T, lexeme: &'a str, remaining: &'a str },
    /// Nothing but whitespace was left.
    EndOfInput,
    /// No rule matches the input that is left behind the whitespace.
    Unrecognized { remaining: &'a str },
}

/// What one step finds, over texts of any length.
pub enum StepView<V> {
    Token { token: V, lexeme: Seq<char>, remaining: Seq<char> },
    EndOfInput,
    Unrecognized { remaining: Seq<char> },
}

impl<'a, T: View> View for Step<'a, T> {
    type V = StepView<T::V>;

    open spec fn view(&self) -> StepView<T::V> {
        match *self {
            Step::Token { token, lexeme, remaining } => StepView::Token {
                token: token@,
                lexeme: lexeme@,
                remaining: remaining@,
            },
            Step::EndOfInput => StepView::EndOfInput,
            Step::Unrecognized { remaining } => StepView::Unrecognized { remaining: remaining@ },
        }
    }
}

impl<V> StepView<V> {
    /// The input that a step leaves behind the whitespace: the lexeme and
    /// what follows it, or what no rule matches, or nothing at the end.
    pub open spec fn unskipped(self) -> Seq<char> {
        match self {
            StepView::Token { token, lexeme, remaining } => lexeme + remaining,
            StepView::Unrecognized { remaining } => remaining,
            StepView::EndOfInput => Seq::empty(),
        }
    }

    /// Whether this can be a step on `input`: what it leaves behind the
    /// whitespace is the end of `input`, and a lexeme has a character in it.
    pub open spec fn parts(self, input: Seq<char>) -> bool {
        &&& is_tail_of(self.unskipped(), input)
        &&& self matches StepView::Token { token, lexeme, remaining } ==> lexeme.len() > 0
    }

    /// The whitespace that the step skipped at the start of `input`.
    pub open spec fn gap(self, input: Seq<char>) -> Seq<char> {
        input.take(input.len() - self.unskipped().len())
    }
}

/// The first rule from `from` on whose pattern matches at the start of
/// `text`, if there is one.
pub open spec fn first_match(patterns: Seq<Seq<char>>, text: Seq<char>, from: int) -> Option<int>
    decreases patterns.len() - from,
{
    if from < 0 || from >= patterns.len() {
        None
    } else if match_at_start(patterns[from], text) is Some {
        Some(from)
    } else {
        first_match(patterns, text, from + 1)
    }
}

/// The first match is a match, and no rule between `from` and it matches;
/// where there is none, no rule from `from` on matches.
pub proof fn lemma_first_match(patterns: Seq<Seq<char>>, text: Seq<char>, from: int)
    requires
        0 <= from,
    ensures
        match first_match(patterns, text, from) {
            Some(i) => {
                &&& from <= i < patterns.len()
                &&& match_at_start(patterns[i], text) is Some
                &&& forall|j: int| from <= j < i ==> match_at_start(patterns[j], text) is None
            },
            None => forall|j: int|
                from <= j < patterns.len() ==> match_at_start(patterns[j], text) is None,
        },
    decreases patterns.len() - from,
{
    if from < patterns.len() && match_at_start(patterns[from], text) is None {
        lemma_first_match(patterns, text, from + 1);
    }
}

/// Accumulates a whitespace classifier and an ordered list of rules, and
/// compiles them into a [`Lexer`].
pub struct LexerBuilder<'a, T, W, C> {
    whitespace: W,
    rules: Vec<(String, C)>,
    marker: PhantomData<&'a T>,
}

/// The compiled engine. It holds no state that a step changes, so any number
/// of streams may read from one engine.
pub struct Lexer<'a, T, W, C> {
    whitespace: W,
    rules: Vec<Rule<C>>,
    marker: PhantomData<&'a T>,
}

impl<'a, T: Token, C: TokenFactory<'a, T>> LexerBuilder<'a, T, NoSkip, C> {
    /// A builder without rules, whose classifier skips nothing.
    pub fn new() -> (builder: Self)
        ensures
            builder.patterns() == Seq::<Seq<char>>::empty(),
            builder.constructors() == Seq::<C>::empty(),
    {
        let builder = LexerBuilder { whitespace: NoSkip, rules: Vec::new(), marker: PhantomData };
        assert(builder.patterns() =~= Seq::<Seq<char>>::empty());
        assert(builder.constructors() =~= Seq::<C>::empty());
        builder
    }
}

impl<'a, T: Token, W: Whitespace, C: TokenFactory<'a, T>> LexerBuilder<'a, T, W, C> {
    /// The patterns registered so far, in the order of registration.
    pub closed spec fn patterns(&self) -> Seq<Seq<char>> {
        Seq::new(self.rules.len() as nat, |i: int| self.rules[i].0@)
    }

    /// The constructors registered so far, each at the index of its pattern.
    pub closed spec fn constructors(&self) -> Seq<C> {
        Seq::new(self.rules.len() as nat, |i: int| self.rules[i].1)
    }

    /// The whitespace classifier installed last.
    pub closed spec fn classifier(&self) -> W {
        self.whitespace
    }

    /// Installs the whitespace classifier, in place of the one before.
    pub fn skip_whitespaces<V: Whitespace>(self, classifier: V) -> (builder: LexerBuilder<
        'a,
        T,
        V,
        C,
    >)
        ensures
            builder.classifier() == classifier,
            builder.patterns() == self.patterns(),
            builder.constructors() == self.constructors(),
    {
        let builder = LexerBuilder { whitespace: classifier, rules: self.rules, marker: PhantomData };
        assert(builder.patterns() =~= self.patterns());
        assert(builder.constructors() =~= self.constructors());
        builder
    }

    /// Appends a rule. Its priority is its place in the order of
    /// registration: it yields to every rule added before it.
    pub fn add(self, pattern: &str, constructor: C) -> (builder: Self)
        ensures
            builder.patterns() == self.patterns().push(pattern@),
            builder.constructors() == self.constructors().push(constructor),
            builder.classifier() == self.classifier(),
    {
        let mut rules = self.rules;
        rules.push((String::from_str(pattern), constructor));
        let builder = LexerBuilder { whitespace: self.whitespace, rules, marker: PhantomData };
        assert(builder.patterns() =~= self.patterns().push(pattern@));
        assert(builder.constructors() =~= self.constructors().push(constructor));
        builder
    }

    /// Compiles the rules into an engine. Fails with `InvalidPattern` exactly
    /// where one of the patterns is not valid; no later call gives that
    /// error.
    pub fn build(self) -> (built: Result<Lexer<'a, T, W, C>, LexError>)
        ensures
            built is Ok <==> forall|i: int|
                0 <= i < self.patterns().len() ==> is_valid(#[trigger] self.patterns()[i]),
            built matches Ok(lexer) ==> {
                &&& lexer.patterns() == self.patterns()
                &&& lexer.constructors() == self.constructors()
                &&& lexer.classifier() == self.classifier()
            },
            built matches Err(e) ==> e@ == LexErrorView::invalid_pattern(),
    {
        let ghost patterns = self.patterns();
        let ghost constructors = self.constructors();
        let mut pending = self.rules;
        let mut rules: Vec<Rule<C>> = Vec::new();
        while pending.len() > 0
            invariant
                patterns == self.patterns(),
                constructors == self.constructors(),
                rules.len() + pending.len() == patterns.len(),
                patterns.len() == constructors.len(),
                forall|i: int|
                    0 <= i < rules.len() ==> (#[trigger] rules[i]).pattern@ == patterns[i]
                        && rules[i].constructor == constructors[i] && is_valid(patterns[i]),
                forall|i: int|
                    0 <= i < pending.len() ==> (#[trigger] pending[i]).0@ == patterns[rules.len()
                        + i] && pending[i].1 == constructors[rules.len() + i],
            decreases pending.len(),
        {
            let (source, constructor) = pending.remove(0);
            match Pattern::compile(source.as_str()) {
                Ok(pattern) => {
                    rules.push(Rule { pattern, constructor });
                },
                Err(_) => {
                    assert(!is_valid(patterns[rules.len() as int]));
                    return Err(LexError::invalid_pattern());
                },
            }
        }
        let lexer = Lexer { whitespace: self.whitespace, rules, marker: PhantomData };
        assert(lexer.patterns() =~= patterns);
        assert(lexer.constructors() =~= constructors);
        Ok(lexer)
    }
}

impl<'a, T: Token, W: Whitespace, C: TokenFactory<'a, T>> Lexer<'a, T, W, C> {
    /// The patterns of the rules, in the order of registration.
    pub closed spec fn patterns(&self) -> Seq<Seq<char>> {
        Seq::new(self.rules.len() as nat, |i: int| self.rules[i].pattern@)
    }

    /// The constructors of the rules, each at the index of its pattern.
    pub closed spec fn constructors(&self) -> Seq<C> {
        Seq::new(self.rules.len() as nat, |i: int| self.rules[i].constructor)
    }

    /// The whitespace classifier.
    pub closed spec fn classifier(&self) -> W {
        self.whitespace
    }

    /// The rule that wins at the start of `text`: the first in the order of
    /// registration whose pattern matches there, however much it matches.
    pub open spec fn winner(&self, text: Seq<char>) -> Option<int> {
        first_match(self.patterns(), text, 0)
    }

    /// What rule `rule` makes of the start of `text`, where its pattern
    /// matches there.
    pub open spec fn apply(&self, rule: int, text: Seq<char>) -> StepView<T::V> {
        let spans = match_at_start(self.patterns()[rule], text)->0;
        let end = match_end(spans);
        StepView::Token {
            token: self.constructors()[rule].token(groups_of(text, spans)),
            lexeme: before(text, end),
            remaining: after(text, end),
        }
    }

    /// What one step finds on `input`: behind the whitespace, the end of the
    /// input, the token of the winning rule, or input that no rule matches.
    pub open spec fn step_spec(&self, input: Seq<char>) -> StepView<T::V> {
        let text = self.classifier().rest(input);
        if text.len() == 0 {
            StepView::EndOfInput
        } else {
            match self.winner(text) {
                Some(rule) => self.apply(rule, text),
                None => StepView::Unrecognized { remaining: text },
            }
        }
    }

    /// Takes one step on `input`: skips the whitespace, then tries the rules
    /// in the order of registration. The first whose pattern matches at the
    /// cursor makes the token.
    pub fn step(&self, input: &'a str) -> (found: Step<'a, T>)
        ensures
            found@ == self.step_spec(input@),
    {
        let text = self.whitespace.skip(input);
        proof {
            lemma_empty_iff_no_bytes(text@);
        }
        if len_of(text) == 0 {
            return Step::EndOfInput;
        }
        let mut i: usize = 0;
        while i < self.rules.len()
            invariant
                0 <= i <= self.rules.len(),
                text@ == self.classifier().rest(input@),
                text@.len() > 0,
                first_match(self.patterns(), text@, 0) == first_match(
                    self.patterns(),
                    text@,
                    i as int,
                ),
            decreases self.rules.len() - i,
        {
            assert(self.patterns()[i as int] == self.rules[i as int].pattern@);
            match self.rules[i].pattern.match_at(text) {
                Some(groups) => {
                    let end = groups.end();
                    let token = self.rules[i].constructor.create(&groups);
                    let lexeme = str_before(text, end);
                    let remaining = str_after(text, end);
                    assert(self.constructors()[i as int] == self.rules[i as int].constructor);
                    return Step::Token { token, lexeme, remaining };
                },
                None => {},
            }
            i = i + 1;
        }
        Step::Unrecognized { remaining: text }
    }
}

} // verus!
