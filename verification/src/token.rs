//! What a front-end supplies: its tokens, the constructors that make them, and
//! its notion of whitespace.
use crate::pattern::Captures;
use vstd::prelude::*;

verus! {

/// What the engine asks of every token type, for diagnostics.
pub trait Token: View {
    /// The token as a reader would write it, payload included.
    spec fn description(&self) -> Seq<char>;

    /// The name of the token's category, whatever its payload.
    spec fn category(&self) -> Seq<char>;

    /// Renders the token with its payload.
    fn describe(&self) -> (text: String)
        ensures
            text@ == self.description(),
    ;

    /// The stable label of the token's category.
    fn descriptor(&self) -> (label: &'static str)
        ensures
            label@ == self.category(),
    ;
}

/// The constructor of a rule: makes a token of what the rule's pattern
/// matched. It is total: whatever the groups hold, a token comes out.
pub trait TokenFactory<'a, T: View> {
    /// The token made of the text of each group; group 0 is the lexeme.
    spec fn token(&self, groups: Seq<Option<Seq<char>>>) -> T::V;

    /// Makes the token of one match.
    fn create(&self, groups: &Captures<'a>) -> (made: T)
        ensures
            made@ == self.token(groups@),
    ;
}

/// Whether `rest` is the end of `text`.
pub open spec fn is_tail_of(rest: Seq<char>, text: Seq<char>) -> bool {
    rest.len() <= text.len() && text.skip(text.len() - rest.len()) == rest
}

/// A whitespace classifier: says where the insignificant text at the start of
/// an input ends. The engine has no notion of whitespace of its own.
pub trait Whitespace {
    /// What is left of `text` behind its leading whitespace.
    spec fn rest(&self, text: Seq<char>) -> Seq<char>;

    /// What is left is the end of the text, and no longer than it.
    proof fn lemma_rest_is_tail(&self, text: Seq<char>)
        ensures
            is_tail_of(self.rest(text), text),
    ;

    /// Skipping twice skips no more than skipping once.
    proof fn lemma_rest_is_stable(&self, text: Seq<char>)
        ensures
            self.rest(self.rest(text)) == self.rest(text),
    ;

    /// Skips the leading whitespace of `text`.
    fn skip<'a>(&self, text: &'a str) -> (rest: &'a str)
        ensures
            rest@ == self.rest(text@),
    ;
}

/// The classifier of a notation without whitespace: it skips nothing.
pub struct NoSkip;

impl Whitespace for NoSkip {
    open spec fn rest(&self, text: Seq<char>) -> Seq<char> {
        text
    }

    proof fn lemma_rest_is_tail(&self, text: Seq<char>) {
        assert(text.skip(0) =~= text);
    }

    proof fn lemma_rest_is_stable(&self, text: Seq<char>) {
    }

    fn skip<'a>(&self, text: &'a str) -> (rest: &'a str) {
        text
    }
}

} // verus!
