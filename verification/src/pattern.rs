//! Patterns: the one place where the engine meets the regex crate.
//!
//! The engine does not know what a pattern means. It compiles each pattern
//! once, asks the compiled pattern what it finds at the cursor, and is
//! verified against the names below for whatever the answer is.
use crate::text::{
    after, before, byte_len, lemma_cut_on_boundary, lemma_empty_iff_no_bytes, on_boundary, span,
    str_span,
};
use regex::Regex;
use vstd::prelude::*;
use vstd::string::*;

verus! {

/// Declares `regex::Regex`, a compiled pattern. Nothing is known of what is
/// inside one but what the names below say.
#[verifier::external_type_specification]
#[verifier::external_body]
pub struct ExRegex(regex::Regex);

/// Declares `regex::Error`, the reason why a pattern was not accepted.
#[verifier::external_type_specification]
#[verifier::external_body]
pub struct ExRegexError(regex::Error);

/// The pattern text that a compiled regex was made from, as
/// `regex::Regex::as_str` gives it back.
pub uninterp spec fn regex_source(re: Regex) -> Seq<char>;

/// Whether `regex::Regex::new` accepts `pattern`.
pub uninterp spec fn pattern_compiles(pattern: Seq<char>) -> bool;

/// What `regex::Regex::captures` reports for the regex compiled from
/// `pattern` on the haystack `text`: `None` where nothing in `text` matches,
/// else for each group of the leftmost match the byte offsets where it begins
/// and ends, or `None` for a group that took no part. Group 0 is the match as
/// a whole.
pub uninterp spec fn pattern_captures(pattern: Seq<char>, text: Seq<char>) -> Option<
    Seq<Option<(int, int)>>,
>;

/// Where the groups of a match lie in the haystack, in bytes.
pub type Spans = Vec<Option<(usize, usize)>>;

/// The spans of a match as offsets of any size.
pub open spec fn spans_view(spans: Seq<Option<(usize, usize)>>) -> Seq<Option<(int, int)>> {
    Seq::new(
        spans.len(),
        |i: int|
            match spans[i] {
                Some((from, to)) => Some((from as int, to as int)),
                None => None,
            },
    )
}

/// What a search reported, as offsets of any size.
pub open spec fn found_view(found: Option<Spans>) -> Option<Seq<Option<(int, int)>>> {
    match found {
        Some(spans) => Some(spans_view(spans@)),
        None => None,
    }
}

/// Whether a span lies in `text` and begins and ends between characters.
pub open spec fn span_fits(text: Seq<char>, from: int, to: int) -> bool {
    from <= to && on_boundary(text, from) && on_boundary(text, to)
}

/// Whether each span lies in `text` and begins and ends between characters,
/// and the match as a whole is among them.
pub open spec fn spans_fit(text: Seq<char>, spans: Seq<Option<(int, int)>>) -> bool {
    &&& spans.len() > 0
    &&& spans[0] is Some
    &&& forall|i: int|
        0 <= i < spans.len() ==> (#[trigger] spans[i] matches Some((from, to)) ==> span_fits(
            text,
            from,
            to,
        ))
}

/// Calls `regex::Regex::new`. The contract names whether the pattern is
/// accepted, and says that the regex remembers the pattern it was given.
#[verifier::external_body]
fn regex_new(pattern: &str) -> (made: Result<Regex, regex::Error>)
    ensures
        made is Ok <==> pattern_compiles(pattern@),
        made matches Ok(re) ==> regex_source(re) == pattern@,
{
    Regex::new(pattern)
}

/// Calls `regex::Regex::captures` and hands out the byte offsets of each
/// group, read with `Match::start` and `Match::end`. The contract names the
/// result and claims nothing else of it.
#[verifier::external_body]
fn regex_captures(re: &Regex, text: &str) -> (found: Option<Spans>)
    ensures
        found_view(found) == pattern_captures(regex_source(*re), text@),
{
    re.captures(text).map(|groups| groups.iter().map(|g| g.map(|m| (m.start(), m.end()))).collect())
}

/// The text of each group of a match: `None` for a group that took no part.
pub open spec fn groups_of(text: Seq<char>, spans: Seq<Option<(int, int)>>) -> Seq<
    Option<Seq<char>>,
> {
    Seq::new(
        spans.len(),
        |i: int|
            match spans[i] {
                Some((from, to)) => Some(span(text, from, to)),
                None => None,
            },
    )
}

/// The text of group `i`, or no text where the group is missing or took no
/// part in the match.
pub open spec fn group_text(groups: Seq<Option<Seq<char>>>, i: int) -> Seq<char> {
    if 0 <= i < groups.len() {
        match groups[i] {
            Some(piece) => piece,
            None => Seq::empty(),
        }
    } else {
        Seq::empty()
    }
}

/// The byte offset at which the match as a whole ends.
pub open spec fn match_end(spans: Seq<Option<(int, int)>>) -> int {
    match spans[0] {
        Some((_, to)) => to,
        None => 0,
    }
}

/// The pattern as the engine compiles it: `pattern` in a group of its own
/// behind `^`, so that it matches at the start of what is searched or not at
/// all. The group does not capture, so the groups of `pattern` keep their
/// numbers.
pub open spec fn anchored(pattern: Seq<char>) -> Seq<char> {
    seq!['^', '(', '?', ':'] + pattern + seq![')']
}

/// Whether the engine takes `pattern`: the regex crate accepts it as it is
/// written, and accepts it anchored. The first keeps out a pattern whose
/// brackets only the anchor's group would balance; the second, one that
/// leaves the closing bracket of that group without effect, as a comment of
/// the verbose syntax does that no newline ends.
pub open spec fn is_valid(pattern: Seq<char>) -> bool {
    pattern_compiles(pattern) && pattern_compiles(anchored(pattern))
}

/// Whether a match begins at offset 0 and is at least one byte long.
pub open spec fn opens_text(spans: Seq<Option<(int, int)>>) -> bool {
    &&& spans.len() > 0
    &&& spans[0] matches Some((from, to))
    &&& from == 0
    &&& to > 0
}

/// What `pattern` finds at the very start of `text`: the groups of a match
/// that begins at offset 0 and is at least one byte long, each within the
/// text. A pattern that matches only the empty text there finds nothing.
pub open spec fn match_at_start(pattern: Seq<char>, text: Seq<char>) -> Option<
    Seq<Option<(int, int)>>,
> {
    match pattern_captures(anchored(pattern), text) {
        Some(spans) => if opens_text(spans) && spans_fit(text, spans) {
            Some(spans)
        } else {
            None
        },
        None => None,
    }
}

/// A match at the start parts the text in a lexeme with a character in it and
/// the rest.
pub proof fn lemma_match_parts_text(pattern: Seq<char>, text: Seq<char>)
    requires
        match_at_start(pattern, text) is Some,
    ensures
        ({
            let end = match_end(match_at_start(pattern, text)->0);
            &&& on_boundary(text, end)
            &&& before(text, end).len() > 0
            &&& before(text, end) + after(text, end) == text
            &&& byte_len(before(text, end)) == end
        }),
{
    let end = match_end(match_at_start(pattern, text)->0);
    lemma_cut_on_boundary(text, end);
    lemma_empty_iff_no_bytes(before(text, end));
}

/// Tests whether one span lies in `text` between characters.
fn one_fits(text: &str, from: usize, to: usize) -> (ok: bool)
    ensures
        ok == span_fits(text@, from as int, to as int),
{
    broadcast use vstd::utf8::encode_utf8_valid_utf8;

    from <= to && text.is_char_boundary(from) && text.is_char_boundary(to)
}

/// Tests whether the spans of a match, which has a group 0, lie in `text`
/// between characters.
fn all_fit(text: &str, spans: &Spans) -> (ok: bool)
    requires
        spans.len() > 0,
        spans[0] is Some,
    ensures
        ok == spans_fit(text@, spans_view(spans@)),
{
    let mut i: usize = 0;
    while i < spans.len()
        invariant
            0 <= i <= spans.len(),
            spans.len() > 0,
            spans[0] is Some,
            forall|j: int|
                0 <= j < i ==> (#[trigger] spans_view(spans@)[j] matches Some((from, to))
                    ==> span_fits(text@, from, to)),
        decreases spans.len() - i,
    {
        match spans[i] {
            Some((from, to)) => {
                assert(spans_view(spans@)[i as int] == Some((from as int, to as int)));
                if !one_fits(text, from, to) {
                    return false;
                }
            },
            None => {
                assert(spans_view(spans@)[i as int] is None);
            },
        }
        i = i + 1;
    }
    assert(spans_view(spans@)[0] is Some);
    true
}

/// The groups of one match, as a rule's constructor reads them. Its view is
/// the text of each group.
pub struct Captures<'a> {
    haystack: &'a str,
    spans: Spans,
    end: usize,
}

impl<'a> View for Captures<'a> {
    type V = Seq<Option<Seq<char>>>;

    open spec fn view(&self) -> Seq<Option<Seq<char>>> {
        groups_of(self.haystack(), self.spans())
    }
}

impl<'a> Captures<'a> {
    #[verifier::type_invariant]
    spec fn fits(&self) -> bool {
        &&& spans_fit(self.haystack@, spans_view(self.spans@))
        &&& opens_text(spans_view(self.spans@))
        &&& self.end == match_end(spans_view(self.spans@))
    }

    /// The text that was searched.
    pub closed spec fn haystack(&self) -> Seq<char> {
        self.haystack@
    }

    /// Where each group lies in the haystack.
    pub closed spec fn spans(&self) -> Seq<Option<(int, int)>> {
        spans_view(self.spans@)
    }

    /// The groups of a match that begins at the start of `text` and is at
    /// least one byte long, made of what a search reported. Nothing is made of
    /// a search that found nothing, of a match that begins elsewhere or is
    /// empty, or of spans that do not lie in `text` between characters.
    pub fn at_start(text: &'a str, found: Option<Spans>) -> (groups: Option<Captures<'a>>)
        ensures
            match groups {
                Some(made) => {
                    &&& found is Some
                    &&& made.spans() == spans_view(found->0@)
                    &&& made.haystack() == text@
                    &&& opens_text(made.spans())
                    &&& spans_fit(text@, made.spans())
                },
                None => found matches Some(spans) ==> !opens_text(spans_view(spans@))
                    || !spans_fit(text@, spans_view(spans@)),
            },
    {
        match found {
            Some(spans) => {
                if spans.len() == 0 {
                    return None;
                }
                match spans[0] {
                    Some((from, to)) => {
                        assert(spans_view(spans@)[0] == Some((from as int, to as int)));
                        if from == 0 && to > 0 && all_fit(text, &spans) {
                            Some(Captures { haystack: text, spans, end: to })
                        } else {
                            None
                        }
                    },
                    None => {
                        assert(spans_view(spans@)[0] is None);
                        None
                    },
                }
            },
            None => None,
        }
    }

    /// The number of groups, the match as a whole counted.
    pub fn len(&self) -> (n: usize)
        ensures
            n == self@.len(),
            n > 0,
    {
        proof {
            use_type_invariant(self);
        }
        self.spans.len()
    }

    /// The text of group `i`: `None` where the pattern has no such group or
    /// the group took no part in the match.
    pub fn get(&self, i: usize) -> (group: Option<&'a str>)
        ensures
            i < self@.len() ==> match group {
                Some(piece) => self@[i as int] == Some(piece@),
                None => self@[i as int] is None,
            },
            i >= self@.len() ==> group is None,
    {
        proof {
            use_type_invariant(self);
        }
        if i >= self.spans.len() {
            return None;
        }
        match self.spans[i] {
            Some((from, to)) => {
                assert(spans_view(self.spans@)[i as int] == Some((from as int, to as int)));
                Some(str_span(self.haystack, from, to))
            },
            None => None,
        }
    }

    /// The text of group `i`, or the empty text where the pattern has no such
    /// group or the group took no part in the match.
    pub fn text(&self, i: usize) -> (piece: &'a str)
        ensures
            piece@ == group_text(self@, i as int),
    {
        match self.get(i) {
            Some(piece) => piece,
            None => {
                proof {
                    reveal_strlit("");
                }
                assert(""@ =~= Seq::<char>::empty());
                ""
            },
        }
    }

    /// The byte offset in the haystack at which the match as a whole ends.
    pub fn end(&self) -> (at: usize)
        ensures
            at == match_end(self.spans()),
            at > 0,
            on_boundary(self.haystack(), at as int),
    {
        proof {
            use_type_invariant(self);
        }
        self.end
    }
}

/// A pattern compiled to match at the cursor. Its view is the pattern as the
/// front-end wrote it.
pub struct Pattern {
    source: String,
    regex: Regex,
}

impl View for Pattern {
    type V = Seq<char>;

    closed spec fn view(&self) -> Seq<char> {
        self.source@
    }
}

impl Pattern {
    #[verifier::type_invariant]
    spec fn compiled_from_source(&self) -> bool {
        regex_source(self.regex) == anchored(self.source@)
    }

    /// Compiles `source`, anchored at the start. Fails with the regex crate's
    /// error exactly where the pattern is not valid.
    pub fn compile(source: &str) -> (made: Result<Pattern, regex::Error>)
        ensures
            made is Ok <==> is_valid(source@),
            made matches Ok(pattern) ==> pattern@ == source@,
    {
        match regex_new(source) {
            Ok(_) => {},
            Err(e) => {
                return Err(e);
            },
        }
        let mut text = String::from_str("^(?:");
        text.append(source);
        text.append(")");
        proof {
            reveal_strlit("^(?:");
            reveal_strlit(")");
            assert(text@ =~= anchored(source@));
        }
        match regex_new(text.as_str()) {
            Ok(regex) => Ok(Pattern { source: String::from_str(source), regex }),
            Err(e) => Err(e),
        }
    }

    /// Matches the pattern at the very start of `text`.
    pub fn match_at<'a>(&self, text: &'a str) -> (found: Option<Captures<'a>>)
        ensures
            match found {
                Some(groups) => match_at_start(self@, text@) == Some(groups.spans())
                    && groups.haystack() == text@,
                None => match_at_start(self@, text@) is None,
            },
    {
        proof {
            use_type_invariant(self);
        }
        Captures::at_start(text, regex_captures(&self.regex, text))
    }
}

} // verus!
