//! Text as the engine sees it: a sequence of characters that is cut at byte
//! offsets of its UTF-8 encoding.
//!
//! The matcher reports where a match ends as a byte offset, a position counts
//! bytes, and a string slice is cut at bytes. What a token carries, and what a
//! rule of a front-end reads, are characters. The definitions here connect the
//! two, and the functions cut a `&str` where the contracts say.
use vstd::prelude::*;
use vstd::string::*;
use vstd::utf8::*;

verus! {

/// The number of bytes that `text` takes in UTF-8.
pub open spec fn byte_len(text: Seq<char>) -> nat {
    encode_utf8(text).len()
}

/// Whether the byte offset `at` falls between two characters of `text`, at
/// its start or at its end.
pub open spec fn on_boundary(text: Seq<char>, at: int) -> bool {
    0 <= at <= byte_len(text) && is_char_boundary(encode_utf8(text), at)
}

/// The characters of `text` that lie between the byte offsets `from` and `to`.
pub open spec fn span(text: Seq<char>, from: int, to: int) -> Seq<char> {
    decode_utf8(encode_utf8(text).subrange(from, to))
}

/// The characters of `text` that lie before the byte offset `at`.
pub open spec fn before(text: Seq<char>, at: int) -> Seq<char> {
    span(text, 0, at)
}

/// The characters of `text` from the byte offset `at` on.
pub open spec fn after(text: Seq<char>, at: int) -> Seq<char> {
    span(text, at, byte_len(text) as int)
}

/// The encoding of a text in two parts is the encoding of the first part
/// followed by that of the second.
pub proof fn lemma_encode_concat(a: Seq<char>, b: Seq<char>)
    ensures
        encode_utf8(a + b) =~= encode_utf8(a) + encode_utf8(b),
        byte_len(a + b) == byte_len(a) + byte_len(b),
    decreases a.len(),
{
    if a.len() == 0 {
        assert(a + b =~= b);
    } else {
        assert((a + b).drop_first() =~= a.drop_first() + b);
        lemma_encode_concat(a.drop_first(), b);
    }
}

/// Every character takes at least one byte.
pub proof fn lemma_chars_fit_in_bytes(text: Seq<char>)
    ensures
        text.len() <= byte_len(text),
    decreases text.len(),
{
    if text.len() > 0 {
        lemma_chars_fit_in_bytes(text.drop_first());
    }
}

/// A text with a character in it has a byte in it, and the other way round.
pub proof fn lemma_empty_iff_no_bytes(text: Seq<char>)
    ensures
        text.len() == 0 <==> byte_len(text) == 0,
{
    lemma_chars_fit_in_bytes(text);
}

/// Where the first of two parts ends, the whole can be cut, and the cut gives
/// the two parts back.
pub proof fn lemma_cut_between_parts(a: Seq<char>, b: Seq<char>)
    ensures
        on_boundary(a + b, byte_len(a) as int),
        before(a + b, byte_len(a) as int) == a,
        after(a + b, byte_len(a) as int) == b,
    decreases a.len(),
{
    broadcast use encode_utf8_valid_utf8, encode_utf8_decode_utf8;

    lemma_encode_concat(a, b);
    let whole = encode_utf8(a + b);
    let k = byte_len(a) as int;
    assert(whole.subrange(0, k) =~= encode_utf8(a));
    assert(whole.subrange(k, whole.len() as int) =~= encode_utf8(b));
    if a.len() > 0 {
        let rest = a.drop_first();
        assert((a + b).drop_first() =~= rest + b);
        encode_utf8_first_scalar(a + b);
        encode_utf8_first_scalar(a);
        assert(pop_first_scalar(whole) =~= encode_utf8(rest + b));
        assert(encode_utf8(a) =~= encode_scalar(a[0] as u32) + encode_utf8(rest));
        lemma_cut_between_parts(rest, b);
        assert(k - length_of_first_scalar(whole) == byte_len(rest));
        assert(k > 0);
    }
}

/// A cut on a boundary parts the text in two, and the first part is as many
/// bytes long as the offset says.
pub proof fn lemma_cut_on_boundary(text: Seq<char>, at: int)
    requires
        on_boundary(text, at),
    ensures
        before(text, at) + after(text, at) == text,
        byte_len(before(text, at)) == at,
        byte_len(after(text, at)) == byte_len(text) - at,
{
    broadcast use encode_utf8_valid_utf8, encode_utf8_decode_utf8, decode_utf8_encode_utf8;

    let bytes = encode_utf8(text);
    valid_utf8_split(bytes, at);
    decode_utf8_split(bytes, at);
    assert(decode_utf8(bytes) == text);
}

/// Cutting twice at boundaries: the piece between two offsets of the whole is
/// the end of what lies before the second offset.
pub proof fn lemma_span_of_prefix(text: Seq<char>, from: int, to: int)
    requires
        on_boundary(text, from),
        on_boundary(text, to),
        from <= to,
    ensures
        on_boundary(before(text, to), from),
        after(before(text, to), from) == span(text, from, to),
        before(before(text, to), from) == before(text, from),
{
    broadcast use encode_utf8_valid_utf8, encode_utf8_decode_utf8, decode_utf8_encode_utf8;

    let bytes = encode_utf8(text);
    valid_utf8_split(bytes, to);
    let head = bytes.subrange(0, to);
    assert(encode_utf8(before(text, to)) == head);
    lemma_boundary_in_prefix(bytes, from, to);
    assert(head.subrange(from, head.len() as int) =~= bytes.subrange(from, to));
    assert(head.subrange(0, from) =~= bytes.subrange(0, from));
}

/// A boundary of a byte string is a boundary of each of its prefixes that
/// ends at a boundary behind it.
proof fn lemma_boundary_in_prefix(bytes: Seq<u8>, from: int, to: int)
    requires
        valid_utf8(bytes),
        0 <= from <= to <= bytes.len(),
        is_char_boundary(bytes, from),
        is_char_boundary(bytes, to),
    ensures
        valid_utf8(bytes.subrange(0, to)),
        is_char_boundary(bytes.subrange(0, to), from),
    decreases bytes.len(),
{
    valid_utf8_split(bytes, to);
    let head = bytes.subrange(0, to);
    if from == 0 {
    } else {
        reveal_with_fuel(is_char_boundary, 2);
        let n = length_of_first_scalar(bytes);
        assert(n <= from);
        let tail = pop_first_scalar(bytes);
        assert(length_of_first_scalar(head) == n);
        assert(pop_first_scalar(head) =~= tail.subrange(0, to - n));
        lemma_boundary_in_prefix(tail, from - n, to - n);
    }
}

/// The number of bytes that `c` takes in UTF-8.
pub fn char_len(c: char) -> (n: usize)
    ensures
        n == byte_len(seq![c]),
        1 <= n <= 4,
{
    broadcast use char_is_scalar;

    proof {
        reveal_with_fuel(encode_utf8, 2);
        assert(seq![c].drop_first() =~= Seq::<char>::empty());
        assert(encode_utf8(seq![c]) =~= encode_scalar(c as u32));
    }
    let code = c as u32;
    if code < 0x80 {
        1
    } else if code < 0x800 {
        2
    } else if code < 0x10000 {
        3
    } else {
        4
    }
}

/// The length of `text` in bytes.
pub fn len_of(text: &str) -> (n: usize)
    ensures
        n == byte_len(text@),
{
    text.as_bytes().len()
}

/// The part of `text` from the byte offset `at` on.
pub fn str_after<'a>(text: &'a str, at: usize) -> (rest: &'a str)
    requires
        on_boundary(text@, at as int),
    ensures
        rest@ == after(text@, at as int),
{
    broadcast use encode_utf8_decode_utf8;

    let (_, rest) = text.split_at(at);
    assert(rest@ == decode_utf8(rest.spec_bytes()));
    rest
}

/// The part of `text` before the byte offset `at`.
pub fn str_before<'a>(text: &'a str, at: usize) -> (head: &'a str)
    requires
        on_boundary(text@, at as int),
    ensures
        head@ == before(text@, at as int),
{
    broadcast use encode_utf8_decode_utf8;

    let (head, _) = text.split_at(at);
    assert(head@ == decode_utf8(head.spec_bytes()));
    head
}

/// The part of `text` between the byte offsets `from` and `to`.
pub fn str_span<'a>(text: &'a str, from: usize, to: usize) -> (piece: &'a str)
    requires
        on_boundary(text@, from as int),
        on_boundary(text@, to as int),
        from <= to,
    ensures
        piece@ == span(text@, from as int, to as int),
{
    proof {
        lemma_span_of_prefix(text@, from as int, to as int);
    }
    str_after(str_before(text, to), from)
}

/// The text `inner` between `open` and `close`.
pub fn enclose(open: &str, inner: &str, close: &str) -> (text: String)
    ensures
        text@ == open@ + inner@ + close@,
{
    let mut text = String::from_str(open);
    text.append(inner);
    text.append(close);
    text
}

} // verus!
