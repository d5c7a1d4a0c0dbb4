//! Byte-level text primitives shared by the detectors.
//!
//! Scanned content is treated as the sequence of its UTF-8 bytes. Matching is
//! insensitive to ASCII case, so that `EVAL(` and `eval(` are the same idiom.
//! A needle may hold the byte `ANY_IDENT`, which stands for any one
//! identifier byte of the text.

use vstd::prelude::*;
use vstd::slice::*;
use vstd::string::*;
use vstd::utf8::*;

verus! {

/// `b` with ASCII upper-case letters mapped to lower case.
pub open spec fn fold_byte(b: u8) -> u8 {
    if 0x41 <= b && b <= 0x5a {
        (b + 0x20) as u8
    } else {
        b
    }
}

/// Bytes that may appear inside an identifier: ASCII letters, digits and `_`.
pub open spec fn is_ident_byte(b: u8) -> bool {
    (0x61 <= b && b <= 0x7a) || (0x41 <= b && b <= 0x5a) || (0x30 <= b && b <= 0x39) || b == 0x5f
}

/// Space, tab, line feed and carriage return.
pub open spec fn is_space_byte(b: u8) -> bool {
    b == 0x20 || b == 0x09 || b == 0x0a || b == 0x0d
}

/// The needle byte that stands for any one identifier byte.
pub const ANY_IDENT: u8 = 0x01;

/// The byte `t` of a text is what the byte `n` of a needle asks for: any
/// identifier byte where `n` is `ANY_IDENT`, else `n` itself up to ASCII
/// case.
pub open spec fn byte_fits(t: u8, n: u8) -> bool {
    if n == ANY_IDENT {
        is_ident_byte(t)
    } else {
        fold_byte(t) == fold_byte(n)
    }
}

/// `needle` is non-empty and stands in `text` at offset `at`.
pub open spec fn occurs_at(text: Seq<u8>, at: int, needle: Seq<u8>) -> bool {
    &&& 0 <= at
    &&& needle.len() > 0
    &&& at + needle.len() <= text.len()
    &&& forall|k: int| 0 <= k < needle.len() ==> byte_fits(text[at + k], #[trigger] needle[k])
}

/// `needle` stands somewhere in `text`.
pub open spec fn occurs_in(text: Seq<u8>, needle: Seq<u8>) -> bool {
    exists|at: int| occurs_at(text, at, needle)
}

/// The first offset at or after `from` that does not hold a space byte.
pub open spec fn skip_spaces(text: Seq<u8>, from: int) -> int
    decreases text.len() - from,
{
    if 0 <= from < text.len() && is_space_byte(text[from]) {
        skip_spaces(text, from + 1)
    } else {
        from
    }
}

/// Where the opening parenthesis of a call of `name` at `at` would stand.
pub open spec fn call_paren(text: Seq<u8>, at: int, name: Seq<u8>) -> int {
    skip_spaces(text, at + name.len())
}

/// A call of the function `name` starts at `at`: the name stands there, is not
/// the tail of a longer identifier, and is followed, after optional blank
/// space, by `(`.
pub open spec fn call_at(text: Seq<u8>, at: int, name: Seq<u8>) -> bool {
    &&& occurs_at(text, at, name)
    &&& (at == 0 || !is_ident_byte(text[at - 1]))
    &&& call_paren(text, at, name) < text.len()
    &&& text[call_paren(text, at, name)] == 0x28
}

/// The number of line feeds among the first `at` bytes of `text`.
pub open spec fn newlines_before(text: Seq<u8>, at: int) -> nat
    decreases at,
{
    if at <= 0 {
        0
    } else {
        newlines_before(text, at - 1) + if text[at - 1] == 0x0a {
            1nat
        } else {
            0nat
        }
    }
}

/// The text that the bytes `from..to` of `text` encode.
pub open spec fn excerpt(text: Seq<u8>, from: int, to: int) -> Seq<char> {
    decode_utf8(text.subrange(from, to))
}

/// The text between two byte offsets, when both fall between characters; the
/// empty text otherwise.
pub open spec fn fragment_of(bytes: Seq<u8>, from: int, to: int) -> Seq<char> {
    if 0 <= from <= to <= bytes.len() && is_char_boundary(bytes, from) && is_char_boundary(
        bytes,
        to,
    ) {
        decode_utf8(bytes.subrange(from, to))
    } else {
        Seq::empty()
    }
}

/// Two texts are the same up to the case of their ASCII letters.
pub open spec fn same_but_case(a: Seq<u8>, b: Seq<u8>) -> bool {
    &&& a.len() == b.len()
    &&& forall|i: int| 0 <= i < a.len() ==> fold_byte(#[trigger] a[i]) == fold_byte(b[i])
}

/// A needle stands in a text wherever it stands in the same text written in
/// another case.
pub proof fn lemma_occurrence_ignores_case(a: Seq<u8>, b: Seq<u8>, at: int, needle: Seq<u8>)
    requires
        same_but_case(a, b),
        occurs_at(a, at, needle),
    ensures
        occurs_at(b, at, needle),
{
    assert forall|k: int| 0 <= k < needle.len() implies byte_fits(
        b[at + k],
        #[trigger] needle[k],
    ) by {
        assert(fold_byte(a[at + k]) == fold_byte(b[at + k]));
        assert(byte_fits(a[at + k], needle[k]));
    }
}

/// Blank space is skipped whole and nothing else is: every byte that is
/// skipped is a space byte, and the byte at which skipping stops is none.
pub proof fn lemma_skip_spaces_is_exact(text: Seq<u8>, from: int)
    requires
        0 <= from <= text.len(),
    ensures
        from <= skip_spaces(text, from) <= text.len(),
        forall|i: int| from <= i < skip_spaces(text, from) ==> is_space_byte(#[trigger] text[i]),
        skip_spaces(text, from) < text.len() ==> !is_space_byte(text[skip_spaces(text, from)]),
    decreases text.len() - from,
{
    if from < text.len() && is_space_byte(text[from]) {
        lemma_skip_spaces_is_exact(text, from + 1);
    }
}

/// In well-formed UTF-8 a character starts at every ASCII byte, and another
/// starts, or the text ends, right behind it.
pub proof fn lemma_ascii_byte_is_a_character(bytes: Seq<u8>, i: int)
    requires
        valid_utf8(bytes),
        0 <= i < bytes.len(),
        bytes[i] < 0x80,
    ensures
        is_char_boundary(bytes, i),
        is_char_boundary(bytes, i + 1),
{
    is_char_boundary_iff_not_is_continuation_byte(bytes, i);
    if i + 1 == bytes.len() {
        is_char_boundary_start_end_of_seq(bytes);
    } else {
        valid_utf8_split(bytes, i);
        let rest = bytes.subrange(i, bytes.len() as int);
        assert(rest[0] == bytes[i]);
        assert(rest[1] == bytes[i + 1]);
        assert(is_char_boundary(rest, 1)) by {
            reveal_with_fuel(is_char_boundary, 2);
            reveal_with_fuel(valid_utf8, 2);
        }
        is_char_boundary_iff_not_is_continuation_byte(rest, 1);
        is_char_boundary_iff_not_is_continuation_byte(bytes, i + 1);
    }
}

/// A stretch of well-formed UTF-8 that begins and ends with an ASCII byte is
/// a whole number of characters.
pub proof fn lemma_ascii_ends_make_a_fragment(text: Seq<u8>, from: int, to: int)
    requires
        valid_utf8(text),
        0 <= from < to <= text.len(),
        text[from] < 0x80,
        text[to - 1] < 0x80,
    ensures
        fragment_of(text, from, to) == excerpt(text, from, to),
{
    lemma_ascii_byte_is_a_character(text, from);
    lemma_ascii_byte_is_a_character(text, to - 1);
}

/// Where an ASCII needle stands, the text holds ASCII bytes.
pub proof fn lemma_match_of_ascii(text: Seq<u8>, at: int, needle: Seq<u8>, k: int)
    requires
        occurs_at(text, at, needle),
        0 <= k < needle.len(),
        needle[k] < 0x80,
    ensures
        text[at + k] < 0x80,
{
}

/// Maps an ASCII upper-case letter to lower case and leaves other bytes as
/// they are.
pub fn fold(b: u8) -> (r: u8)
    ensures
        r == fold_byte(b),
{
    if b >= 0x41 && b <= 0x5a {
        b + 0x20
    } else {
        b
    }
}

/// Tests whether `b` may appear inside an identifier.
pub fn ident_byte(b: u8) -> (r: bool)
    ensures
        r == is_ident_byte(b),
{
    (b >= 0x61 && b <= 0x7a) || (b >= 0x41 && b <= 0x5a) || (b >= 0x30 && b <= 0x39) || b == 0x5f
}

/// Tests whether `b` is blank space.
pub fn space_byte(b: u8) -> (r: bool)
    ensures
        r == is_space_byte(b),
{
    b == 0x20 || b == 0x09 || b == 0x0a || b == 0x0d
}

/// Tests whether the byte `t` of a text is what the needle byte `n` asks for.
pub fn fits(t: u8, n: u8) -> (r: bool)
    ensures
        r == byte_fits(t, n),
{
    if n == ANY_IDENT {
        ident_byte(t)
    } else {
        fold(t) == fold(n)
    }
}

/// Tests whether `needle` stands in `text` at `at`.
pub fn matches_at(text: &[u8], at: usize, needle: &[u8]) -> (found: bool)
    ensures
        found == occurs_at(text@, at as int, needle@),
{
    let n = needle.len();
    if n == 0 || at > text.len() || text.len() - at < n {
        return false;
    }
    let mut k: usize = 0;
    while k < n
        invariant
            n == needle@.len(),
            at + n <= text@.len() <= usize::MAX,
            k <= n,
            forall|j: int| 0 <= j < k ==> byte_fits(text@[at + j], #[trigger] needle@[j]),
        decreases n - k,
    {
        if !fits(text[at + k], needle[k]) {
            return false;
        }
        k = k + 1;
    }
    true
}

/// Finds the first place where `needle` stands in `text`.
pub fn find_first(text: &[u8], needle: &[u8]) -> (place: Option<usize>)
    ensures
        place is Some <==> occurs_in(text@, needle@),
        place matches Some(at) ==> occurs_at(text@, at as int, needle@) && forall|j: int|
            0 <= j < at ==> !occurs_at(text@, j, needle@),
{
    let mut at: usize = 0;
    while at < text.len()
        invariant
            at <= text@.len(),
            forall|j: int| 0 <= j < at ==> !occurs_at(text@, j, needle@),
        decreases text@.len() - at,
    {
        if matches_at(text, at, needle) {
            return Some(at);
        }
        at = at + 1;
    }
    None
}

/// Moves past any blank space that starts at `from`.
pub fn skip_blank(text: &[u8], from: usize) -> (to: usize)
    ensures
        to == skip_spaces(text@, from as int),
        from <= to,
        from <= text@.len() ==> to <= text@.len(),
{
    if from >= text.len() {
        return from;
    }
    let mut to: usize = from;
    while to < text.len() && space_byte(text[to])
        invariant
            from <= to <= text@.len(),
            skip_spaces(text@, to as int) == skip_spaces(text@, from as int),
        decreases text@.len() - to,
    {
        to = to + 1;
    }
    to
}

/// Tests whether a call of `name` starts at `at`, and if so returns the offset
/// of its opening parenthesis.
pub fn find_call(text: &[u8], at: usize, name: &[u8]) -> (paren: Option<usize>)
    ensures
        paren is Some <==> call_at(text@, at as int, name@),
        paren matches Some(p) ==> p == call_paren(text@, at as int, name@) && at < p < text@.len(),
{
    if !matches_at(text, at, name) {
        return None;
    }
    if at > 0 && ident_byte(text[at - 1]) {
        return None;
    }
    let p = skip_blank(text, at + name.len());
    if p < text.len() && text[p] == 0x28 {
        Some(p)
    } else {
        None
    }
}

/// Copies out the text of `content` between two byte offsets. Offsets that are
/// out of order, out of range or inside a character give the empty string.
pub fn fragment(content: &str, from: usize, to: usize) -> (out: String)
    ensures
        out@ == fragment_of(content.spec_bytes(), from as int, to as int),
{
    broadcast use {
        encode_utf8_valid_utf8,
        encode_utf8_decode_utf8,
        is_char_boundary_start_end_of_seq,
        valid_utf8_split,
    };

    if from <= to && to <= content.as_bytes().len() && content.is_char_boundary(from)
        && content.is_char_boundary(to) {
        let (head, _) = content.split_at(to);
        proof {
            let bytes = content.spec_bytes();
            assert(head.spec_bytes() == bytes.subrange(0, to as int));
            if from < to {
                is_char_boundary_iff_not_is_continuation_byte(bytes, from as int);
                is_char_boundary_iff_not_is_continuation_byte(head.spec_bytes(), from as int);
            }
        }
        let (_, piece) = head.split_at(from);
        proof {
            assert(piece.spec_bytes() == content.spec_bytes().subrange(from as int, to as int));
            assert(piece@ == decode_utf8(piece.spec_bytes()));
        }
        piece.to_owned()
    } else {
        String::new()
    }
}

} // verus!
