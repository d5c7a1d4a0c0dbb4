//! Helpers that prepare scan findings for display.

use vstd::prelude::*;
use vstd::string::*;
use vstd::utf8::*;

verus! {

/// The largest character boundary of `bytes` that is not beyond `n`.
pub open spec fn floor_boundary(bytes: Seq<u8>, n: int) -> int
    decreases n,
{
    if n <= 0 {
        0
    } else if is_char_boundary(bytes, n) {
        n
    } else {
        floor_boundary(bytes, n - 1)
    }
}

/// The text of `pattern`, cut to at most `max_len` bytes and marked with an
/// ellipsis when anything was cut off.
pub open spec fn truncated(pattern: Seq<char>, max_len: int) -> Seq<char> {
    let bytes = encode_utf8(pattern);
    if bytes.len() <= max_len {
        pattern
    } else {
        decode_utf8(bytes.subrange(0, floor_boundary(bytes, max_len))) + "..."@
    }
}

/// The cut falls between two characters, at or before `n`.
pub proof fn lemma_floor_boundary_is_a_boundary(bytes: Seq<u8>, n: int)
    requires
        valid_utf8(bytes),
        0 <= n,
    ensures
        0 <= floor_boundary(bytes, n) <= n,
        is_char_boundary(bytes, floor_boundary(bytes, n)),
        is_char_boundary(bytes, n) ==> floor_boundary(bytes, n) == n,
    decreases n,
{
    if n > 0 && !is_char_boundary(bytes, n) {
        lemma_floor_boundary_is_a_boundary(bytes, n - 1);
    }
}

/// A fragment cut to `max_len` bytes is at most `max_len + 3` bytes long.
pub proof fn lemma_truncated_is_bounded(pattern: Seq<char>, max_len: int)
    requires
        0 <= max_len,
    ensures
        encode_utf8(truncated(pattern, max_len)).len() <= max_len + 3,
{
    let bytes = encode_utf8(pattern);
    encode_utf8_valid_utf8(pattern);
    if bytes.len() > max_len {
        let cut = floor_boundary(bytes, max_len);
        lemma_floor_boundary_is_a_boundary(bytes, max_len);
        let head = bytes.subrange(0, cut);
        valid_utf8_split(bytes, cut);
        let dots = encode_utf8("..."@);
        assert(dots.len() == 3 && dots[0] == 0x2e) by {
            reveal_strlit("...");
            is_ascii_chars_encode_utf8("..."@);
        }
        encode_utf8_valid_utf8("..."@);
        encode_utf8_decode_utf8("..."@);
        let whole = head + dots;
        valid_utf8_concat(head, dots);
        is_char_boundary_iff_not_is_continuation_byte(whole, cut);
        decode_utf8_split(whole, cut);
        assert(whole.subrange(0, cut) == head);
        assert(whole.subrange(cut, whole.len() as int) == dots);
        assert(truncated(pattern, max_len) == decode_utf8(whole));
        decode_utf8_encode_utf8(whole);
    }
}

/// Shortens a matched fragment for display: a fragment longer than `max_len`
/// bytes keeps its first `max_len` bytes (fewer where that would split a
/// character) and gets `...` appended.
pub fn truncate_pattern(pattern: &str, max_len: usize) -> (out: String)
    ensures
        out@ == truncated(pattern@, max_len as int),
{
    broadcast use {
        encode_utf8_valid_utf8,
        encode_utf8_decode_utf8,
        is_char_boundary_start_end_of_seq,
    };

    if pattern.as_bytes().len() > max_len {
        let mut cut: usize = max_len;
        while !pattern.is_char_boundary(cut)
            invariant
                cut <= max_len,
                max_len < pattern.spec_bytes().len(),
                valid_utf8(pattern.spec_bytes()),
                floor_boundary(pattern.spec_bytes(), cut as int) == floor_boundary(
                    pattern.spec_bytes(),
                    max_len as int,
                ),
            decreases cut,
        {
            assert(cut > 0);
            cut = cut - 1;
        }
        assert(floor_boundary(pattern.spec_bytes(), cut as int) == cut);
        let (head, _) = pattern.split_at(cut);
        let mut out = head.to_owned();
        out.append("...");
        assert(head@ == decode_utf8(head.spec_bytes()));
        out
    } else {
        pattern.to_owned()
    }
}

/// The decimal digit `d` as text.
pub open spec fn digit(d: nat) -> Seq<char> {
    if d == 0 {
        "0"@
    } else if d == 1 {
        "1"@
    } else if d == 2 {
        "2"@
    } else if d == 3 {
        "3"@
    } else if d == 4 {
        "4"@
    } else if d == 5 {
        "5"@
    } else if d == 6 {
        "6"@
    } else if d == 7 {
        "7"@
    } else if d == 8 {
        "8"@
    } else {
        "9"@
    }
}

/// The number `n` written in decimal, without leading zeros.
pub open spec fn decimal(n: nat) -> Seq<char>
    decreases n,
{
    if n < 10 {
        digit(n)
    } else {
        decimal(n / 10) + digit(n % 10)
    }
}

fn digit_text(d: u64) -> (s: &'static str)
    requires
        d < 10,
    ensures
        s@ == digit(d as nat),
{
    if d == 0 {
        "0"
    } else if d == 1 {
        "1"
    } else if d == 2 {
        "2"
    } else if d == 3 {
        "3"
    } else if d == 4 {
        "4"
    } else if d == 5 {
        "5"
    } else if d == 6 {
        "6"
    } else if d == 7 {
        "7"
    } else if d == 8 {
        "8"
    } else {
        "9"
    }
}

/// Writes `n` in decimal.
pub fn decimal_text(n: u64) -> (s: String)
    ensures
        s@ == decimal(n as nat),
    decreases n,
{
    if n < 10 {
        String::from_str(digit_text(n))
    } else {
        let mut s = decimal_text(n / 10);
        s.append(digit_text(n % 10));
        s
    }
}

} // verus!
