//! Decode functions applied in turn to one variable.
//!
//! This is the second form of a decode chain: statements that follow each
//! other and each replace a variable by a decoding of itself, such as
//! `$x = base64_decode($x); $x = gzinflate($x);`.

use vstd::prelude::*;
use vstd::slice::*;
use vstd::string::*;
use crate::audit::{ascii_needles, lemma_decoders_are_ascii};
use crate::language::WebshellLanguage;
use crate::rules::{in_scope, scope_covers, Rule, DECODERS};
use crate::text::{
    call_at,
    call_paren,
    find_call,
    ident_byte,
    is_ident_byte,
    lemma_match_of_ascii,
    skip_blank,
    skip_spaces,
};

verus! {

/// Bytes that may appear in the name of a variable: identifier bytes and `$`.
pub open spec fn is_name_byte(b: u8) -> bool {
    is_ident_byte(b) || b == 0x24
}

/// The first offset at or after `from` that does not hold a name byte.
pub open spec fn name_end(text: Seq<u8>, from: int) -> int
    decreases text.len() - from,
{
    if 0 <= from < text.len() && is_name_byte(text[from]) {
        name_end(text, from + 1)
    } else {
        from
    }
}

/// A name starts at `at`: a name byte that does not continue a name.
pub open spec fn name_starts_at(text: Seq<u8>, at: int) -> bool {
    0 <= at < text.len() && is_name_byte(text[at]) && (at == 0 || !is_name_byte(text[at - 1]))
}

/// The first rule of `rules` in scope, from index `from` on, that is called
/// at `at`.
pub open spec fn called_rule(
    text: Seq<u8>,
    at: int,
    rules: Seq<Rule>,
    lang: Option<WebshellLanguage>,
    from: int,
) -> Option<int>
    decreases rules.len() - from,
{
    if from < 0 || from >= rules.len() {
        None
    } else if in_scope(rules[from].2, lang) && call_at(text, at, rules[from].0.spec_bytes()) {
        Some(from)
    } else {
        called_rule(text, at, rules, lang, from + 1)
    }
}

/// Where the statement that starts at `at` ends, if it replaces a variable
/// by a decoding of itself: a name, `=`, a call of a decode function in
/// scope, and the same name as the call's only argument. The end is the
/// offset behind the closing parenthesis.
pub open spec fn reassignment_end(text: Seq<u8>, at: int, lang: Option<WebshellLanguage>) -> Option<
    int,
> {
    let name_stop = name_end(text, at);
    let equals = skip_spaces(text, name_stop);
    let call = skip_spaces(text, equals + 1);
    if !name_starts_at(text, at) || equals >= text.len() || text[equals] != 0x3d {
        None
    } else {
        match called_rule(text, call, DECODERS@, lang, 0) {
            None => None,
            Some(k) => {
                let paren = call_paren(text, call, DECODERS@[k].0.spec_bytes());
                let argument = skip_spaces(text, paren + 1);
                let argument_stop = name_end(text, argument);
                let close = skip_spaces(text, argument_stop);
                if text.subrange(argument, argument_stop) == text.subrange(at, name_stop) && close
                    < text.len() && text[close] == 0x29 {
                    Some(close + 1)
                } else {
                    None
                }
            },
        }
    }
}

/// Where the statement behind offset `end` starts: behind blank space, at
/// most one `;`, and more blank space.
pub open spec fn next_statement(text: Seq<u8>, end: int) -> int {
    let semicolon = skip_spaces(text, end);
    if 0 <= semicolon < text.len() && text[semicolon] == 0x3b {
        skip_spaces(text, semicolon + 1)
    } else {
        semicolon
    }
}

/// A run of statements that decode one variable in turn.
pub struct Sequence {
    /// The offset behind the last statement; the start offset for a run of
    /// no statements.
    pub end: int,
    /// The number of statements.
    pub steps: nat,
}

/// The longest run of statements from `at` on that each replace the variable
/// `name` by a decoding of itself.
pub open spec fn sequence_of(
    text: Seq<u8>,
    at: int,
    name: Seq<u8>,
    lang: Option<WebshellLanguage>,
) -> Sequence
    decreases text.len() - at,
{
    let end = reassignment_end(text, at, lang);
    if end is Some && text.subrange(at, name_end(text, at)) == name {
        let next = next_statement(text, end->0);
        let rest = if at < next <= text.len() {
            sequence_of(text, next, name, lang)
        } else {
            Sequence { end: next, steps: 0 }
        };
        Sequence {
            end: if rest.steps == 0 {
                end->0
            } else {
                rest.end
            },
            steps: rest.steps + 1,
        }
    } else {
        Sequence { end: at, steps: 0 }
    }
}

/// The longest run of statements from `at` on that decode in turn the
/// variable named at `at`.
pub open spec fn sequence_at(text: Seq<u8>, at: int, lang: Option<WebshellLanguage>) -> Sequence {
    sequence_of(text, at, text.subrange(at, name_end(text, at)), lang)
}

/// A name byte is an ASCII byte, and the rest of a statement is found behind
/// its start.
pub proof fn lemma_name_end_is_exact(text: Seq<u8>, from: int)
    requires
        0 <= from <= text.len(),
    ensures
        from <= name_end(text, from) <= text.len(),
        forall|i: int| from <= i < name_end(text, from) ==> is_name_byte(#[trigger] text[i]),
        name_end(text, from) < text.len() ==> !is_name_byte(text[name_end(text, from)]),
    decreases text.len() - from,
{
    if from < text.len() && is_name_byte(text[from]) {
        lemma_name_end_is_exact(text, from + 1);
    }
}

fn name_byte(b: u8) -> (r: bool)
    ensures
        r == is_name_byte(b),
{
    ident_byte(b) || b == 0x24
}

/// Moves past the name that starts at `from`.
fn name_stop(text: &[u8], from: usize) -> (to: usize)
    requires
        from <= text@.len(),
    ensures
        to == name_end(text@, from as int),
        from <= to <= text@.len(),
{
    let mut to: usize = from;
    while to < text.len() && name_byte(text[to])
        invariant
            from <= to <= text@.len(),
            name_end(text@, to as int) == name_end(text@, from as int),
        decreases text@.len() - to,
    {
        to = to + 1;
    }
    to
}

/// Tests whether the `len` bytes at `a` are the `len` bytes at `b`.
fn same_bytes(text: &[u8], a: usize, b: usize, len: usize) -> (r: bool)
    requires
        a + len <= text@.len(),
        b + len <= text@.len(),
    ensures
        r == (text@.subrange(a as int, a + len) == text@.subrange(b as int, b + len)),
{
    let n = text.len();
    let mut i: usize = 0;
    while i < len
        invariant
            i <= len,
            a + len <= text@.len() == n,
            b + len <= text@.len(),
            forall|j: int|
                0 <= j < i ==> (#[trigger] text@.subrange(a as int, a + len)[j])
                    == text@.subrange(b as int, b + len)[j],
        decreases len - i,
    {
        if text[a + i] != text[b + i] {
            assert(text@.subrange(a as int, a + len)[i as int] != text@.subrange(
                b as int,
                b + len,
            )[i as int]);
            return false;
        }
        i = i + 1;
    }
    assert(text@.subrange(a as int, a + len) =~= text@.subrange(b as int, b + len));
    true
}

/// Finds the first rule of `rules` in scope that is called at `at`, and
/// returns the offset of the call's opening parenthesis.
pub(crate) fn called_in(
    text: &[u8],
    rules: &[Rule],
    at: usize,
    lang: Option<WebshellLanguage>,
) -> (paren: Option<usize>)
    requires
        ascii_needles(rules@),
    ensures
        match paren {
            Some(p) => {
                &&& called_rule(text@, at as int, rules@, lang, 0) matches Some(k)
                &&& p == call_paren(text@, at as int, rules@[k].0.spec_bytes())
                &&& at < p < text@.len()
                &&& text@[at as int] < 0x80
                &&& text@[p as int] == 0x28
            },
            None => called_rule(text@, at as int, rules@, lang, 0) is None,
        },
{
    let mut k: usize = 0;
    while k < rules.len()
        invariant
            k <= rules@.len(),
            ascii_needles(rules@),
            called_rule(text@, at as int, rules@, lang, k as int) == called_rule(
                text@,
                at as int,
                rules@,
                lang,
                0,
            ),
        decreases rules@.len() - k,
    {
        let rule = rules[k];
        if scope_covers(rule.2, lang) {
            match find_call(text, at, rule.0.as_bytes()) {
                Some(p) => {
                    proof {
                        lemma_match_of_ascii(text@, at as int, rule.0.spec_bytes(), 0);
                    }
                    return Some(p);
                },
                None => {},
            }
        }
        k = k + 1;
    }
    None
}

/// Tests whether the statement at `at` replaces a variable by a decoding of
/// itself, and if so returns where the variable's name ends and where the
/// statement ends.
fn reassignment_here(
    text: &[u8],
    decoders: &[Rule],
    at: usize,
    lang: Option<WebshellLanguage>,
) -> (found: Option<(usize, usize)>)
    requires
        decoders@ == DECODERS@,
    ensures
        match found {
            Some(hit) => {
                &&& reassignment_end(text@, at as int, lang) == Some(hit.1 as int)
                &&& hit.0 == name_end(text@, at as int)
                &&& at < hit.0 < hit.1 <= text@.len()
                &&& text@[at as int] < 0x80
                &&& text@[hit.1 - 1] == 0x29
            },
            None => reassignment_end(text@, at as int, lang) is None,
        },
{
    let n = text.len();
    if at >= n || !name_byte(text[at]) || (at > 0 && name_byte(text[at - 1])) {
        return None;
    }
    let stop = name_stop(text, at);
    let equals = skip_blank(text, stop);
    if equals >= n || text[equals] != 0x3d {
        return None;
    }
    let call = skip_blank(text, equals + 1);
    proof {
        lemma_decoders_are_ascii();
    }
    match called_in(text, decoders, call, lang) {
        None => None,
        Some(paren) => {
            let argument = skip_blank(text, paren + 1);
            let argument_stop = name_stop(text, argument);
            let close = skip_blank(text, argument_stop);
            if argument_stop - argument == stop - at && same_bytes(text, argument, at, stop - at)
                && close < n && text[close] == 0x29 {
                Some((stop, close + 1))
            } else {
                assert(argument_stop - argument != stop - at ==> text@.subrange(
                    argument as int,
                    argument_stop as int,
                ).len() != text@.subrange(at as int, stop as int).len());
                None
            }
        },
    }
}

/// Moves to the start of the statement behind offset `end`.
fn skip_to_statement(text: &[u8], end: usize) -> (next: usize)
    requires
        end <= text@.len(),
    ensures
        next == next_statement(text@, end as int),
        end <= next <= text@.len(),
{
    let semicolon = skip_blank(text, end);
    if semicolon < text.len() && text[semicolon] == 0x3b {
        skip_blank(text, semicolon + 1)
    } else {
        semicolon
    }
}

/// Follows the statements from `at` on that decode in turn the variable
/// named at `at`, and returns where they end and how many they are.
pub(crate) fn follow_sequence(
    text: &[u8],
    decoders: &[Rule],
    at: usize,
    lang: Option<WebshellLanguage>,
) -> (found: (usize, usize))
    requires
        decoders@ == DECODERS@,
        at < text@.len(),
    ensures
        sequence_at(text@, at as int, lang) == (Sequence {
            end: found.0 as int,
            steps: found.1 as nat,
        }),
        found.1 == 0 ==> found.0 == at,
        found.1 > 0 ==> at < found.0 <= text@.len() && text@[at as int] < 0x80 && text@[found.0
            - 1] == 0x29,
{
    let n = text.len();
    let first = match reassignment_here(text, decoders, at, lang) {
        None => {
            return (at, 0);
        },
        Some(hit) => hit,
    };
    let len = first.0 - at;
    let ghost name = text@.subrange(at as int, first.0 as int);
    let ghost whole = sequence_of(text@, at as int, name, lang);
    let mut end: usize = first.1;
    let mut steps: usize = 1;
    let mut cur: usize = skip_to_statement(text, first.1);
    loop
        invariant
            decoders@ == DECODERS@,
            n == text@.len(),
            at < end <= cur <= n,
            at + len <= n,
            len > 0,
            name == text@.subrange(at as int, at + len),
            1 <= steps <= cur - at,
            text@[at as int] < 0x80,
            text@[end - 1] == 0x29,
            whole == sequence_of(text@, at as int, name, lang),
            whole.steps == steps + sequence_of(text@, cur as int, name, lang).steps,
            whole.end == if sequence_of(text@, cur as int, name, lang).steps == 0 {
                end as int
            } else {
                sequence_of(text@, cur as int, name, lang).end
            },
        decreases n - cur,
    {
        let hit = match reassignment_here(text, decoders, cur, lang) {
            None => {
                return (end, steps);
            },
            Some(hit) => hit,
        };
        if hit.0 - cur != len || !same_bytes(text, cur, at, len) {
            assert(hit.0 - cur != len ==> text@.subrange(cur as int, hit.0 as int).len()
                != name.len());
            return (end, steps);
        }
        steps = steps + 1;
        end = hit.1;
        cur = skip_to_statement(text, hit.1);
    }
}

} // verus!
