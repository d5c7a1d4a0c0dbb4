//! The decode-chain detector.
//!
//! A chain is a run of calls nested directly into each other, such as
//! `eval(gzinflate(base64_decode(`, in which every call is a decode function
//! or an execution sink. A chain with two or more decode functions is
//! reported once, at its outermost call. Two or more statements in a row
//! that decode one variable in turn are a chain too, reported once at the
//! first statement.

use vstd::prelude::*;
use vstd::slice::*;
use vstd::string::*;
use vstd::utf8::*;
use crate::audit::{lemma_decoders_are_ascii, lemma_sinks_are_ascii};
use crate::detect::{lemma_newlines_grow, line_of, record};
use crate::detection::{Detection, DetectionCategory, Finding};
use crate::display::{decimal, decimal_text};
use crate::language::WebshellLanguage;
use crate::rules::{Rule, DECODERS, SINKS};
use crate::sequences::{called_in, called_rule, follow_sequence, sequence_at, Sequence};
use crate::text::{
    call_paren,
    excerpt,
    fragment,
    lemma_ascii_ends_make_a_fragment,
    newlines_before,
    skip_blank,
    skip_spaces,
};

verus! {

/// One call of a chain.
pub struct Link {
    /// Whether the function called is a decode function (else it is a sink).
    pub decodes: bool,
    /// The offset of the call's opening parenthesis.
    pub paren: int,
}

/// A run of directly nested calls.
pub struct Chain {
    /// The offset just past the opening parenthesis of the innermost call; the
    /// start offset for a run of no calls.
    pub end: int,
    /// How many of the calls are decode functions.
    pub decoders: nat,
    /// How many of the calls are execution sinks.
    pub sinks: nat,
}

/// The chain link that starts at `at`: a call of a decode function or,
/// failing that, of an execution sink.
pub open spec fn link_at(text: Seq<u8>, at: int, lang: Option<WebshellLanguage>) -> Option<Link> {
    match called_rule(text, at, DECODERS@, lang, 0) {
        Some(k) => Some(
            Link { decodes: true, paren: call_paren(text, at, DECODERS@[k].0.spec_bytes()) },
        ),
        None => match called_rule(text, at, SINKS@, lang, 0) {
            Some(k) => Some(
                Link { decodes: false, paren: call_paren(text, at, SINKS@[k].0.spec_bytes()) },
            ),
            None => None,
        },
    }
}

/// The longest chain that starts at `at`.
pub open spec fn chain_at(text: Seq<u8>, at: int, lang: Option<WebshellLanguage>) -> Chain
    decreases text.len() - at,
{
    match link_at(text, at, lang) {
        None => Chain { end: at, decoders: 0, sinks: 0 },
        Some(link) => {
            let next = skip_spaces(text, link.paren + 1);
            let rest = if at < next <= text.len() {
                chain_at(text, next, lang)
            } else {
                Chain { end: next, decoders: 0, sinks: 0 }
            };
            Chain {
                end: if rest.decoders + rest.sinks == 0 {
                    link.paren + 1
                } else {
                    rest.end
                },
                decoders: rest.decoders + if link.decodes {
                    1nat
                } else {
                    0nat
                },
                sinks: rest.sinks + if link.decodes {
                    0nat
                } else {
                    1nat
                },
            }
        },
    }
}

/// The words for a chain of `depth` nested decode calls, with or without an
/// execution sink among the calls.
pub open spec fn chain_description(depth: nat, with_sink: bool) -> Seq<char> {
    let nested = "Decode calls nested "@ + decimal(depth) + " deep"@;
    if with_sink {
        nested + " around an execution sink"@
    } else {
        nested
    }
}

/// The words for `steps` statements that decode one variable in turn.
pub open spec fn sequence_description(steps: nat) -> Seq<char> {
    "Decode calls applied to one variable "@ + decimal(steps) + " times in a row"@
}

/// The finding for the chain `chain` that starts at `at`.
pub open spec fn chain_finding(text: Seq<u8>, at: int, chain: Chain) -> Finding {
    Finding {
        category: DetectionCategory::DecodeChain,
        description: chain_description(chain.decoders, chain.sinks > 0),
        pattern: excerpt(text, at, chain.end),
        line_number: Some(line_of(text, at)),
    }
}

/// The finding for the statements from `at` on that decode one variable in
/// turn.
pub open spec fn sequence_finding(text: Seq<u8>, at: int, sequence: Sequence) -> Finding {
    Finding {
        category: DetectionCategory::DecodeChain,
        description: sequence_description(sequence.steps),
        pattern: excerpt(text, at, sequence.end),
        line_number: Some(line_of(text, at)),
    }
}

/// Where the search for chains goes on behind offset `from`: behind the
/// chain that starts there, or at the next offset if none does.
pub open spec fn search_resumes(text: Seq<u8>, lang: Option<WebshellLanguage>, from: int) -> int {
    let chain = chain_at(text, from, lang);
    let sequence = sequence_at(text, from, lang);
    let stop = if chain.decoders < 2 && sequence.steps >= 2 {
        sequence.end
    } else {
        chain.end
    };
    if from < stop <= text.len() {
        stop
    } else {
        from + 1
    }
}

/// The decode chains of `text` from offset `from` on, in text order. The
/// search goes on behind each chain it meets, reported or not.
pub open spec fn chain_findings_from(
    text: Seq<u8>,
    lang: Option<WebshellLanguage>,
    from: int,
) -> Seq<Finding>
    decreases text.len() - from,
{
    if from < 0 || from >= text.len() {
        Seq::empty()
    } else {
        let chain = chain_at(text, from, lang);
        let sequence = sequence_at(text, from, lang);
        let next = search_resumes(text, lang, from);
        if chain.decoders >= 2 {
            seq![chain_finding(text, from, chain)] + chain_findings_from(text, lang, next)
        } else if sequence.steps >= 2 {
            seq![sequence_finding(text, from, sequence)] + chain_findings_from(text, lang, next)
        } else {
            chain_findings_from(text, lang, next)
        }
    }
}

/// All decode chains of `text`.
pub open spec fn chain_findings(text: Seq<u8>, lang: Option<WebshellLanguage>) -> Seq<Finding> {
    chain_findings_from(text, lang, 0)
}

/// Every decode-chain finding is of that category and names a line of the
/// text, and the findings come in the order of their lines.
pub proof fn lemma_chain_findings_are_ordered(text: Seq<u8>, lang: Option<WebshellLanguage>)
    requires
        text.len() <= usize::MAX,
    ensures
        forall|i: int|
            0 <= i < chain_findings(text, lang).len() ==> (#[trigger] chain_findings(
                text,
                lang,
            )[i]).category == DetectionCategory::DecodeChain && chain_findings(
                text,
                lang,
            )[i].line_number is Some,
        forall|i: int, j: int|
            0 <= i <= j < chain_findings(text, lang).len() ==> (#[trigger] chain_findings(
                text,
                lang,
            )[i]).line_number->0 <= (#[trigger] chain_findings(text, lang)[j]).line_number->0,
{
    lemma_chains_from_are_ordered(text, lang, 0);
}

proof fn lemma_chains_from_are_ordered(text: Seq<u8>, lang: Option<WebshellLanguage>, from: int)
    requires
        0 <= from,
        text.len() <= usize::MAX,
    ensures
        forall|i: int|
            0 <= i < chain_findings_from(text, lang, from).len() ==> {
                let f = #[trigger] chain_findings_from(text, lang, from)[i];
                &&& f.category == DetectionCategory::DecodeChain
                &&& f.line_number is Some
                &&& f.line_number->0 >= newlines_before(text, from) + 1
            },
        forall|i: int, j: int|
            0 <= i <= j < chain_findings_from(text, lang, from).len() ==> (
            #[trigger] chain_findings_from(text, lang, from)[i]).line_number->0 <= (
            #[trigger] chain_findings_from(text, lang, from)[j]).line_number->0,
    decreases text.len() - from,
{
    if from < text.len() {
        let chain = chain_at(text, from, lang);
        let sequence = sequence_at(text, from, lang);
        let next = search_resumes(text, lang, from);
        let all = chain_findings_from(text, lang, from);
        let rest = chain_findings_from(text, lang, next);
        lemma_chains_from_are_ordered(text, lang, next);
        lemma_newlines_grow(text, from, next);
        lemma_newlines_grow(text, 0, from);
        if chain.decoders >= 2 || sequence.steps >= 2 {
            let first = if chain.decoders >= 2 {
                chain_finding(text, from, chain)
            } else {
                sequence_finding(text, from, sequence)
            };
            assert(all == seq![first] + rest);
            assert forall|i: int| 0 <= i < all.len() implies {
                let f = #[trigger] all[i];
                &&& f.category == DetectionCategory::DecodeChain
                &&& f.line_number is Some
                &&& f.line_number->0 >= newlines_before(text, from) + 1
            } by {
                if i > 0 {
                    assert(all[i] == rest[i - 1]);
                }
            }
            assert forall|i: int, j: int| 0 <= i <= j < all.len() implies (
            #[trigger] all[i]).line_number->0 <= (#[trigger] all[j]).line_number->0 by {
                if i > 0 {
                    assert(all[i] == rest[i - 1]);
                }
                if j > 0 {
                    assert(all[j] == rest[j - 1]);
                }
            }
        }
    }
}

/// A text in which no chain holds two decode functions, and no two
/// statements in a row decode one variable, has no decode-chain findings.
pub proof fn lemma_short_chains_are_silent(text: Seq<u8>, lang: Option<WebshellLanguage>)
    requires
        forall|at: int| 0 <= at < text.len() ==> chain_at(text, at, lang).decoders < 2,
        forall|at: int| 0 <= at < text.len() ==> sequence_at(text, at, lang).steps < 2,
    ensures
        chain_findings(text, lang) == Seq::<Finding>::empty(),
{
    lemma_short_chains_from(text, lang, 0);
}

proof fn lemma_short_chains_from(text: Seq<u8>, lang: Option<WebshellLanguage>, from: int)
    requires
        forall|at: int| 0 <= at < text.len() ==> chain_at(text, at, lang).decoders < 2,
        forall|at: int| 0 <= at < text.len() ==> sequence_at(text, at, lang).steps < 2,
    ensures
        chain_findings_from(text, lang, from) == Seq::<Finding>::empty(),
    decreases text.len() - from,
{
    if 0 <= from < text.len() {
        lemma_short_chains_from(text, lang, search_resumes(text, lang, from));
    }
}

/// Finds the chain link that starts at `at`: whether it decodes, and where
/// its opening parenthesis stands.
fn find_link(
    text: &[u8],
    decoders: &[Rule],
    sinks: &[Rule],
    at: usize,
    lang: Option<WebshellLanguage>,
) -> (found: Option<(bool, usize)>)
    requires
        decoders@ == DECODERS@,
        sinks@ == SINKS@,
    ensures
        match found {
            Some(hit) => link_at(text@, at as int, lang) == Some(
                Link { decodes: hit.0, paren: hit.1 as int },
            ) && at < hit.1 < text@.len() && text@[at as int] < 0x80 && text@[hit.1 as int]
                == 0x28,
            None => link_at(text@, at as int, lang) is None,
        },
{
    proof {
        lemma_decoders_are_ascii();
        lemma_sinks_are_ascii();
    }
    match called_in(text, decoders, at, lang) {
        Some(p) => Some((true, p)),
        None => match called_in(text, sinks, at, lang) {
            Some(p) => Some((false, p)),
            None => None,
        },
    }
}

/// Follows the chain that starts at `at` and returns its end and its counts
/// of decode functions and of sinks.
fn follow_chain(
    text: &[u8],
    decoders: &[Rule],
    sinks: &[Rule],
    at: usize,
    lang: Option<WebshellLanguage>,
) -> (found: (usize, usize, usize))
    requires
        decoders@ == DECODERS@,
        sinks@ == SINKS@,
        at <= text@.len(),
    ensures
        chain_at(text@, at as int, lang) == (Chain {
            end: found.0 as int,
            decoders: found.1 as nat,
            sinks: found.2 as nat,
        }),
        found.1 + found.2 == 0 ==> found.0 == at,
        found.1 + found.2 > 0 ==> at < found.0 <= text@.len() && text@[at as int] < 0x80
            && text@[found.0 - 1] == 0x28,
{
    let n = text.len();
    let mut cur: usize = at;
    let mut end: usize = at;
    let mut decoding: usize = 0;
    let mut running: usize = 0;
    let ghost whole = chain_at(text@, at as int, lang);
    loop
        invariant
            decoders@ == DECODERS@,
            sinks@ == SINKS@,
            n == text@.len(),
            at <= cur <= n,
            at <= end <= n,
            decoding + running <= cur - at,
            decoding + running == 0 ==> end == at && cur == at,
            decoding + running > 0 ==> at < end && text@[at as int] < 0x80 && text@[end - 1]
                == 0x28,
            whole == chain_at(text@, at as int, lang),
            whole.decoders == decoding + chain_at(text@, cur as int, lang).decoders,
            whole.sinks == running + chain_at(text@, cur as int, lang).sinks,
            whole.end == if chain_at(text@, cur as int, lang).decoders + chain_at(
                text@,
                cur as int,
                lang,
            ).sinks == 0 {
                end as int
            } else {
                chain_at(text@, cur as int, lang).end
            },
        decreases n - cur,
    {
        match find_link(text, decoders, sinks, cur, lang) {
            None => {
                return (end, decoding, running);
            },
            Some(hit) => {
                if hit.0 {
                    decoding = decoding + 1;
                } else {
                    running = running + 1;
                }
                end = hit.1 + 1;
                cur = skip_blank(text, hit.1 + 1);
            },
        }
    }
}

fn describe_chain(depth: usize, with_sink: bool) -> (s: String)
    ensures
        s@ == chain_description(depth as nat, with_sink),
{
    let mut s = String::from_str("Decode calls nested ");
    let number = decimal_text(depth as u64);
    s.append(number.as_str());
    s.append(" deep");
    if with_sink {
        s.append(" around an execution sink");
    }
    s
}

fn describe_sequence(steps: usize) -> (s: String)
    ensures
        s@ == sequence_description(steps as nat),
{
    let mut s = String::from_str("Decode calls applied to one variable ");
    let number = decimal_text(steps as u64);
    s.append(number.as_str());
    s.append(" times in a row");
    s
}

/// Appends the decode chains of `content` to `out`.
pub fn find_chains(content: &str, lang: Option<WebshellLanguage>, out: &mut Vec<Detection>)
    ensures
        final(out).deep_view() == old(out).deep_view() + chain_findings(
            content.spec_bytes(),
            lang,
        ),
{
    let decoder_table = DECODERS;
    let sink_table = SINKS;
    let decoders = decoder_table.as_slice();
    let sinks = sink_table.as_slice();
    let text = content.as_bytes();
    let n = text.len();
    let ghost before = out.deep_view();
    let mut at: usize = 0;
    let mut newlines: usize = 0;
    while at < n
        invariant
            decoders@ == DECODERS@,
            sinks@ == SINKS@,
            at <= n,
            n == text@.len(),
            text@ == content.spec_bytes(),
            newlines == newlines_before(text@, at as int),
            newlines <= at,
            before + chain_findings(text@, lang) == out.deep_view() + chain_findings_from(
                text@,
                lang,
                at as int,
            ),
        decreases n - at,
    {
        let chain = follow_chain(text, decoders, sinks, at, lang);
        let sequence = if chain.1 >= 2 {
            (at, 0)
        } else {
            follow_sequence(text, decoders, at, lang)
        };
        let stop = if sequence.1 >= 2 {
            sequence.0
        } else {
            chain.0
        };
        let next = if at < stop {
            stop
        } else {
            at + 1
        };
        if sequence.1 >= 2 {
            let ghost so_far = out.deep_view();
            proof {
                encode_utf8_valid_utf8(content@);
                lemma_ascii_ends_make_a_fragment(text@, at as int, sequence.0 as int);
            }
            record(
                out,
                Detection {
                    category: DetectionCategory::DecodeChain,
                    description: describe_sequence(sequence.1),
                    pattern: fragment(content, at, sequence.0),
                    line_number: Some(newlines + 1),
                },
            );
            assert(out.deep_view() + chain_findings_from(text@, lang, next as int) == so_far
                + chain_findings_from(text@, lang, at as int));
        }
        if chain.1 >= 2 {
            let description = describe_chain(chain.1, chain.2 > 0);
            let ghost so_far = out.deep_view();
            proof {
                encode_utf8_valid_utf8(content@);
                lemma_ascii_ends_make_a_fragment(text@, at as int, chain.0 as int);
            }
            record(
                out,
                Detection {
                    category: DetectionCategory::DecodeChain,
                    description,
                    pattern: fragment(content, at, chain.0),
                    line_number: Some(newlines + 1),
                },
            );
            assert(out.deep_view() + chain_findings_from(text@, lang, next as int) == so_far
                + chain_findings_from(text@, lang, at as int));
        }
        while at < next
            invariant
                at <= next <= n,
                n == text@.len(),
                newlines == newlines_before(text@, at as int),
                newlines <= at,
            decreases next - at,
        {
            if text[at] == 0x0a {
                newlines = newlines + 1;
            }
            at = at + 1;
        }
    }
}

} // verus!
