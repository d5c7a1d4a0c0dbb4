//! The table-driven detectors.
//!
//! A *pass* walks the scanned text once and tries every rule of its table at
//! every offset. Findings come out ordered by offset and, at one offset, by
//! the rule's place in the table.

use vstd::prelude::*;
use vstd::slice::*;
use vstd::string::*;
use vstd::utf8::*;
use crate::audit::{
    ascii_needles,
    lemma_dynamic_idioms_are_ascii,
    lemma_signatures_are_ascii,
    lemma_sinks_are_ascii,
    lemma_taint_markers_are_ascii,
};
use crate::detection::{Detection, DetectionCategory, Finding};
use crate::language::WebshellLanguage;
use crate::rules::{in_scope, scope_covers, Rule, DYNAMIC_IDIOMS, SIGNATURES, SINKS, TAINT_MARKERS};
use crate::text::{
    call_at,
    call_paren,
    excerpt,
    find_call,
    fragment,
    lemma_ascii_ends_make_a_fragment,
    lemma_match_of_ascii,
    matches_at,
    newlines_before,
    occurs_at,
};

verus! {

/// The table-driven passes.
#[derive(Clone, Copy, Debug, PartialEq, Eq, Structural)]
pub enum Pass {
    /// Request input inside the argument list of an execution sink.
    InputChains,
    /// Marker strings of known webshell tools.
    Signatures,
    /// Calls of execution sinks.
    SuspiciousFunctions,
    /// Idioms of run-time code assembly.
    DynamicIdioms,
}

/// How far past the opening parenthesis of a sink call the search for request
/// input goes at most.
pub const SPAN_LIMIT: usize = 256;

/// The table that a pass tries.
pub open spec fn rules_of(pass: Pass) -> Seq<Rule> {
    match pass {
        Pass::InputChains => SINKS@,
        Pass::Signatures => SIGNATURES@,
        Pass::SuspiciousFunctions => SINKS@,
        Pass::DynamicIdioms => DYNAMIC_IDIOMS@,
    }
}

/// The category under which a pass reports.
pub open spec fn category_of(pass: Pass) -> DetectionCategory {
    match pass {
        Pass::InputChains => DetectionCategory::InputToEval,
        Pass::Signatures => DetectionCategory::KnownSignature,
        Pass::SuspiciousFunctions => DetectionCategory::SuspiciousFunction,
        Pass::DynamicIdioms => DetectionCategory::DynamicExecution,
    }
}

/// The words that open the description of a pass's finding; the rule's label
/// follows them.
pub open spec fn lead_of(pass: Pass) -> &'static str {
    match pass {
        Pass::InputChains => "Request input reaches ",
        Pass::Signatures => "Known webshell signature: ",
        Pass::SuspiciousFunctions => "Call of dangerous function ",
        Pass::DynamicIdioms => "Dynamic execution idiom: ",
    }
}

/// The 1-based number of the line that holds offset `at`.
pub open spec fn line_of(text: Seq<u8>, at: int) -> usize {
    (newlines_before(text, at) + 1) as usize
}

/// Where the argument list that was opened just before `at` ends: at the
/// parenthesis that closes it, or at `limit` if none does before. `depth` is
/// the number of parentheses open at `at`.
pub open spec fn span_end(text: Seq<u8>, at: int, depth: nat, limit: int) -> int
    decreases limit - at,
{
    if at >= limit || at < 0 || at >= text.len() {
        limit
    } else if text[at] == 0x28 {
        span_end(text, at + 1, depth + 1, limit)
    } else if text[at] == 0x29 {
        if depth <= 1 {
            at
        } else {
            span_end(text, at + 1, (depth - 1) as nat, limit)
        }
    } else {
        span_end(text, at + 1, depth, limit)
    }
}

/// The end of the stretch searched for request input after the opening
/// parenthesis at `paren`.
pub open spec fn argument_end(text: Seq<u8>, paren: int) -> int {
    let limit = if text.len() - (paren + 1) > SPAN_LIMIT as int {
        paren + 1 + SPAN_LIMIT as int
    } else {
        text.len() as int
    };
    span_end(text, paren + 1, 1, limit)
}

/// The first taint marker in scope, from table index `from` on, that stands
/// at `at` and ends by `end`.
pub open spec fn marker_at(
    text: Seq<u8>,
    at: int,
    end: int,
    lang: Option<WebshellLanguage>,
    from: int,
) -> Option<int>
    decreases TAINT_MARKERS@.len() - from,
{
    if from < 0 || from >= TAINT_MARKERS@.len() {
        None
    } else if in_scope(TAINT_MARKERS@[from].2, lang) && occurs_at(
        text,
        at,
        TAINT_MARKERS@[from].0.spec_bytes(),
    ) && at + TAINT_MARKERS@[from].0.spec_bytes().len() <= end {
        Some(from)
    } else {
        marker_at(text, at, end, lang, from + 1)
    }
}

/// The first offset in `from..end` at which a taint marker in scope stands
/// and ends by `end`, with the marker's table index.
pub open spec fn first_marker(
    text: Seq<u8>,
    from: int,
    end: int,
    lang: Option<WebshellLanguage>,
) -> Option<(int, int)>
    decreases end - from,
{
    if from >= end {
        None
    } else {
        match marker_at(text, from, end, lang, 0) {
            Some(k) => Some((from, k)),
            None => first_marker(text, from + 1, end, lang),
        }
    }
}

/// What rule `k` of `pass` finds at offset `at`, if anything.
pub open spec fn probe(
    pass: Pass,
    text: Seq<u8>,
    lang: Option<WebshellLanguage>,
    at: int,
    k: int,
) -> Option<Finding> {
    let rule = rules_of(pass)[k];
    let needle = rule.0.spec_bytes();
    if !in_scope(rule.2, lang) {
        None
    } else {
        match pass {
            Pass::Signatures | Pass::DynamicIdioms => if occurs_at(text, at, needle) {
                Some(
                    Finding {
                        category: category_of(pass),
                        description: lead_of(pass)@ + rule.1@,
                        pattern: excerpt(text, at, at + needle.len()),
                        line_number: Some(line_of(text, at)),
                    },
                )
            } else {
                None
            },
            Pass::SuspiciousFunctions => if call_at(text, at, needle) {
                Some(
                    Finding {
                        category: category_of(pass),
                        description: lead_of(pass)@ + rule.1@,
                        pattern: excerpt(text, at, call_paren(text, at, needle) + 1),
                        line_number: Some(line_of(text, at)),
                    },
                )
            } else {
                None
            },
            Pass::InputChains => if call_at(text, at, needle) {
                let paren = call_paren(text, at, needle);
                match first_marker(text, paren + 1, argument_end(text, paren), lang) {
                    Some((m, j)) => Some(
                        Finding {
                            category: category_of(pass),
                            description: lead_of(pass)@ + rule.1@ + ": "@ + TAINT_MARKERS@[j].1@,
                            pattern: excerpt(
                                text,
                                at,
                                m + TAINT_MARKERS@[j].0.spec_bytes().len(),
                            ),
                            line_number: Some(line_of(text, at)),
                        },
                    ),
                    None => None,
                }
            } else {
                None
            },
        }
    }
}

/// What the first `upto` rules of `pass` find at offset `at`, in table order.
pub open spec fn sweep_at(
    pass: Pass,
    text: Seq<u8>,
    lang: Option<WebshellLanguage>,
    at: int,
    upto: int,
) -> Seq<Finding>
    decreases upto,
{
    if upto <= 0 {
        Seq::empty()
    } else {
        match probe(pass, text, lang, at, upto - 1) {
            Some(f) => sweep_at(pass, text, lang, at, upto - 1).push(f),
            None => sweep_at(pass, text, lang, at, upto - 1),
        }
    }
}

/// What `pass` finds at the offsets below `upto`, ordered by offset and then
/// by rule.
pub open spec fn sweep(
    pass: Pass,
    text: Seq<u8>,
    lang: Option<WebshellLanguage>,
    upto: int,
) -> Seq<Finding>
    decreases upto,
{
    if upto <= 0 {
        Seq::empty()
    } else {
        sweep(pass, text, lang, upto - 1) + sweep_at(
            pass,
            text,
            lang,
            upto - 1,
            rules_of(pass).len() as int,
        )
    }
}

/// Everything that `pass` finds in `text`.
pub open spec fn pass_findings(
    pass: Pass,
    text: Seq<u8>,
    lang: Option<WebshellLanguage>,
) -> Seq<Finding> {
    sweep(pass, text, lang, text.len() as int)
}

/// What a rule finds at an offset is among the findings of its pass.
pub proof fn lemma_probe_is_swept(
    pass: Pass,
    text: Seq<u8>,
    lang: Option<WebshellLanguage>,
    at: int,
    k: int,
)
    requires
        0 <= at < text.len(),
        0 <= k < rules_of(pass).len(),
        probe(pass, text, lang, at, k) is Some,
    ensures
        pass_findings(pass, text, lang).contains(probe(pass, text, lang, at, k)->0),
{
    lemma_sweep_holds(pass, text, lang, text.len() as int, at, k);
}

proof fn lemma_sweep_at_holds(
    pass: Pass,
    text: Seq<u8>,
    lang: Option<WebshellLanguage>,
    at: int,
    upto: int,
    k: int,
)
    requires
        0 <= k < upto,
        probe(pass, text, lang, at, k) is Some,
    ensures
        sweep_at(pass, text, lang, at, upto).contains(probe(pass, text, lang, at, k)->0),
    decreases upto,
{
    let f = probe(pass, text, lang, at, k)->0;
    let here = sweep_at(pass, text, lang, at, upto);
    let before = sweep_at(pass, text, lang, at, upto - 1);
    if k == upto - 1 {
        assert(here == before.push(f));
        assert(here[before.len() as int] == f);
    } else {
        lemma_sweep_at_holds(pass, text, lang, at, upto - 1, k);
        let i = choose|i: int| 0 <= i < before.len() && before[i] == f;
        assert(here[i] == f);
    }
}

proof fn lemma_sweep_holds(
    pass: Pass,
    text: Seq<u8>,
    lang: Option<WebshellLanguage>,
    upto: int,
    at: int,
    k: int,
)
    requires
        0 <= at < upto,
        0 <= k < rules_of(pass).len(),
        probe(pass, text, lang, at, k) is Some,
    ensures
        sweep(pass, text, lang, upto).contains(probe(pass, text, lang, at, k)->0),
    decreases upto,
{
    let f = probe(pass, text, lang, at, k)->0;
    let before = sweep(pass, text, lang, upto - 1);
    let last = sweep_at(pass, text, lang, upto - 1, rules_of(pass).len() as int);
    if at == upto - 1 {
        lemma_sweep_at_holds(pass, text, lang, at, rules_of(pass).len() as int, k);
        let i = choose|i: int| 0 <= i < last.len() && last[i] == f;
        assert((before + last)[before.len() + i] == f);
    } else {
        lemma_sweep_holds(pass, text, lang, upto - 1, at, k);
        let i = choose|i: int| 0 <= i < before.len() && before[i] == f;
        assert((before + last)[i] == f);
    }
}

/// Every finding of a pass is what one of its rules finds at some offset of
/// the text.
pub proof fn lemma_swept_is_probed(
    pass: Pass,
    text: Seq<u8>,
    lang: Option<WebshellLanguage>,
    f: Finding,
)
    requires
        pass_findings(pass, text, lang).contains(f),
    ensures
        exists|at: int, k: int|
            0 <= at < text.len() && 0 <= k < rules_of(pass).len() && #[trigger] probe(
                pass,
                text,
                lang,
                at,
                k,
            ) == Some(f),
{
    lemma_sweep_is_probed(pass, text, lang, text.len() as int, f);
}

proof fn lemma_sweep_at_is_probed(
    pass: Pass,
    text: Seq<u8>,
    lang: Option<WebshellLanguage>,
    at: int,
    upto: int,
    f: Finding,
)
    requires
        sweep_at(pass, text, lang, at, upto).contains(f),
    ensures
        exists|k: int| 0 <= k < upto && #[trigger] probe(pass, text, lang, at, k) == Some(f),
    decreases upto,
{
    if upto > 0 {
        let here = sweep_at(pass, text, lang, at, upto);
        let before = sweep_at(pass, text, lang, at, upto - 1);
        let i = choose|i: int| 0 <= i < here.len() && here[i] == f;
        if i < before.len() {
            assert(before[i] == f);
            lemma_sweep_at_is_probed(pass, text, lang, at, upto - 1, f);
        } else {
            assert(probe(pass, text, lang, at, upto - 1) == Some(f));
        }
    }
}

proof fn lemma_sweep_is_probed(
    pass: Pass,
    text: Seq<u8>,
    lang: Option<WebshellLanguage>,
    upto: int,
    f: Finding,
)
    requires
        sweep(pass, text, lang, upto).contains(f),
    ensures
        exists|at: int, k: int|
            0 <= at < upto && 0 <= k < rules_of(pass).len() && #[trigger] probe(
                pass,
                text,
                lang,
                at,
                k,
            ) == Some(f),
    decreases upto,
{
    if upto > 0 {
        let all = sweep(pass, text, lang, upto);
        let before = sweep(pass, text, lang, upto - 1);
        let here = sweep_at(pass, text, lang, upto - 1, rules_of(pass).len() as int);
        let i = choose|i: int| 0 <= i < all.len() && all[i] == f;
        if i < before.len() {
            assert(before[i] == f);
            lemma_sweep_is_probed(pass, text, lang, upto - 1, f);
        } else {
            assert(here[i - before.len()] == f);
            lemma_sweep_at_is_probed(pass, text, lang, upto - 1, rules_of(pass).len() as int, f);
            let k = choose|k: int|
                0 <= k < rules_of(pass).len() && #[trigger] probe(pass, text, lang, upto - 1, k)
                    == Some(f);
            assert(probe(pass, text, lang, upto - 1, k) == Some(f));
        }
    }
}

/// Every finding of a pass is of the pass's category and names a line of the
/// text, and the findings come in the order of their lines.
pub proof fn lemma_pass_findings_are_ordered(
    pass: Pass,
    text: Seq<u8>,
    lang: Option<WebshellLanguage>,
)
    requires
        text.len() <= usize::MAX,
    ensures
        forall|i: int|
            0 <= i < pass_findings(pass, text, lang).len() ==> (#[trigger] pass_findings(
                pass,
                text,
                lang,
            )[i]).category == category_of(pass) && pass_findings(
                pass,
                text,
                lang,
            )[i].line_number is Some,
        forall|i: int, j: int|
            0 <= i <= j < pass_findings(pass, text, lang).len() ==> (#[trigger] pass_findings(
                pass,
                text,
                lang,
            )[i]).line_number->0 <= (#[trigger] pass_findings(pass, text, lang)[j]).line_number->0,
{
    lemma_sweep_is_ordered(pass, text, lang, text.len() as int);
}

/// The line count grows with the offset.
pub proof fn lemma_newlines_grow(text: Seq<u8>, from: int, to: int)
    requires
        0 <= from <= to,
    ensures
        newlines_before(text, from) <= newlines_before(text, to) <= newlines_before(text, from)
            + (to - from),
        newlines_before(text, to) <= to,
    decreases to - from,
{
    if from < to {
        lemma_newlines_grow(text, from, to - 1);
    } else {
        lemma_newlines_are_few(text, to);
    }
}

proof fn lemma_newlines_are_few(text: Seq<u8>, at: int)
    ensures
        newlines_before(text, at) <= if at < 0 {
            0
        } else {
            at
        },
    decreases at,
{
    if at > 0 {
        lemma_newlines_are_few(text, at - 1);
    }
}

proof fn lemma_sweep_at_is_uniform(
    pass: Pass,
    text: Seq<u8>,
    lang: Option<WebshellLanguage>,
    at: int,
    upto: int,
)
    ensures
        forall|i: int|
            0 <= i < sweep_at(pass, text, lang, at, upto).len() ==> (#[trigger] sweep_at(
                pass,
                text,
                lang,
                at,
                upto,
            )[i]).category == category_of(pass) && sweep_at(
                pass,
                text,
                lang,
                at,
                upto,
            )[i].line_number == Some(line_of(text, at)),
    decreases upto,
{
    if upto > 0 {
        lemma_sweep_at_is_uniform(pass, text, lang, at, upto - 1);
    }
}

proof fn lemma_sweep_is_ordered(
    pass: Pass,
    text: Seq<u8>,
    lang: Option<WebshellLanguage>,
    upto: int,
)
    requires
        upto <= text.len() <= usize::MAX,
    ensures
        forall|i: int|
            0 <= i < sweep(pass, text, lang, upto).len() ==> {
                let f = #[trigger] sweep(pass, text, lang, upto)[i];
                &&& f.category == category_of(pass)
                &&& f.line_number is Some
                &&& f.line_number->0 <= newlines_before(text, upto) + 1
            },
        forall|i: int, j: int|
            0 <= i <= j < sweep(pass, text, lang, upto).len() ==> (#[trigger] sweep(
                pass,
                text,
                lang,
                upto,
            )[i]).line_number->0 <= (#[trigger] sweep(pass, text, lang, upto)[j]).line_number->0,
    decreases upto,
{
    if upto > 0 {
        let before = sweep(pass, text, lang, upto - 1);
        let here = sweep_at(pass, text, lang, upto - 1, rules_of(pass).len() as int);
        lemma_sweep_is_ordered(pass, text, lang, upto - 1);
        lemma_sweep_at_is_uniform(pass, text, lang, upto - 1, rules_of(pass).len() as int);
        lemma_newlines_grow(text, upto - 1, upto);
        lemma_newlines_grow(text, 0, upto - 1);
        let all = sweep(pass, text, lang, upto);
        assert(all == before + here);
        assert forall|i: int| 0 <= i < all.len() implies {
            let f = #[trigger] all[i];
            &&& f.category == category_of(pass)
            &&& f.line_number is Some
            &&& f.line_number->0 <= newlines_before(text, upto) + 1
        } by {
            if i < before.len() {
                assert(all[i] == before[i]);
            } else {
                assert(all[i] == here[i - before.len()]);
            }
        }
        assert forall|i: int, j: int| 0 <= i <= j < all.len() implies (
        #[trigger] all[i]).line_number->0 <= (#[trigger] all[j]).line_number->0 by {
            if j < before.len() {
                assert(all[i] == before[i]);
                assert(all[j] == before[j]);
            } else if i < before.len() {
                assert(all[i] == before[i]);
                assert(all[j] == here[j - before.len()]);
            } else {
                assert(all[i] == here[i - before.len()]);
                assert(all[j] == here[j - before.len()]);
            }
        }
    }
}

/// A pass whose rules find nothing at any offset has no findings.
pub proof fn lemma_idle_pass_is_empty(pass: Pass, text: Seq<u8>, lang: Option<WebshellLanguage>)
    requires
        forall|at: int, k: int|
            0 <= at < text.len() && 0 <= k < rules_of(pass).len() ==> probe(
                pass,
                text,
                lang,
                at,
                k,
            ) is None,
    ensures
        pass_findings(pass, text, lang) == Seq::<Finding>::empty(),
{
    lemma_idle_sweep(pass, text, lang, text.len() as int);
}

proof fn lemma_idle_sweep_at(
    pass: Pass,
    text: Seq<u8>,
    lang: Option<WebshellLanguage>,
    at: int,
    upto: int,
)
    requires
        upto <= rules_of(pass).len(),
        forall|k: int| 0 <= k < rules_of(pass).len() ==> probe(pass, text, lang, at, k) is None,
    ensures
        sweep_at(pass, text, lang, at, upto) == Seq::<Finding>::empty(),
    decreases upto,
{
    if upto > 0 {
        lemma_idle_sweep_at(pass, text, lang, at, upto - 1);
    }
}

proof fn lemma_idle_sweep(pass: Pass, text: Seq<u8>, lang: Option<WebshellLanguage>, upto: int)
    requires
        upto <= text.len(),
        forall|at: int, k: int|
            0 <= at < text.len() && 0 <= k < rules_of(pass).len() ==> probe(
                pass,
                text,
                lang,
                at,
                k,
            ) is None,
    ensures
        sweep(pass, text, lang, upto) == Seq::<Finding>::empty(),
    decreases upto,
{
    if upto > 0 {
        lemma_idle_sweep(pass, text, lang, upto - 1);
        lemma_idle_sweep_at(pass, text, lang, upto - 1, rules_of(pass).len() as int);
        assert(Seq::<Finding>::empty() + Seq::<Finding>::empty() =~= Seq::<Finding>::empty());
    }
}

/// Taint marker `j` is in scope for `lang`, stands at `at` and ends by `end`.
pub open spec fn marker_fits(
    text: Seq<u8>,
    at: int,
    end: int,
    lang: Option<WebshellLanguage>,
    j: int,
) -> bool {
    &&& 0 <= j < TAINT_MARKERS@.len()
    &&& in_scope(TAINT_MARKERS@[j].2, lang)
    &&& occurs_at(text, at, TAINT_MARKERS@[j].0.spec_bytes())
    &&& at + TAINT_MARKERS@[j].0.spec_bytes().len() <= end
}

/// What the first-marker search finds is a marker that fits, no marker fits
/// at an earlier offset, and none that comes earlier in the table fits at
/// the same offset. Where it finds nothing, no marker fits anywhere in range.
pub proof fn lemma_first_marker_is_first(
    text: Seq<u8>,
    from: int,
    end: int,
    lang: Option<WebshellLanguage>,
)
    ensures
        match first_marker(text, from, end, lang) {
            Some((m, j)) => {
                &&& from <= m < end
                &&& marker_fits(text, m, end, lang, j)
                &&& forall|i: int| 0 <= i < j ==> !marker_fits(text, m, end, lang, i)
                &&& forall|n: int, i: int| from <= n < m ==> !marker_fits(text, n, end, lang, i)
            },
            None => forall|n: int, i: int| from <= n < end ==> !marker_fits(text, n, end, lang, i),
        },
    decreases end - from,
{
    if from < end {
        lemma_marker_at_is_first(text, from, end, lang, 0);
        if marker_at(text, from, end, lang, 0) is None {
            lemma_first_marker_is_first(text, from + 1, end, lang);
        }
    }
}

proof fn lemma_marker_at_is_first(
    text: Seq<u8>,
    at: int,
    end: int,
    lang: Option<WebshellLanguage>,
    from: int,
)
    requires
        0 <= from,
    ensures
        match marker_at(text, at, end, lang, from) {
            Some(j) => from <= j && marker_fits(text, at, end, lang, j) && forall|i: int|
                from <= i < j ==> !marker_fits(text, at, end, lang, i),
            None => forall|i: int| from <= i ==> !marker_fits(text, at, end, lang, i),
        },
    decreases TAINT_MARKERS@.len() - from,
{
    if from < TAINT_MARKERS@.len() {
        lemma_marker_at_is_first(text, at, end, lang, from + 1);
    }
}

/// The first-marker search finds a marker wherever one stands in range.
pub proof fn lemma_marker_is_found(
    text: Seq<u8>,
    from: int,
    end: int,
    lang: Option<WebshellLanguage>,
    m: int,
    j: int,
)
    requires
        from <= m,
        0 <= j < TAINT_MARKERS@.len(),
        in_scope(TAINT_MARKERS@[j].2, lang),
        occurs_at(text, m, TAINT_MARKERS@[j].0.spec_bytes()),
        m + TAINT_MARKERS@[j].0.spec_bytes().len() <= end,
    ensures
        first_marker(text, from, end, lang) is Some,
    decreases m - from,
{
    if from < m {
        lemma_marker_is_found(text, from + 1, end, lang, m, j);
    } else {
        lemma_marker_at_is_found(text, m, end, lang, 0, j);
    }
}

proof fn lemma_marker_at_is_found(
    text: Seq<u8>,
    at: int,
    end: int,
    lang: Option<WebshellLanguage>,
    from: int,
    j: int,
)
    requires
        0 <= from <= j < TAINT_MARKERS@.len(),
        in_scope(TAINT_MARKERS@[j].2, lang),
        occurs_at(text, at, TAINT_MARKERS@[j].0.spec_bytes()),
        at + TAINT_MARKERS@[j].0.spec_bytes().len() <= end,
    ensures
        marker_at(text, at, end, lang, from) is Some,
    decreases j - from,
{
    if from < j {
        lemma_marker_at_is_found(text, at, end, lang, from + 1, j);
    }
}

/// Appends a detection to a list of findings.
pub fn record(out: &mut Vec<Detection>, d: Detection)
    ensures
        final(out).deep_view() == old(out).deep_view().push(d@),
{
    out.push(d);
    assert(out.deep_view() =~= old(out).deep_view().push(d@));
}

fn category(pass: Pass) -> (c: DetectionCategory)
    ensures
        c == category_of(pass),
{
    match pass {
        Pass::InputChains => DetectionCategory::InputToEval,
        Pass::Signatures => DetectionCategory::KnownSignature,
        Pass::SuspiciousFunctions => DetectionCategory::SuspiciousFunction,
        Pass::DynamicIdioms => DetectionCategory::DynamicExecution,
    }
}

fn lead(pass: Pass) -> (s: &'static str)
    ensures
        s == lead_of(pass),
{
    match pass {
        Pass::InputChains => "Request input reaches ",
        Pass::Signatures => "Known webshell signature: ",
        Pass::SuspiciousFunctions => "Call of dangerous function ",
        Pass::DynamicIdioms => "Dynamic execution idiom: ",
    }
}

/// Finds the end of the stretch to search after the opening parenthesis at
/// `paren`.
fn close_span(text: &[u8], paren: usize) -> (end: usize)
    requires
        paren < text@.len(),
    ensures
        end == argument_end(text@, paren as int),
        paren < end <= text@.len(),
{
    let n = text.len();
    let start = paren + 1;
    let limit = if n - start > SPAN_LIMIT {
        start + SPAN_LIMIT
    } else {
        n
    };
    let mut at: usize = start;
    let mut depth: usize = 1;
    while at < limit
        invariant
            start == paren + 1,
            limit == if text@.len() - start > SPAN_LIMIT as int {
                start + SPAN_LIMIT as int
            } else {
                text@.len() as int
            },
            1 <= start <= at <= limit <= text@.len() <= usize::MAX,
            1 <= depth <= 1 + (at - start),
            span_end(text@, at as int, depth as nat, limit as int) == span_end(
                text@,
                start as int,
                1,
                limit as int,
            ),
        decreases limit - at,
    {
        let b = text[at];
        if b == 0x28 {
            depth = depth + 1;
        } else if b == 0x29 {
            if depth <= 1 {
                return at;
            }
            depth = depth - 1;
        }
        at = at + 1;
    }
    limit
}

/// Finds the first taint marker in scope that stands at `at` and ends by
/// `end`.
fn marker_here(
    text: &[u8],
    markers: &[Rule],
    at: usize,
    end: usize,
    lang: Option<WebshellLanguage>,
) -> (found: Option<usize>)
    requires
        at <= end,
        markers@ == TAINT_MARKERS@,
    ensures
        found matches Some(k) ==> marker_at(text@, at as int, end as int, lang, 0) == Some(
            k as int,
        ) && k < TAINT_MARKERS@.len() && at + TAINT_MARKERS@[k as int].0.spec_bytes().len() <= end
            && occurs_at(text@, at as int, TAINT_MARKERS@[k as int].0.spec_bytes()),
        found is None ==> marker_at(text@, at as int, end as int, lang, 0) is None,
{
    let mut k: usize = 0;
    while k < markers.len()
        invariant
            k <= markers@.len(),
            markers@ == TAINT_MARKERS@,
            at <= end,
            marker_at(text@, at as int, end as int, lang, k as int) == marker_at(
                text@,
                at as int,
                end as int,
                lang,
                0,
            ),
        decreases markers@.len() - k,
    {
        let rule = markers[k];
        let needle = rule.0.as_bytes();
        if scope_covers(rule.2, lang) && matches_at(text, at, needle) && needle.len() <= end - at {
            return Some(k);
        }
        k = k + 1;
    }
    None
}

/// Finds the first place in `from..end` where request input is read.
fn find_marker(
    text: &[u8],
    markers: &[Rule],
    from: usize,
    end: usize,
    lang: Option<WebshellLanguage>,
) -> (found: Option<(usize, usize)>)
    requires
        from <= end,
        markers@ == TAINT_MARKERS@,
    ensures
        found matches Some(hit) ==> first_marker(text@, from as int, end as int, lang) == Some(
            (hit.0 as int, hit.1 as int),
        ) && from <= hit.0 < end && hit.1 < TAINT_MARKERS@.len() && hit.0
            + TAINT_MARKERS@[hit.1 as int].0.spec_bytes().len() <= end && occurs_at(
            text@,
            hit.0 as int,
            TAINT_MARKERS@[hit.1 as int].0.spec_bytes(),
        ),
        found is None ==> first_marker(text@, from as int, end as int, lang) is None,
{
    let mut at: usize = from;
    while at < end
        invariant
            from <= at <= end,
            markers@ == TAINT_MARKERS@,
            first_marker(text@, at as int, end as int, lang) == first_marker(
                text@,
                from as int,
                end as int,
                lang,
            ),
        decreases end - at,
    {
        match marker_here(text, markers, at, end, lang) {
            Some(k) => {
                return Some((at, k));
            },
            None => {},
        }
        at = at + 1;
    }
    None
}

/// The needles of every table are made of ASCII bytes.
pub proof fn lemma_tables_are_ascii(pass: Pass)
    ensures
        ascii_needles(rules_of(pass)),
        ascii_needles(TAINT_MARKERS@),
{
    lemma_signatures_are_ascii();
    lemma_sinks_are_ascii();
    lemma_dynamic_idioms_are_ascii();
    lemma_taint_markers_are_ascii();
}

fn describe(pass: Pass, label: &str) -> (s: String)
    ensures
        s@ == lead_of(pass)@ + label@,
{
    let mut s = String::from_str(lead(pass));
    s.append(label);
    s
}

/// Tries rule `k` of `pass` at offset `at`, which lies on line `line`.
fn try_rule(
    pass: Pass,
    rules: &[Rule],
    markers: &[Rule],
    content: &str,
    lang: Option<WebshellLanguage>,
    at: usize,
    k: usize,
    line: usize,
) -> (hit: Option<Detection>)
    requires
        rules@ == rules_of(pass),
        markers@ == TAINT_MARKERS@,
        at < content.spec_bytes().len(),
        k < rules_of(pass).len(),
        line == line_of(content.spec_bytes(), at as int),
    ensures
        hit matches Some(d) ==> probe(pass, content.spec_bytes(), lang, at as int, k as int)
            == Some(d@),
        hit is None ==> probe(pass, content.spec_bytes(), lang, at as int, k as int) is None,
{
    let text = content.as_bytes();
    let n = text.len();
    let rule = rules[k];
    if !scope_covers(rule.2, lang) {
        return None;
    }
    let needle = rule.0.as_bytes();
    proof {
        lemma_tables_are_ascii(pass);
        encode_utf8_valid_utf8(content@);
    }
    match pass {
        Pass::Signatures | Pass::DynamicIdioms => {
            if matches_at(text, at, needle) {
                proof {
                    lemma_match_of_ascii(text@, at as int, needle@, 0);
                    lemma_match_of_ascii(text@, at as int, needle@, needle@.len() - 1);
                    lemma_ascii_ends_make_a_fragment(text@, at as int, at + needle@.len());
                }
                Some(
                    Detection {
                        category: category(pass),
                        description: describe(pass, rule.1),
                        pattern: fragment(content, at, at + needle.len()),
                        line_number: Some(line),
                    },
                )
            } else {
                None
            }
        },
        Pass::SuspiciousFunctions => {
            match find_call(text, at, needle) {
                Some(paren) => {
                    proof {
                        lemma_match_of_ascii(text@, at as int, needle@, 0);
                        lemma_ascii_ends_make_a_fragment(text@, at as int, paren + 1);
                    }
                    Some(
                        Detection {
                            category: category(pass),
                            description: describe(pass, rule.1),
                            pattern: fragment(content, at, paren + 1),
                            line_number: Some(line),
                        },
                    )
                },
                None => None,
            }
        },
        Pass::InputChains => {
            match find_call(text, at, needle) {
                Some(paren) => {
                    let end = close_span(text, paren);
                    match find_marker(text, markers, paren + 1, end, lang) {
                        Some(hit) => {
                            let marker = markers[hit.1];
                            proof {
                                let found = marker.0.spec_bytes();
                                lemma_match_of_ascii(text@, at as int, needle@, 0);
                                lemma_match_of_ascii(
                                    text@,
                                    hit.0 as int,
                                    found,
                                    found.len() - 1,
                                );
                                lemma_ascii_ends_make_a_fragment(
                                    text@,
                                    at as int,
                                    hit.0 + found.len(),
                                );
                            }
                            let mut description = describe(pass, rule.1);
                            description.append(": ");
                            description.append(marker.1);
                            Some(
                                Detection {
                                    category: category(pass),
                                    description,
                                    pattern: fragment(
                                        content,
                                        at,
                                        hit.0 + marker.0.as_bytes().len(),
                                    ),
                                    line_number: Some(line),
                                },
                            )
                        },
                        None => None,
                    }
                },
                None => None,
            }
        },
    }
}

/// Runs one pass over `content` and appends what it finds to `out`.
pub fn run_pass(
    pass: Pass,
    content: &str,
    lang: Option<WebshellLanguage>,
    out: &mut Vec<Detection>,
)
    ensures
        final(out).deep_view() == old(out).deep_view() + pass_findings(
            pass,
            content.spec_bytes(),
            lang,
        ),
{
    let markers = TAINT_MARKERS;
    match pass {
        Pass::InputChains => {
            let rules = SINKS;
            sweep_rules(pass, rules.as_slice(), markers.as_slice(), content, lang, out)
        },
        Pass::Signatures => {
            let rules = SIGNATURES;
            sweep_rules(pass, rules.as_slice(), markers.as_slice(), content, lang, out)
        },
        Pass::SuspiciousFunctions => {
            let rules = SINKS;
            sweep_rules(pass, rules.as_slice(), markers.as_slice(), content, lang, out)
        },
        Pass::DynamicIdioms => {
            let rules = DYNAMIC_IDIOMS;
            sweep_rules(pass, rules.as_slice(), markers.as_slice(), content, lang, out)
        },
    }
}

/// Tries every rule of `rules` at every offset of `content`.
fn sweep_rules(
    pass: Pass,
    rules: &[Rule],
    markers: &[Rule],
    content: &str,
    lang: Option<WebshellLanguage>,
    out: &mut Vec<Detection>,
)
    requires
        rules@ == rules_of(pass),
        markers@ == TAINT_MARKERS@,
    ensures
        final(out).deep_view() == old(out).deep_view() + pass_findings(
            pass,
            content.spec_bytes(),
            lang,
        ),
{
    let text = content.as_bytes();
    let n = text.len();
    let count = rules.len();
    let ghost before = out.deep_view();
    let mut at: usize = 0;
    let mut newlines: usize = 0;
    while at < n
        invariant
            at <= n,
            n == text@.len(),
            text@ == content.spec_bytes(),
            rules@ == rules_of(pass),
            markers@ == TAINT_MARKERS@,
            count == rules_of(pass).len(),
            newlines == newlines_before(text@, at as int),
            newlines <= at,
            out.deep_view() == before + sweep(pass, text@, lang, at as int),
        decreases n - at,
    {
        let mut k: usize = 0;
        while k < count
            invariant
                at < n,
                n == text@.len(),
                text@ == content.spec_bytes(),
                rules@ == rules_of(pass),
                markers@ == TAINT_MARKERS@,
                k <= count,
                count == rules_of(pass).len(),
                newlines == newlines_before(text@, at as int),
                newlines <= at,
                out.deep_view() == before + sweep(pass, text@, lang, at as int) + sweep_at(
                    pass,
                    text@,
                    lang,
                    at as int,
                    k as int,
                ),
            decreases count - k,
        {
            match try_rule(pass, rules, markers, content, lang, at, k, newlines + 1) {
                Some(d) => {
                    record(out, d);
                },
                None => {},
            }
            k = k + 1;
        }
        if text[at] == 0x0a {
            newlines = newlines + 1;
        }
        at = at + 1;
        assert(out.deep_view() == before + sweep(pass, text@, lang, at as int));
    }
}

} // verus!
