//! What holds of every scan, proved from the definitions of the detectors,
//! the scorer and the threat level.

use vstd::prelude::*;
use vstd::string::*;
use crate::chains::{chain_at, chain_findings};
use crate::detect::{argument_end, pass_findings, probe, rules_of, Pass};
use crate::detection::{DetectionCategory, Finding, ThreatLevel};
use crate::framework::{suppressed, survives, survivor, Framework, ALLOWED_IDIOMS};
use crate::language::WebshellLanguage;
use crate::obfuscation::{dominates, measure, score_of, score_spec, Signals, MAX_SCORE};
use crate::rules::{in_scope, Scope, SIGNATURES, SINKS, TAINT_MARKERS};
use crate::scanner::{
    evidence,
    findings_of,
    has_category,
    obfuscation_finding,
    outcome,
    threat_level_of,
    two_distinct_functions,
    WebshellScanResult,
};
use crate::sequences::sequence_at;
use crate::text::{call_at, call_paren, occurs_at};

verus! {

/// The score never exceeds its maximum.
pub proof fn lemma_score_is_bounded(s: Signals)
    ensures
        score_of(s) <= MAX_SCORE,
{
}

/// The score grows with its signals: where no signal of `more` is below the
/// same signal of `less`, the score of `more` is not below that of `less`.
pub proof fn lemma_score_is_monotone(less: Signals, more: Signals)
    requires
        dominates(more, less),
    ensures
        score_of(less) <= score_of(more),
{
    assert(less.anomaly / 10 <= more.anomaly / 10);
    assert(less.degeneracy / 40 <= more.degeneracy / 40);
}

/// Appending obfuscation indicators to a text never lowers its score: the
/// score of the longer text is at least that of the shorter, as long as what
/// is appended thins out none of the three proportions that are measured and
/// does not undo a minified layout. (The count of long base64 runs can only
/// grow.)
pub proof fn lemma_more_indicators_never_lower_score(text: Seq<u8>, appended: Seq<u8>)
    requires
        measure(text).anomaly <= measure(text + appended).anomaly,
        measure(text).degeneracy <= measure(text + appended).degeneracy,
        measure(text).decoder_density <= measure(text + appended).decoder_density,
        measure(text).minified ==> measure(text + appended).minified,
    ensures
        score_spec(text) <= score_spec(text + appended),
{
    crate::obfuscation::lemma_long_runs_survive_appending(text, appended);
    lemma_score_is_monotone(measure(text), measure(text + appended));
}

/// Two scans of one text by one scanner in one mode give results that agree
/// in every field and in the order of their findings.
pub proof fn lemma_scan_is_deterministic(
    first: WebshellScanResult,
    second: WebshellScanResult,
    text: Seq<u8>,
    lang: Option<WebshellLanguage>,
    framework: Option<Framework>,
    threshold: u32,
)
    requires
        first@ == outcome(text, lang, framework, threshold),
        second@ == outcome(text, lang, framework, threshold),
    ensures
        first@ == second@,
        first.is_malicious == second.is_malicious,
        first.threat_level == second.threat_level,
        first.language == second.language,
        first.obfuscation_score == second.obfuscation_score,
        first.detections.deep_view() == second.detections.deep_view(),
{
}

/// What stays after suppression was there before, and is no idiom of the
/// framework.
pub proof fn lemma_kept_was_found(findings: Seq<Finding>, framework: Option<Framework>, f: Finding)
    requires
        suppressed(findings, framework).contains(f),
    ensures
        findings.contains(f),
        survives(framework, f),
    decreases findings.len(),
{
    reveal(Seq::filter);
    if findings.len() > 0 {
        let rest = findings.drop_last();
        let kept = suppressed(rest, framework);
        let i = choose|i: int|
            0 <= i < suppressed(findings, framework).len() && suppressed(findings, framework)[i]
                == f;
        if survivor(framework)(findings.last()) && i == kept.len() {
            assert(findings[findings.len() - 1] == f);
        } else {
            assert(kept[i] == f);
            lemma_kept_was_found(rest, framework, f);
            let j = choose|j: int| 0 <= j < rest.len() && rest[j] == f;
            assert(findings[j] == f);
        }
    }
}

/// What was found and is no idiom of the framework stays after suppression.
pub proof fn lemma_survivor_is_kept(findings: Seq<Finding>, framework: Option<Framework>, i: int)
    requires
        0 <= i < findings.len(),
        survives(framework, findings[i]),
    ensures
        suppressed(findings, framework).contains(findings[i]),
{
    findings.lemma_filter_contains(survivor(framework), i);
}

/// Suppressing twice is suppressing once.
pub proof fn lemma_suppression_is_idempotent(findings: Seq<Finding>, framework: Option<Framework>)
    ensures
        suppressed(suppressed(findings, framework), framework) == suppressed(findings, framework),
    decreases findings.len(),
{
    reveal(Seq::filter);
    if findings.len() > 0 {
        let rest = findings.drop_last();
        lemma_suppression_is_idempotent(rest, framework);
        if survivor(framework)(findings.last()) {
            let kept = suppressed(rest, framework);
            assert(kept.push(findings.last()).drop_last() =~= kept);
        }
    }
}

/// The threat level depends on which findings there are, not on their
/// order, and it grows with them: where every finding of `fewer` is also one
/// of `more`, the level of `fewer` is at most the level of `more`.
pub proof fn lemma_verdict_grows_with_findings(
    fewer: Seq<Finding>,
    more: Seq<Finding>,
    score: u32,
    threshold: u32,
)
    requires
        forall|f: Finding| fewer.contains(f) ==> more.contains(f),
    ensures
        threat_level_of(fewer, score, threshold).rank() <= threat_level_of(
            more,
            score,
            threshold,
        ).rank(),
{
    assert forall|c: DetectionCategory| has_category(fewer, c) implies has_category(more, c) by {
        let i = choose|i: int| 0 <= i < fewer.len() && #[trigger] fewer[i].category == c;
        assert(fewer.contains(fewer[i]));
        let j = choose|j: int| 0 <= j < more.len() && more[j] == fewer[i];
        assert(more[j].category == c);
    }
    if two_distinct_functions(fewer) {
        let (i, j) = choose|i: int, j: int|
            {
                &&& 0 <= i < fewer.len()
                &&& 0 <= j < fewer.len()
                &&& (#[trigger] fewer[i]).category == DetectionCategory::SuspiciousFunction
                &&& (#[trigger] fewer[j]).category == DetectionCategory::SuspiciousFunction
                &&& fewer[i].description != fewer[j].description
            };
        assert(fewer.contains(fewer[i]));
        assert(fewer.contains(fewer[j]));
        let a = choose|a: int| 0 <= a < more.len() && more[a] == fewer[i];
        let b = choose|b: int| 0 <= b < more.len() && more[b] == fewer[j];
        assert(more[a].category == DetectionCategory::SuspiciousFunction);
        assert(more[b].category == DetectionCategory::SuspiciousFunction);
        assert(two_distinct_functions(more));
    }
}

/// The threat level does not depend on the order of the findings: two lists
/// that hold the same findings have the same level.
pub proof fn lemma_verdict_ignores_order(
    one: Seq<Finding>,
    other: Seq<Finding>,
    score: u32,
    threshold: u32,
)
    requires
        forall|f: Finding| one.contains(f) <==> other.contains(f),
    ensures
        threat_level_of(one, score, threshold) == threat_level_of(other, score, threshold),
{
    lemma_verdict_grows_with_findings(one, other, score, threshold);
    lemma_verdict_grows_with_findings(other, one, score, threshold);
}

/// A scan that knows the framework reports nothing that the scan without it
/// does not report, gives the same score, and gives no worse a verdict.
pub proof fn lemma_context_only_removes(
    text: Seq<u8>,
    lang: Option<WebshellLanguage>,
    framework: Option<Framework>,
    threshold: u32,
)
    ensures
        forall|f: Finding|
            outcome(text, lang, framework, threshold).detections.contains(f) ==> outcome(
                text,
                lang,
                None,
                threshold,
            ).detections.contains(f),
        outcome(text, lang, framework, threshold).obfuscation_score == outcome(
            text,
            lang,
            None,
            threshold,
        ).obfuscation_score,
        outcome(text, lang, framework, threshold).threat_level.rank() <= outcome(
            text,
            lang,
            None,
            threshold,
        ).threat_level.rank(),
{
    let found = evidence(text, lang);
    let reported = if score_spec(text) >= threshold {
        Some(obfuscation_finding(score_spec(text), threshold))
    } else {
        None
    };
    assert(findings_of(text, lang, framework, threshold) == reported_findings(
        found,
        framework,
        reported,
    ));
    assert(findings_of(text, lang, None, threshold) == reported_findings(found, None, reported));
    lemma_suppression_lowers_the_level(
        found,
        framework,
        reported,
        score_spec(text) as u32,
        threshold,
    );
}

/// The findings of a scan within a framework, with or without the finding
/// that reports the score.
spec fn reported_findings(
    found: Seq<Finding>,
    framework: Option<Framework>,
    reported: Option<Finding>,
) -> Seq<Finding> {
    match reported {
        Some(f) => suppressed(found, framework).push(f),
        None => suppressed(found, framework),
    }
}

proof fn lemma_suppression_lowers_the_level(
    found: Seq<Finding>,
    framework: Option<Framework>,
    reported: Option<Finding>,
    score: u32,
    threshold: u32,
)
    ensures
        forall|f: Finding|
            reported_findings(found, framework, reported).contains(f) ==> reported_findings(
                found,
                None,
                reported,
            ).contains(f),
        threat_level_of(
            reported_findings(found, framework, reported),
            score,
            threshold,
        ).rank() <= threat_level_of(
            reported_findings(found, None, reported),
            score,
            threshold,
        ).rank(),
{
    let aware = reported_findings(found, framework, reported);
    let plain = reported_findings(found, None, reported);
    assert forall|f: Finding| aware.contains(f) implies plain.contains(f) by {
        lemma_suppression_only_removes(found, framework, reported, f);
    }
    lemma_verdict_grows_with_findings(aware, plain, score, threshold);
}

proof fn lemma_suppression_only_removes(
    found: Seq<Finding>,
    framework: Option<Framework>,
    reported: Option<Finding>,
    f: Finding,
)
    requires
        reported_findings(found, framework, reported).contains(f),
    ensures
        reported_findings(found, None, reported).contains(f),
{
    let aware = reported_findings(found, framework, reported);
    let plain = reported_findings(found, None, reported);
    let kept = suppressed(found, framework);
    crate::framework::lemma_nothing_dropped(found);
    let i = choose|i: int| 0 <= i < aware.len() && aware[i] == f;
    if i < kept.len() {
        assert(kept[i] == f);
        assert(kept.contains(f));
        lemma_kept_was_found(found, framework, f);
        let j = choose|j: int| 0 <= j < found.len() && found[j] == f;
        assert(plain[j] == f);
    } else {
        assert(plain[found.len() as int] == f);
    }
}

/// No framework's idioms cover a known webshell signature.
pub proof fn lemma_signatures_are_never_allowed(framework: Option<Framework>, f: Finding)
    requires
        f.category == DetectionCategory::KnownSignature,
    ensures
        survives(framework, f),
{
    assert forall|k: int| 0 <= k < ALLOWED_IDIOMS@.len() implies ALLOWED_IDIOMS@[k].1
        != DetectionCategory::KnownSignature by {}
}

/// A text that holds the marker string of a known webshell tool is judged
/// malicious, whatever its language, its framework, its obfuscation score
/// and the threshold.
pub proof fn lemma_known_signature_is_malicious(
    text: Seq<u8>,
    lang: Option<WebshellLanguage>,
    framework: Option<Framework>,
    threshold: u32,
    at: int,
    k: int,
)
    requires
        0 <= k < SIGNATURES@.len(),
        occurs_at(text, at, SIGNATURES@[k].0.spec_bytes()),
    ensures
        outcome(text, lang, framework, threshold).threat_level == ThreatLevel::Malicious,
        outcome(text, lang, framework, threshold).is_malicious,
        has_category(
            outcome(text, lang, framework, threshold).detections,
            DetectionCategory::KnownSignature,
        ),
{
    assert(SIGNATURES@[k].2 == Scope::Any);
    let f = probe(Pass::Signatures, text, lang, at, k)->0;
    crate::detect::lemma_probe_is_swept(Pass::Signatures, text, lang, at, k);
    lemma_finding_condemns(text, lang, framework, threshold, f);
}

/// A finding of direct evidence that the framework does not explain makes
/// the verdict malicious.
proof fn lemma_finding_condemns(
    text: Seq<u8>,
    lang: Option<WebshellLanguage>,
    framework: Option<Framework>,
    threshold: u32,
    f: Finding,
)
    requires
        evidence(text, lang).contains(f) || pass_findings(Pass::Signatures, text, lang).contains(f)
            || pass_findings(Pass::InputChains, text, lang).contains(f),
        f.category == DetectionCategory::KnownSignature || f.category
            == DetectionCategory::InputToEval,
        survives(framework, f),
    ensures
        outcome(text, lang, framework, threshold).threat_level == ThreatLevel::Malicious,
        outcome(text, lang, framework, threshold).is_malicious,
        has_category(outcome(text, lang, framework, threshold).detections, f.category),
{
    let found = evidence(text, lang);
    let chains = pass_findings(Pass::InputChains, text, lang);
    let decodes = chain_findings(text, lang);
    let signatures = pass_findings(Pass::Signatures, text, lang);
    if chains.contains(f) {
        let i = choose|i: int| 0 <= i < chains.len() && chains[i] == f;
        assert(found[i] == f);
    } else if signatures.contains(f) {
        let i = choose|i: int| 0 <= i < signatures.len() && signatures[i] == f;
        assert(found[chains.len() + decodes.len() + i] == f);
    }
    let i = choose|i: int| 0 <= i < found.len() && found[i] == f;
    lemma_survivor_is_kept(found, framework, i);
    let kept = suppressed(found, framework);
    let j = choose|j: int| 0 <= j < kept.len() && kept[j] == f;
    let findings = findings_of(text, lang, framework, threshold);
    assert(findings[j] == f);
    assert(findings[j].category == f.category);
}

/// A text in which request input stands inside the argument list of a call
/// of an execution sink, both in scope for the language it is scanned as, is
/// judged malicious: always when it is scanned without a framework, and
/// within a framework unless that framework expects the very idiom.
pub proof fn lemma_input_in_sink_is_malicious(
    text: Seq<u8>,
    lang: Option<WebshellLanguage>,
    framework: Option<Framework>,
    threshold: u32,
    at: int,
    k: int,
    m: int,
    j: int,
)
    requires
        0 <= k < SINKS@.len(),
        in_scope(SINKS@[k].2, lang),
        call_at(text, at, SINKS@[k].0.spec_bytes()),
        0 <= j < TAINT_MARKERS@.len(),
        in_scope(TAINT_MARKERS@[j].2, lang),
        call_paren(text, at, SINKS@[k].0.spec_bytes()) < m,
        occurs_at(text, m, TAINT_MARKERS@[j].0.spec_bytes()),
        m + TAINT_MARKERS@[j].0.spec_bytes().len() <= argument_end(
            text,
            call_paren(text, at, SINKS@[k].0.spec_bytes()),
        ),
        framework is Some ==> survives(framework, probe(Pass::InputChains, text, lang, at, k)->0),
    ensures
        outcome(text, lang, framework, threshold).threat_level == ThreatLevel::Malicious,
        outcome(text, lang, framework, threshold).is_malicious,
        has_category(
            outcome(text, lang, framework, threshold).detections,
            DetectionCategory::InputToEval,
        ),
{
    let paren = call_paren(text, at, SINKS@[k].0.spec_bytes());
    crate::detect::lemma_marker_is_found(text, paren + 1, argument_end(text, paren), lang, m, j);
    let f = probe(Pass::InputChains, text, lang, at, k)->0;
    crate::detect::lemma_probe_is_swept(Pass::InputChains, text, lang, at, k);
    lemma_finding_condemns(text, lang, framework, threshold, f);
}

/// A text in which no rule of any detector matches, no chain holds two
/// decode functions and no two statements in a row decode one variable,
/// gives no evidence.
pub proof fn lemma_no_match_is_no_evidence(text: Seq<u8>, lang: Option<WebshellLanguage>)
    requires
        forall|pass: Pass, at: int, k: int|
            0 <= at < text.len() && 0 <= k < rules_of(pass).len() ==> probe(
                pass,
                text,
                lang,
                at,
                k,
            ) is None,
        forall|at: int| 0 <= at < text.len() ==> chain_at(text, at, lang).decoders < 2,
        forall|at: int| 0 <= at < text.len() ==> sequence_at(text, at, lang).steps < 2,
    ensures
        evidence(text, lang) == Seq::<Finding>::empty(),
{
    crate::detect::lemma_idle_pass_is_empty(Pass::InputChains, text, lang);
    crate::detect::lemma_idle_pass_is_empty(Pass::Signatures, text, lang);
    crate::detect::lemma_idle_pass_is_empty(Pass::SuspiciousFunctions, text, lang);
    crate::detect::lemma_idle_pass_is_empty(Pass::DynamicIdioms, text, lang);
    crate::chains::lemma_short_chains_are_silent(text, lang);
    assert(evidence(text, lang) =~= Seq::<Finding>::empty());
}

/// A text that gives the detectors no evidence, and whose obfuscation score
/// is below the threshold, is judged clean and has no findings.
pub proof fn lemma_no_match_is_clean(
    text: Seq<u8>,
    lang: Option<WebshellLanguage>,
    framework: Option<Framework>,
    threshold: u32,
)
    requires
        evidence(text, lang) == Seq::<Finding>::empty(),
        score_spec(text) < threshold,
    ensures
        outcome(text, lang, framework, threshold).threat_level == ThreatLevel::Clean,
        !outcome(text, lang, framework, threshold).is_malicious,
        outcome(text, lang, framework, threshold).detections == Seq::<Finding>::empty(),
{
    reveal(Seq::filter);
    assert(suppressed(Seq::<Finding>::empty(), framework) =~= Seq::<Finding>::empty());
}

/// The score of a result is the obfuscation score of the text, whatever the
/// language and the framework, and a result is malicious exactly when its
/// threat level is.
pub proof fn lemma_result_is_consistent(
    text: Seq<u8>,
    lang: Option<WebshellLanguage>,
    framework: Option<Framework>,
    threshold: u32,
)
    ensures
        outcome(text, lang, framework, threshold).obfuscation_score == score_spec(text),
        outcome(text, lang, framework, threshold).is_malicious == (outcome(
            text,
            lang,
            framework,
            threshold,
        ).threat_level == ThreatLevel::Malicious),
        outcome(text, lang, framework, threshold).language == lang,
{
    lemma_score_is_bounded(measure(text));
}

/// `a` may stand before `b` in a result: its category comes first, or the
/// categories are the same and its line is not the later one.
pub open spec fn precedes(a: Finding, b: Finding) -> bool {
    a.category.order() < b.category.order() || (a.category == b.category && (a.line_number is Some
        && b.line_number is Some ==> a.line_number->0 <= b.line_number->0))
}

/// The findings are listed by category and, within a category, by line.
pub open spec fn in_report_order(findings: Seq<Finding>) -> bool {
    forall|i: int, j: int|
        0 <= i <= j < findings.len() ==> precedes(#[trigger] findings[i], #[trigger] findings[j])
}

/// All of `findings` are of category `category`, with lines in order.
spec fn is_section(findings: Seq<Finding>, category: DetectionCategory) -> bool {
    &&& forall|i: int|
        0 <= i < findings.len() ==> (#[trigger] findings[i]).category == category
            && findings[i].line_number is Some
    &&& forall|i: int, j: int|
        0 <= i <= j < findings.len() ==> (#[trigger] findings[i]).line_number->0 <= (
        #[trigger] findings[j]).line_number->0
}

/// All of `findings` are of a category that comes before `category`.
pub open spec fn all_before(findings: Seq<Finding>, category: DetectionCategory) -> bool {
    forall|i: int|
        0 <= i < findings.len() ==> (#[trigger] findings[i]).category.order() < category.order()
}

proof fn lemma_section_follows(
    before: Seq<Finding>,
    section: Seq<Finding>,
    category: DetectionCategory,
    next: DetectionCategory,
)
    requires
        in_report_order(before),
        all_before(before, category),
        is_section(section, category),
        category.order() < next.order(),
    ensures
        in_report_order(before + section),
        all_before(before + section, next),
{
    let all = before + section;
    assert forall|i: int, j: int| 0 <= i <= j < all.len() implies precedes(
        #[trigger] all[i],
        #[trigger] all[j],
    ) by {
        if j < before.len() {
            assert(all[i] == before[i] && all[j] == before[j]);
        } else if i < before.len() {
            assert(all[i] == before[i] && all[j] == section[j - before.len()]);
        } else {
            assert(all[i] == section[i - before.len()] && all[j] == section[j - before.len()]);
        }
    }
    assert forall|i: int| 0 <= i < all.len() implies (#[trigger] all[i]).category.order()
        < next.order() by {
        if i < before.len() {
            assert(all[i] == before[i]);
        } else {
            assert(all[i] == section[i - before.len()]);
        }
    }
}

/// The evidence of a scan is listed by detector and, for each detector, in
/// the order of the text.
pub proof fn lemma_evidence_is_in_report_order(text: Seq<u8>, lang: Option<WebshellLanguage>)
    requires
        text.len() <= usize::MAX,
    ensures
        in_report_order(evidence(text, lang)),
        all_found_by_detectors(evidence(text, lang)),
{
    let chains = pass_findings(Pass::InputChains, text, lang);
    let decodes = chain_findings(text, lang);
    let signatures = pass_findings(Pass::Signatures, text, lang);
    let functions = pass_findings(Pass::SuspiciousFunctions, text, lang);
    let idioms = pass_findings(Pass::DynamicIdioms, text, lang);
    crate::detect::lemma_pass_findings_are_ordered(Pass::InputChains, text, lang);
    crate::chains::lemma_chain_findings_are_ordered(text, lang);
    crate::detect::lemma_pass_findings_are_ordered(Pass::Signatures, text, lang);
    crate::detect::lemma_pass_findings_are_ordered(Pass::SuspiciousFunctions, text, lang);
    crate::detect::lemma_pass_findings_are_ordered(Pass::DynamicIdioms, text, lang);
    let none = Seq::<Finding>::empty();
    assert(none + chains =~= chains);
    lemma_section_follows(
        none,
        chains,
        DetectionCategory::InputToEval,
        DetectionCategory::DecodeChain,
    );
    lemma_section_follows(
        chains,
        decodes,
        DetectionCategory::DecodeChain,
        DetectionCategory::KnownSignature,
    );
    lemma_section_follows(
        chains + decodes,
        signatures,
        DetectionCategory::KnownSignature,
        DetectionCategory::SuspiciousFunction,
    );
    lemma_section_follows(
        chains + decodes + signatures,
        functions,
        DetectionCategory::SuspiciousFunction,
        DetectionCategory::DynamicExecution,
    );
    lemma_section_follows(
        chains + decodes + signatures + functions,
        idioms,
        DetectionCategory::DynamicExecution,
        DetectionCategory::Obfuscation,
    );
}

/// None of `findings` is the report of the obfuscation score.
pub open spec fn all_found_by_detectors(findings: Seq<Finding>) -> bool {
    all_before(findings, DetectionCategory::Obfuscation)
}

proof fn lemma_kept_stay_in_order(findings: Seq<Finding>, framework: Option<Framework>)
    requires
        in_report_order(findings),
        all_found_by_detectors(findings),
    ensures
        in_report_order(suppressed(findings, framework)),
        all_found_by_detectors(suppressed(findings, framework)),
    decreases findings.len(),
{
    reveal(Seq::filter);
    if findings.len() > 0 {
        let rest = findings.drop_last();
        let last = findings.last();
        assert forall|i: int, j: int| 0 <= i <= j < rest.len() implies precedes(
            #[trigger] rest[i],
            #[trigger] rest[j],
        ) by {
            assert(rest[i] == findings[i] && rest[j] == findings[j]);
        }
        assert forall|i: int| 0 <= i < rest.len() implies (#[trigger] rest[i]).category.order()
            < DetectionCategory::Obfuscation.order() by {
            assert(rest[i] == findings[i]);
        }
        lemma_kept_stay_in_order(rest, framework);
        let kept = suppressed(rest, framework);
        if survivor(framework)(last) {
            let all = kept.push(last);
            assert(last == findings[findings.len() - 1]);
            assert forall|i: int, j: int| 0 <= i <= j < all.len() implies precedes(
                #[trigger] all[i],
                #[trigger] all[j],
            ) by {
                if j < kept.len() {
                    assert(all[i] == kept[i] && all[j] == kept[j]);
                } else if i < kept.len() {
                    assert(kept.contains(kept[i]));
                    lemma_kept_was_found(rest, framework, kept[i]);
                    let a = choose|a: int| 0 <= a < rest.len() && rest[a] == kept[i];
                    assert(findings[a] == kept[i]);
                    assert(precedes(findings[a], findings[findings.len() - 1]));
                }
            }
            assert forall|i: int| 0 <= i < all.len() implies (#[trigger] all[i]).category.order()
                < DetectionCategory::Obfuscation.order() by {
                if i < kept.len() {
                    assert(all[i] == kept[i]);
                }
            }
        }
    }
}

/// The findings of every result are listed by category, in the order input
/// chains, decode chains, signatures, functions, idioms, obfuscation, and
/// within a category by line.
pub proof fn lemma_result_is_in_report_order(
    text: Seq<u8>,
    lang: Option<WebshellLanguage>,
    framework: Option<Framework>,
    threshold: u32,
)
    requires
        text.len() <= usize::MAX,
    ensures
        in_report_order(outcome(text, lang, framework, threshold).detections),
{
    let found = evidence(text, lang);
    lemma_evidence_is_in_report_order(text, lang);
    lemma_kept_stay_in_order(found, framework);
    let kept = suppressed(found, framework);
    let all = findings_of(text, lang, framework, threshold);
    if score_spec(text) >= threshold {
        assert forall|i: int, j: int| 0 <= i <= j < all.len() implies precedes(
            #[trigger] all[i],
            #[trigger] all[j],
        ) by {
            if j < kept.len() {
                assert(all[i] == kept[i] && all[j] == kept[j]);
            } else if i < kept.len() {
                assert(all[i] == kept[i]);
            }
        }
    }
}

} // verus!
