//! The scanner: it runs the detectors and the scorer over a text, drops what
//! the framework explains, and judges what is left.

use vstd::prelude::*;
use vstd::string::*;
use vstd::utf8::*;
use crate::chains::{chain_findings, find_chains};
use crate::detect::{pass_findings, record, run_pass, Pass};
use crate::detection::{Detection, DetectionCategory, Finding, ThreatLevel};
use crate::display::{decimal, decimal_text};
use crate::framework::{framework_of_path, suppress, suppressed, Framework, FrameworkDetector};
use crate::language::{language_of_path, WebshellLanguage};
use crate::obfuscation::{obfuscation_score, score_spec};

verus! {

/// What is known about the file a text was read from.
#[derive(Clone, Debug, PartialEq, Eq)]
pub struct ScanContext {
    /// The path of the file, if the text came from a file.
    pub file_path: Option<String>,
    /// The framework the file belongs to, if one was recognized.
    pub framework: Option<Framework>,
}

/// The result of one scan.
#[derive(Clone, Debug, PartialEq, Eq)]
pub struct WebshellScanResult {
    pub is_malicious: bool,
    pub threat_level: ThreatLevel,
    /// The language the text was scanned as, if any.
    pub language: Option<WebshellLanguage>,
    pub obfuscation_score: u32,
    /// The findings, ordered by detector and then by place in the text.
    pub detections: Vec<Detection>,
}

/// The mathematical content of a [`WebshellScanResult`].
pub struct ScanOutcome {
    pub is_malicious: bool,
    pub threat_level: ThreatLevel,
    pub language: Option<WebshellLanguage>,
    pub obfuscation_score: u32,
    pub detections: Seq<Finding>,
}

impl View for WebshellScanResult {
    type V = ScanOutcome;

    open spec fn view(&self) -> ScanOutcome {
        ScanOutcome {
            is_malicious: self.is_malicious,
            threat_level: self.threat_level,
            language: self.language,
            obfuscation_score: self.obfuscation_score,
            detections: self.detections.deep_view(),
        }
    }
}

/// The obfuscation threshold of a scanner made by default.
pub const DEFAULT_THRESHOLD: u32 = 50;

/// The entry point of the library. It holds the obfuscation threshold and
/// nothing else, so one scanner serves any number of scans.
#[derive(Clone, Copy, Debug, PartialEq, Eq)]
pub struct WebshellScanner {
    /// The obfuscation score from which a text is at least suspicious.
    pub obfuscation_threshold: u32,
}

/// Some finding of `findings` is of category `category`.
pub open spec fn has_category(findings: Seq<Finding>, category: DetectionCategory) -> bool {
    exists|i: int| 0 <= i < findings.len() && #[trigger] findings[i].category == category
}

/// `findings` holds calls of two different dangerous functions.
pub open spec fn two_distinct_functions(findings: Seq<Finding>) -> bool {
    exists|i: int, j: int|
        {
            &&& 0 <= i < findings.len()
            &&& 0 <= j < findings.len()
            &&& (#[trigger] findings[i]).category == DetectionCategory::SuspiciousFunction
            &&& (#[trigger] findings[j]).category == DetectionCategory::SuspiciousFunction
            &&& findings[i].description != findings[j].description
        }
}

/// The verdict on a set of findings and an obfuscation score. Direct evidence
/// (a known signature, request input in an execution sink) makes a text
/// malicious; indirect evidence (a decode chain, a dynamic-execution idiom, a
/// score at or over the threshold, two different dangerous functions) makes
/// it suspicious.
pub open spec fn threat_level_of(
    findings: Seq<Finding>,
    score: u32,
    threshold: u32,
) -> ThreatLevel {
    if has_category(findings, DetectionCategory::KnownSignature) || has_category(
        findings,
        DetectionCategory::InputToEval,
    ) {
        ThreatLevel::Malicious
    } else if has_category(findings, DetectionCategory::DecodeChain) || has_category(
        findings,
        DetectionCategory::DynamicExecution,
    ) || score >= threshold || two_distinct_functions(findings) {
        ThreatLevel::Suspicious
    } else {
        ThreatLevel::Clean
    }
}

/// What the five detectors find in `text` when it is scanned as `lang`, in
/// the order in which results list it.
pub open spec fn evidence(text: Seq<u8>, lang: Option<WebshellLanguage>) -> Seq<Finding> {
    pass_findings(Pass::InputChains, text, lang) + chain_findings(text, lang) + pass_findings(
        Pass::Signatures,
        text,
        lang,
    ) + pass_findings(Pass::SuspiciousFunctions, text, lang) + pass_findings(
        Pass::DynamicIdioms,
        text,
        lang,
    )
}

/// The finding that reports an obfuscation score at or over the threshold.
pub open spec fn obfuscation_finding(score: nat, threshold: u32) -> Finding {
    Finding {
        category: DetectionCategory::Obfuscation,
        description: "Obfuscation score "@ + decimal(score) + " reaches the threshold "@ + decimal(
            threshold as nat,
        ),
        pattern: Seq::empty(),
        line_number: None,
    }
}

/// The findings of a scan: the evidence that the framework does not explain
/// and, where the score reaches the threshold, a finding that says so.
pub open spec fn findings_of(
    text: Seq<u8>,
    lang: Option<WebshellLanguage>,
    framework: Option<Framework>,
    threshold: u32,
) -> Seq<Finding> {
    let kept = suppressed(evidence(text, lang), framework);
    if score_spec(text) >= threshold {
        kept.push(obfuscation_finding(score_spec(text), threshold))
    } else {
        kept
    }
}

/// The result of scanning `text` as `lang`, within `framework`, with the
/// obfuscation threshold `threshold`.
pub open spec fn outcome(
    text: Seq<u8>,
    lang: Option<WebshellLanguage>,
    framework: Option<Framework>,
    threshold: u32,
) -> ScanOutcome {
    let findings = findings_of(text, lang, framework, threshold);
    let level = threat_level_of(findings, score_spec(text) as u32, threshold);
    ScanOutcome {
        is_malicious: level == ThreatLevel::Malicious,
        threat_level: level,
        language: lang,
        obfuscation_score: score_spec(text) as u32,
        detections: findings,
    }
}

/// Tells whether some detection is of category `category`.
fn any_of(detections: &Vec<Detection>, category: DetectionCategory) -> (r: bool)
    ensures
        r == has_category(detections.deep_view(), category),
{
    let mut i: usize = 0;
    while i < detections.len()
        invariant
            i <= detections.len(),
            forall|j: int|
                0 <= j < i ==> (#[trigger] detections.deep_view()[j]).category != category,
        decreases detections.len() - i,
    {
        if detections[i].category == category {
            assert(detections.deep_view()[i as int].category == category);
            return true;
        }
        i = i + 1;
    }
    false
}

/// Tells whether the detections hold calls of two different dangerous
/// functions.
fn two_functions(detections: &Vec<Detection>) -> (r: bool)
    ensures
        r == two_distinct_functions(detections.deep_view()),
{
    let ghost findings = detections.deep_view();
    let mut first: usize = 0;
    while first < detections.len() && detections[first].category
        != DetectionCategory::SuspiciousFunction
        invariant
            first <= detections.len(),
            findings == detections.deep_view(),
            forall|j: int|
                0 <= j < first ==> (#[trigger] findings[j]).category
                    != DetectionCategory::SuspiciousFunction,
        decreases detections.len() - first,
    {
        first = first + 1;
    }
    if first >= detections.len() {
        return false;
    }
    let mut i: usize = first + 1;
    while i < detections.len()
        invariant
            first < i <= detections.len(),
            findings == detections.deep_view(),
            findings[first as int].category == DetectionCategory::SuspiciousFunction,
            forall|j: int|
                0 <= j < first ==> (#[trigger] findings[j]).category
                    != DetectionCategory::SuspiciousFunction,
            forall|j: int|
                first <= j < i && (#[trigger] findings[j]).category
                    == DetectionCategory::SuspiciousFunction ==> findings[j].description
                    == findings[first as int].description,
        decreases detections.len() - i,
    {
        if detections[i].category == DetectionCategory::SuspiciousFunction && !(
        detections[i].description == detections[first].description) {
            assert(findings[i as int].category == DetectionCategory::SuspiciousFunction);
            assert(findings[i as int].description != findings[first as int].description);
            return true;
        }
        i = i + 1;
    }
    false
}

/// Judges a set of detections and an obfuscation score.
pub fn aggregate(detections: &Vec<Detection>, score: u32, threshold: u32) -> (level: ThreatLevel)
    ensures
        level == threat_level_of(detections.deep_view(), score, threshold),
{
    if any_of(detections, DetectionCategory::KnownSignature) || any_of(
        detections,
        DetectionCategory::InputToEval,
    ) {
        ThreatLevel::Malicious
    } else if any_of(detections, DetectionCategory::DecodeChain) || any_of(
        detections,
        DetectionCategory::DynamicExecution,
    ) || score >= threshold || two_functions(detections) {
        ThreatLevel::Suspicious
    } else {
        ThreatLevel::Clean
    }
}

/// Runs the five detectors over `content`.
pub fn collect_evidence(content: &str, lang: Option<WebshellLanguage>) -> (found: Vec<Detection>)
    ensures
        found.deep_view() == evidence(content.spec_bytes(), lang),
{
    let mut found: Vec<Detection> = Vec::new();
    assert(found.deep_view() =~= Seq::empty());
    run_pass(Pass::InputChains, content, lang, &mut found);
    find_chains(content, lang, &mut found);
    run_pass(Pass::Signatures, content, lang, &mut found);
    run_pass(Pass::SuspiciousFunctions, content, lang, &mut found);
    run_pass(Pass::DynamicIdioms, content, lang, &mut found);
    assert(found.deep_view() =~= evidence(content.spec_bytes(), lang));
    found
}

impl Default for WebshellScanner {
    /// A scanner with the threshold `DEFAULT_THRESHOLD`.
    fn default() -> (scanner: WebshellScanner)
        ensures
            scanner.obfuscation_threshold == DEFAULT_THRESHOLD,
    {
        WebshellScanner { obfuscation_threshold: DEFAULT_THRESHOLD }
    }
}

impl Default for ScanContext {
    /// The context of a text that came from no file.
    fn default() -> (context: ScanContext)
        ensures
            context.file_path is None,
            context.framework is None,
    {
        ScanContext { file_path: None, framework: None }
    }
}

impl ScanContext {
    /// The context of a text that came from no file.
    pub fn new() -> (context: ScanContext)
        ensures
            context.file_path is None,
            context.framework is None,
    {
        ScanContext { file_path: None, framework: None }
    }

    /// The context of the file at `path`. With a detector the context names
    /// the framework that the path gives away; without one it names none.
    pub fn from_path_with_detector(path: &str, detector: Option<&FrameworkDetector>) -> (context:
        ScanContext)
        ensures
            context.file_path matches Some(p) && p@ == path@,
            context.framework == match detector {
                Some(_) => framework_of_path(path.spec_bytes()),
                None => None,
            },
    {
        let framework = match detector {
            Some(d) => d.detect(path),
            None => None,
        };
        ScanContext { file_path: Some(path.to_owned()), framework }
    }

    /// The language that the context's path stands for.
    pub open spec fn language_spec(&self) -> Option<WebshellLanguage> {
        match self.file_path {
            Some(p) => language_of_path(encode_utf8(p@)),
            None => None,
        }
    }

    /// The language of the context's file, judged by its extension.
    pub fn language(&self) -> (lang: Option<WebshellLanguage>)
        ensures
            lang == self.language_spec(),
    {
        match &self.file_path {
            Some(p) => WebshellLanguage::from_path(p.as_str()),
            None => None,
        }
    }
}

impl WebshellScanner {
    /// A scanner with the given obfuscation threshold.
    pub fn new(obfuscation_threshold: u32) -> (scanner: WebshellScanner)
        ensures
            scanner.obfuscation_threshold == obfuscation_threshold,
    {
        WebshellScanner { obfuscation_threshold }
    }

    /// Tells a directory walk what to do with the file at `path`: the
    /// language to scan it as, or `None` where it is of no interest.
    pub fn should_scan_language(path: &str) -> (lang: Option<WebshellLanguage>)
        ensures
            lang == language_of_path(path.spec_bytes()),
    {
        WebshellLanguage::from_path(path)
    }

    /// Scans `content` as `lang` within `framework`.
    fn run(
        &self,
        content: &str,
        lang: Option<WebshellLanguage>,
        framework: Option<Framework>,
    ) -> (result: WebshellScanResult)
        ensures
            result@ == outcome(content.spec_bytes(), lang, framework, self.obfuscation_threshold),
            result.is_malicious == (result.threat_level == ThreatLevel::Malicious),
    {
        let score = obfuscation_score(content);
        let found = collect_evidence(content, lang);
        let mut detections = suppress(found, framework);
        if score >= self.obfuscation_threshold {
            let mut description = String::from_str("Obfuscation score ");
            let number = decimal_text(score as u64);
            description.append(number.as_str());
            description.append(" reaches the threshold ");
            let limit = decimal_text(self.obfuscation_threshold as u64);
            description.append(limit.as_str());
            record(
                &mut detections,
                Detection {
                    category: DetectionCategory::Obfuscation,
                    description,
                    pattern: String::new(),
                    line_number: None,
                },
            );
        }
        let level = aggregate(&detections, score, self.obfuscation_threshold);
        let is_malicious = match level {
            ThreatLevel::Malicious => true,
            _ => false,
        };
        WebshellScanResult {
            is_malicious,
            threat_level: level,
            language: lang,
            obfuscation_score: score,
            detections,
        }
    }

    /// Scans a text of unknown language. Only the language-agnostic rules
    /// and the obfuscation scorer take part.
    pub fn scan(&self, content: &str) -> (result: WebshellScanResult)
        ensures
            result@ == outcome(content.spec_bytes(), None, None, self.obfuscation_threshold),
            result.is_malicious == (result.threat_level == ThreatLevel::Malicious),
    {
        self.run(content, None, None)
    }

    /// Scans a text as `language`: the language-agnostic rules and those of
    /// `language` take part.
    pub fn scan_language(&self, content: &str, language: WebshellLanguage) -> (result:
        WebshellScanResult)
        ensures
            result@ == outcome(
                content.spec_bytes(),
                Some(language),
                None,
                self.obfuscation_threshold,
            ),
            result.is_malicious == (result.threat_level == ThreatLevel::Malicious),
    {
        self.run(content, Some(language), None)
    }

    /// Scans a text in its context: as the language of the context's path,
    /// and without the findings that the context's framework explains.
    pub fn scan_with_context(&self, content: &str, context: &ScanContext) -> (result:
        WebshellScanResult)
        ensures
            result@ == outcome(
                content.spec_bytes(),
                context.language_spec(),
                context.framework,
                self.obfuscation_threshold,
            ),
            result.is_malicious == (result.threat_level == ThreatLevel::Malicious),
    {
        self.run(content, context.language(), context.framework)
    }
}

} // verus!
