//! The shape in which results leave the library: plain records for
//! serialization, and the lines of the text report.

use vstd::prelude::*;
use vstd::string::*;
use crate::detection::{Detection, Finding};
use crate::display::{decimal, decimal_text, truncate_pattern, truncated};
use crate::scanner::{ScanOutcome, WebshellScanResult};

verus! {

/// The length in bytes to which matched fragments are cut in reports.
pub const PATTERN_DISPLAY_LEN: usize = 100;

/// One finding, as it is reported.
#[derive(Clone, Debug, PartialEq, Eq)]
pub struct DetectionOutput {
    pub category: String,
    pub description: String,
    pub pattern: String,
    pub line: Option<usize>,
}

/// The result of scanning one input, as it is reported.
#[derive(Clone, Debug, PartialEq, Eq)]
pub struct ScanOutput {
    pub path: String,
    pub is_malicious: bool,
    pub threat_level: String,
    pub language: Option<String>,
    pub obfuscation_score: u32,
    pub detections: Vec<DetectionOutput>,
}

/// The mathematical content of a [`DetectionOutput`].
pub struct DetectionRecord {
    pub category: Seq<char>,
    pub description: Seq<char>,
    pub pattern: Seq<char>,
    pub line: Option<usize>,
}

/// The mathematical content of a [`ScanOutput`].
pub struct ScanRecord {
    pub path: Seq<char>,
    pub is_malicious: bool,
    pub threat_level: Seq<char>,
    pub language: Option<Seq<char>>,
    pub obfuscation_score: u32,
    pub detections: Seq<DetectionRecord>,
}

impl View for DetectionOutput {
    type V = DetectionRecord;

    open spec fn view(&self) -> DetectionRecord {
        DetectionRecord {
            category: self.category@,
            description: self.description@,
            pattern: self.pattern@,
            line: self.line,
        }
    }
}

impl DeepView for DetectionOutput {
    type V = DetectionRecord;

    open spec fn deep_view(&self) -> DetectionRecord {
        self@
    }
}

impl View for ScanOutput {
    type V = ScanRecord;

    open spec fn view(&self) -> ScanRecord {
        ScanRecord {
            path: self.path@,
            is_malicious: self.is_malicious,
            threat_level: self.threat_level@,
            language: match self.language {
                Some(name) => Some(name@),
                None => None,
            },
            obfuscation_score: self.obfuscation_score,
            detections: self.detections.deep_view(),
        }
    }
}

/// How a piece of report text is to be set off.
#[derive(Clone, Copy, Debug, PartialEq, Eq, Structural)]
pub enum Tone {
    Plain,
    /// A malicious verdict.
    Alert,
    /// A suspicious verdict.
    Warning,
    /// A clean verdict.
    Calm,
    /// A category name.
    Accent,
    /// Secondary detail.
    Muted,
}

/// A piece of report text with its tone.
#[derive(Clone, Debug, PartialEq, Eq)]
pub struct Span {
    pub tone: Tone,
    pub text: String,
}

/// The mathematical content of a [`Span`].
pub struct Piece {
    pub tone: Tone,
    pub text: Seq<char>,
}

impl View for Span {
    type V = Piece;

    open spec fn view(&self) -> Piece {
        Piece { tone: self.tone, text: self.text@ }
    }
}

impl DeepView for Span {
    type V = Piece;

    open spec fn deep_view(&self) -> Piece {
        self@
    }
}

/// A finding as it is reported: the category by its name, the fragment cut
/// to `PATTERN_DISPLAY_LEN` bytes.
pub open spec fn detection_record(f: Finding) -> DetectionRecord {
    DetectionRecord {
        category: f.category.label()@,
        description: f.description,
        pattern: truncated(f.pattern, PATTERN_DISPLAY_LEN as int),
        line: f.line_number,
    }
}

/// A scan result as it is reported for the input named `path`.
pub open spec fn scan_record(path: Seq<char>, outcome: ScanOutcome) -> ScanRecord {
    ScanRecord {
        path,
        is_malicious: outcome.is_malicious,
        threat_level: outcome.threat_level.label()@,
        language: match outcome.language {
            Some(l) => Some(l.label()@),
            None => None,
        },
        obfuscation_score: outcome.obfuscation_score,
        detections: outcome.detections.map_values(|f: Finding| detection_record(f)),
    }
}

/// The verdict word that opens a report, with its tone.
pub open spec fn status_piece(threat_level: Seq<char>) -> Piece {
    if threat_level == "Malicious"@ {
        Piece { tone: Tone::Alert, text: "MALICIOUS"@ }
    } else if threat_level == "Suspicious"@ {
        Piece { tone: Tone::Warning, text: "SUSPICIOUS"@ }
    } else {
        Piece { tone: Tone::Calm, text: "CLEAN"@ }
    }
}

/// The line that heads a report: the verdict and the path.
pub open spec fn heading_line(record: ScanRecord) -> Seq<Piece> {
    seq![
        status_piece(record.threat_level),
        Piece { tone: Tone::Plain, text: " "@ },
        Piece { tone: Tone::Plain, text: record.path },
    ]
}

/// The reference to a line of the scanned text: a colon and the number, or
/// nothing where the finding has no line.
pub open spec fn line_reference(line: Option<usize>) -> Seq<char> {
    match line {
        Some(l) => ":"@ + decimal(l as nat),
        None => Seq::empty(),
    }
}

/// The line that reports a finding.
pub open spec fn detection_line(d: DetectionRecord) -> Seq<Piece> {
    seq![
        Piece { tone: Tone::Plain, text: "  "@ },
        Piece { tone: Tone::Muted, text: "\u{2192}"@ },
        Piece { tone: Tone::Plain, text: " ["@ },
        Piece { tone: Tone::Accent, text: d.category },
        Piece { tone: Tone::Muted, text: line_reference(d.line) },
        Piece { tone: Tone::Plain, text: "] "@ },
        Piece { tone: Tone::Plain, text: d.description },
    ]
}

/// The line that shows the matched fragment of a finding.
pub open spec fn pattern_line(d: DetectionRecord) -> Seq<Piece> {
    seq![Piece { tone: Tone::Plain, text: "    "@ }, Piece { tone: Tone::Muted, text: d.pattern }]
}

/// The lines that report a finding: the finding, and its fragment where that
/// is not empty.
pub open spec fn detection_lines(d: DetectionRecord) -> Seq<Seq<Piece>> {
    if d.pattern.len() == 0 {
        seq![detection_line(d)]
    } else {
        seq![detection_line(d), pattern_line(d)]
    }
}

/// The lines that report the first `upto` findings.
pub open spec fn detections_lines(detections: Seq<DetectionRecord>, upto: int) -> Seq<Seq<Piece>>
    decreases upto,
{
    if upto <= 0 {
        Seq::empty()
    } else {
        detections_lines(detections, upto - 1) + detection_lines(detections[upto - 1])
    }
}

/// The line that reports the obfuscation score.
pub open spec fn score_line(score: u32) -> Seq<Piece> {
    seq![
        Piece { tone: Tone::Plain, text: "  "@ },
        Piece { tone: Tone::Muted, text: "\u{2192}"@ },
        Piece { tone: Tone::Plain, text: " Obfuscation score: "@ },
        Piece { tone: Tone::Plain, text: decimal(score as nat) },
    ]
}

/// The text report on one input: the heading, the findings, the score where
/// it is not zero, and an empty line.
pub open spec fn report_lines(record: ScanRecord) -> Seq<Seq<Piece>> {
    let body = seq![heading_line(record)] + detections_lines(
        record.detections,
        record.detections.len() as int,
    );
    if record.obfuscation_score > 0 {
        body.push(score_line(record.obfuscation_score)).push(Seq::empty())
    } else {
        body.push(Seq::empty())
    }
}

/// The line that closes a run over `malicious` malicious inputs.
pub open spec fn summary_piece(malicious: nat) -> Piece {
    if malicious > 0 {
        Piece {
            tone: Tone::Alert,
            text: "Found "@ + decimal(malicious) + " malicious file(s)"@,
        }
    } else {
        Piece { tone: Tone::Calm, text: "No webshells detected"@ }
    }
}

/// The views of the spans of each line.
pub open spec fn lines_view(lines: Seq<Vec<Span>>) -> Seq<Seq<Piece>> {
    lines.map_values(|line: Vec<Span>| line.deep_view())
}

fn span(tone: Tone, text: &str) -> (s: Span)
    ensures
        s@ == (Piece { tone, text: text@ }),
{
    Span { tone, text: String::from_str(text) }
}

fn owned_span(tone: Tone, text: String) -> (s: Span)
    ensures
        s@ == (Piece { tone, text: text@ }),
{
    Span { tone, text }
}

/// Prepares a detection for reporting.
pub fn detection_output(d: &Detection) -> (out: DetectionOutput)
    ensures
        out@ == detection_record(d@),
{
    DetectionOutput {
        category: String::from_str(d.category.name()),
        description: d.description.clone(),
        pattern: truncate_pattern(d.pattern.as_str(), PATTERN_DISPLAY_LEN),
        line: d.line_number,
    }
}

/// Prepares the result of scanning the input named `path` for reporting.
pub fn scan_output(path: &str, result: &WebshellScanResult) -> (out: ScanOutput)
    ensures
        out@ == scan_record(path@, result@),
{
    let mut detections: Vec<DetectionOutput> = Vec::new();
    let mut i: usize = 0;
    while i < result.detections.len()
        invariant
            i <= result.detections.len(),
            detections.len() == i,
            forall|j: int|
                0 <= j < i ==> (#[trigger] detections[j])@ == detection_record(
                    result.detections[j]@,
                ),
        decreases result.detections.len() - i,
    {
        detections.push(detection_output(&result.detections[i]));
        i = i + 1;
    }
    assert(detections.deep_view() =~= result@.detections.map_values(
        |f: Finding| detection_record(f),
    ));
    ScanOutput {
        path: String::from_str(path),
        is_malicious: result.is_malicious,
        threat_level: String::from_str(result.threat_level.name()),
        language: match result.language {
            Some(l) => Some(String::from_str(l.name())),
            None => None,
        },
        obfuscation_score: result.obfuscation_score,
        detections,
    }
}

fn status_span(threat_level: &String) -> (s: Span)
    ensures
        s@ == status_piece(threat_level@),
{
    if *threat_level == String::from_str("Malicious") {
        span(Tone::Alert, "MALICIOUS")
    } else if *threat_level == String::from_str("Suspicious") {
        span(Tone::Warning, "SUSPICIOUS")
    } else {
        span(Tone::Calm, "CLEAN")
    }
}

fn line_reference_text(line: Option<usize>) -> (s: String)
    ensures
        s@ == line_reference(line),
{
    match line {
        Some(l) => {
            let mut s = String::from_str(":");
            let number = decimal_text(l as u64);
            s.append(number.as_str());
            s
        },
        None => String::new(),
    }
}

/// Lays out the text report on one input.
pub fn text_report(output: &ScanOutput) -> (lines: Vec<Vec<Span>>)
    ensures
        lines_view(lines@) == report_lines(output@),
{
    let mut lines: Vec<Vec<Span>> = Vec::new();
    let mut heading: Vec<Span> = Vec::new();
    heading.push(status_span(&output.threat_level));
    heading.push(span(Tone::Plain, " "));
    heading.push(owned_span(Tone::Plain, output.path.clone()));
    assert(heading.deep_view() =~= heading_line(output@));
    lines.push(heading);
    assert(lines_view(lines@) =~= seq![heading_line(output@)]);
    let mut i: usize = 0;
    while i < output.detections.len()
        invariant
            i <= output.detections.len(),
            lines_view(lines@) == seq![heading_line(output@)] + detections_lines(
                output@.detections,
                i as int,
            ),
        decreases output.detections.len() - i,
    {
        let d = &output.detections[i];
        let ghost before = lines_view(lines@);
        let mut line: Vec<Span> = Vec::new();
        line.push(span(Tone::Plain, "  "));
        line.push(span(Tone::Muted, "\u{2192}"));
        line.push(span(Tone::Plain, " ["));
        line.push(owned_span(Tone::Accent, d.category.clone()));
        line.push(owned_span(Tone::Muted, line_reference_text(d.line)));
        line.push(span(Tone::Plain, "] "));
        line.push(owned_span(Tone::Plain, d.description.clone()));
        assert(line.deep_view() =~= detection_line(d@));
        lines.push(line);
        assert(lines_view(lines@) =~= before.push(detection_line(d@)));
        if !d.pattern.as_str().is_empty() {
            let mut shown: Vec<Span> = Vec::new();
            shown.push(span(Tone::Plain, "    "));
            shown.push(owned_span(Tone::Muted, d.pattern.clone()));
            assert(shown.deep_view() =~= pattern_line(d@));
            let ghost with_finding = lines_view(lines@);
            lines.push(shown);
            assert(lines_view(lines@) =~= with_finding.push(pattern_line(d@)));
        }
        assert(lines_view(lines@) =~= before + detection_lines(d@));
        i = i + 1;
    }
    if output.obfuscation_score > 0 {
        let ghost before = lines_view(lines@);
        let mut line: Vec<Span> = Vec::new();
        line.push(span(Tone::Plain, "  "));
        line.push(span(Tone::Muted, "\u{2192}"));
        line.push(span(Tone::Plain, " Obfuscation score: "));
        line.push(owned_span(Tone::Plain, decimal_text(output.obfuscation_score as u64)));
        assert(line.deep_view() =~= score_line(output.obfuscation_score));
        lines.push(line);
        assert(lines_view(lines@) =~= before.push(score_line(output.obfuscation_score)));
    }
    let ghost before = lines_view(lines@);
    let blank: Vec<Span> = Vec::new();
    assert(blank.deep_view() =~= Seq::<Piece>::empty());
    lines.push(blank);
    assert(lines_view(lines@) =~= before.push(Seq::<Piece>::empty()));
    lines
}

/// Words the line that closes a run in which `malicious` inputs were found
/// malicious.
pub fn summary(malicious: usize) -> (s: Span)
    ensures
        s@ == summary_piece(malicious as nat),
{
    if malicious > 0 {
        let mut text = String::from_str("Found ");
        let number = decimal_text(malicious as u64);
        text.append(number.as_str());
        text.append(" malicious file(s)");
        owned_span(Tone::Alert, text)
    } else {
        span(Tone::Calm, "No webshells detected")
    }
}

/// The exit status of a run: 1 where any input was found malicious, else 0.
pub fn exit_status(malicious: usize) -> (status: i32)
    ensures
        status == if malicious > 0 {
            1i32
        } else {
            0i32
        },
{
    if malicious > 0 {
        1
    } else {
        0
    }
}

} // verus!
