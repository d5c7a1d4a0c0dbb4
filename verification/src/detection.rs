//! The records a scan produces: findings, their categories, and the verdict.

use vstd::prelude::*;
use vstd::string::*;

verus! {

/// What kind of evidence a detection is.
#[derive(Clone, Copy, Debug, PartialEq, Eq, Hash, Structural)]
pub enum DetectionCategory {
    /// Request input reaches an execution sink inside one call expression.
    InputToEval,
    /// Two or more decode functions nested into each other.
    DecodeChain,
    /// A marker string of a known webshell tool.
    KnownSignature,
    /// A call of a function that runs code or commands.
    SuspiciousFunction,
    /// An idiom that assembles code or names at run time.
    DynamicExecution,
    /// The obfuscation score reached the scanner's threshold.
    Obfuscation,
}

impl DetectionCategory {
    /// The place of the category in a result: findings are listed by
    /// category in this order.
    pub open spec fn order(self) -> nat {
        match self {
            DetectionCategory::InputToEval => 0,
            DetectionCategory::DecodeChain => 1,
            DetectionCategory::KnownSignature => 2,
            DetectionCategory::SuspiciousFunction => 3,
            DetectionCategory::DynamicExecution => 4,
            DetectionCategory::Obfuscation => 5,
        }
    }

    /// The stable name used in output.
    pub open spec fn label(self) -> &'static str {
        match self {
            DetectionCategory::InputToEval => "Input to Eval",
            DetectionCategory::DecodeChain => "Decode Chain",
            DetectionCategory::KnownSignature => "Known Signature",
            DetectionCategory::SuspiciousFunction => "Suspicious Function",
            DetectionCategory::DynamicExecution => "Dynamic Execution",
            DetectionCategory::Obfuscation => "Obfuscation",
        }
    }

    pub fn name(&self) -> (n: &'static str)
        ensures
            n == self.label(),
    {
        match self {
            DetectionCategory::InputToEval => "Input to Eval",
            DetectionCategory::DecodeChain => "Decode Chain",
            DetectionCategory::KnownSignature => "Known Signature",
            DetectionCategory::SuspiciousFunction => "Suspicious Function",
            DetectionCategory::DynamicExecution => "Dynamic Execution",
            DetectionCategory::Obfuscation => "Obfuscation",
        }
    }
}

/// The verdict of a scan. The variants are ordered by severity.
#[derive(Clone, Copy, Debug, PartialEq, Eq, PartialOrd, Ord, Hash, Structural)]
pub enum ThreatLevel {
    Clean,
    Suspicious,
    Malicious,
}

impl ThreatLevel {
    /// Severity as a number: 0 for clean, 1 for suspicious, 2 for malicious.
    pub open spec fn rank(self) -> nat {
        match self {
            ThreatLevel::Clean => 0,
            ThreatLevel::Suspicious => 1,
            ThreatLevel::Malicious => 2,
        }
    }

    pub open spec fn label(self) -> &'static str {
        match self {
            ThreatLevel::Clean => "Clean",
            ThreatLevel::Suspicious => "Suspicious",
            ThreatLevel::Malicious => "Malicious",
        }
    }

    /// The variant's name as text.
    pub fn name(&self) -> (n: &'static str)
        ensures
            n == self.label(),
    {
        match self {
            ThreatLevel::Clean => "Clean",
            ThreatLevel::Suspicious => "Suspicious",
            ThreatLevel::Malicious => "Malicious",
        }
    }
}

/// One finding of a scan.
#[derive(Clone, Debug, PartialEq, Eq)]
pub struct Detection {
    pub category: DetectionCategory,
    /// What was found, in words.
    pub description: String,
    /// The matched fragment of the scanned text.
    pub pattern: String,
    /// The 1-based line on which the match starts, where it has a place.
    pub line_number: Option<usize>,
}

/// The mathematical content of a [`Detection`].
pub struct Finding {
    pub category: DetectionCategory,
    pub description: Seq<char>,
    pub pattern: Seq<char>,
    pub line_number: Option<usize>,
}

impl View for Detection {
    type V = Finding;

    open spec fn view(&self) -> Finding {
        Finding {
            category: self.category,
            description: self.description@,
            pattern: self.pattern@,
            line_number: self.line_number,
        }
    }
}

impl DeepView for Detection {
    type V = Finding;

    open spec fn deep_view(&self) -> Finding {
        self@
    }
}

} // verus!
