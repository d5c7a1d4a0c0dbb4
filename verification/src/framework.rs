//! Recognition of the framework a file belongs to, and the idioms that each
//! framework is known to use legitimately.
//!
//! A scan that knows the framework drops the findings that match one of the
//! framework's idioms before it judges the file. No idiom covers a known
//! webshell signature.

use vstd::prelude::*;
use vstd::slice::*;
use vstd::string::*;
use vstd::utf8::*;
use crate::detection::{Detection, DetectionCategory, Finding};
use crate::text::{find_first, matches_at, occurs_at, occurs_in};

verus! {

/// The frameworks and content-management systems the scanner knows.
#[derive(Clone, Copy, Debug, PartialEq, Eq, Hash, Structural)]
pub enum Framework {
    WordPress,
    Laravel,
    Symfony,
    Drupal,
    Django,
    Flask,
    Spring,
}

/// Pieces of a path that give a framework away, tried in this order. They
/// are compared without regard to ASCII case, and `/` in a marker stands for
/// `\` in a path as well.
pub const PATH_MARKERS: [(&'static str, Framework); 18] = [
    ("wp-content/", Framework::WordPress),
    ("wp-includes/", Framework::WordPress),
    ("wp-admin/", Framework::WordPress),
    ("vendor/laravel/", Framework::Laravel),
    ("illuminate/", Framework::Laravel),
    ("vendor/symfony/", Framework::Symfony),
    ("symfony/component/", Framework::Symfony),
    ("sites/all/modules/", Framework::Drupal),
    ("sites/default/", Framework::Drupal),
    ("core/lib/drupal/", Framework::Drupal),
    ("/drupal/", Framework::Drupal),
    ("site-packages/django/", Framework::Django),
    ("/django/", Framework::Django),
    ("site-packages/flask/", Framework::Flask),
    ("site-packages/werkzeug/", Framework::Flask),
    ("/flask/", Framework::Flask),
    ("org/springframework/", Framework::Spring),
    ("/spring-", Framework::Spring),
];

/// The idioms each framework is expected to use. An entry covers the findings
/// of its category whose matched fragment begins with its text, up to ASCII
/// case.
pub const ALLOWED_IDIOMS: [(Framework, DetectionCategory, &'static str); 26] = [
    (Framework::WordPress, DetectionCategory::SuspiciousFunction, "create_function"),
    (Framework::WordPress, DetectionCategory::SuspiciousFunction, "proc_open"),
    (Framework::WordPress, DetectionCategory::SuspiciousFunction, "popen"),
    (Framework::WordPress, DetectionCategory::DynamicExecution, "$$"),
    (Framework::WordPress, DetectionCategory::DynamicExecution, "${$"),
    (Framework::Laravel, DetectionCategory::SuspiciousFunction, "proc_open"),
    (Framework::Laravel, DetectionCategory::SuspiciousFunction, "passthru"),
    (Framework::Laravel, DetectionCategory::DynamicExecution, "$$"),
    (Framework::Laravel, DetectionCategory::DynamicExecution, "${$"),
    (Framework::Symfony, DetectionCategory::SuspiciousFunction, "proc_open"),
    (Framework::Symfony, DetectionCategory::SuspiciousFunction, "eval"),
    (Framework::Symfony, DetectionCategory::SuspiciousFunction, "assert"),
    (Framework::Symfony, DetectionCategory::DynamicExecution, "$$"),
    (Framework::Drupal, DetectionCategory::SuspiciousFunction, "eval"),
    (Framework::Drupal, DetectionCategory::SuspiciousFunction, "proc_open"),
    (Framework::Drupal, DetectionCategory::InputToEval, "eval($_"),
    (Framework::Drupal, DetectionCategory::DynamicExecution, "$$"),
    (Framework::Django, DetectionCategory::SuspiciousFunction, "subprocess."),
    (Framework::Django, DetectionCategory::SuspiciousFunction, "popen"),
    (Framework::Django, DetectionCategory::DynamicExecution, "__import__("),
    (Framework::Flask, DetectionCategory::SuspiciousFunction, "eval"),
    (Framework::Flask, DetectionCategory::SuspiciousFunction, "exec"),
    (Framework::Flask, DetectionCategory::DynamicExecution, "__import__("),
    (Framework::Spring, DetectionCategory::SuspiciousFunction, "defineClass"),
    (Framework::Spring, DetectionCategory::SuspiciousFunction, "ScriptEngineManager"),
    (Framework::Spring, DetectionCategory::SuspiciousFunction, "ProcessBuilder"),
];

/// `path` with every `\` written as `/`.
pub open spec fn with_slashes(path: Seq<u8>) -> Seq<u8> {
    Seq::new(
        path.len(),
        |i: int|
            if path[i] == 0x5c {
                0x2fu8
            } else {
                path[i]
            },
    )
}

/// The framework of the first path marker, from table index `from` on, that
/// stands somewhere in `path`.
pub open spec fn framework_of_path_from(path: Seq<u8>, from: int) -> Option<Framework>
    decreases PATH_MARKERS@.len() - from,
{
    if from < 0 || from >= PATH_MARKERS@.len() {
        None
    } else if occurs_in(with_slashes(path), PATH_MARKERS@[from].0.spec_bytes()) {
        Some(PATH_MARKERS@[from].1)
    } else {
        framework_of_path_from(path, from + 1)
    }
}

/// The framework that `path` gives away, if any.
pub open spec fn framework_of_path(path: Seq<u8>) -> Option<Framework> {
    framework_of_path_from(path, 0)
}

/// Entry `k` of the idiom table covers the finding `f` within `framework`.
pub open spec fn covers(k: int, framework: Framework, f: Finding) -> bool {
    &&& 0 <= k < ALLOWED_IDIOMS@.len()
    &&& ALLOWED_IDIOMS@[k].0 == framework
    &&& ALLOWED_IDIOMS@[k].1 == f.category
    &&& occurs_at(encode_utf8(f.pattern), 0, ALLOWED_IDIOMS@[k].2.spec_bytes())
}

/// The finding `f` is an idiom that `framework` is expected to use.
pub open spec fn is_allowed(framework: Framework, f: Finding) -> bool {
    exists|k: int| covers(k, framework, f)
}

/// The finding `f` stays in the result of a scan made within `framework`.
pub open spec fn survives(framework: Option<Framework>, f: Finding) -> bool {
    match framework {
        None => true,
        Some(w) => !is_allowed(w, f),
    }
}

/// `survives`, as a predicate on findings.
pub open spec fn survivor(framework: Option<Framework>) -> spec_fn(Finding) -> bool {
    |f: Finding| survives(framework, f)
}

/// The findings that stay when the idioms of `framework` are dropped, in
/// their order.
pub open spec fn suppressed(findings: Seq<Finding>, framework: Option<Framework>) -> Seq<Finding> {
    findings.filter(survivor(framework))
}

impl Framework {
    pub open spec fn label(self) -> &'static str {
        match self {
            Framework::WordPress => "WordPress",
            Framework::Laravel => "Laravel",
            Framework::Symfony => "Symfony",
            Framework::Drupal => "Drupal",
            Framework::Django => "Django",
            Framework::Flask => "Flask",
            Framework::Spring => "Spring",
        }
    }

    /// The display name of the framework.
    pub fn name(&self) -> (n: &'static str)
        ensures
            n == self.label(),
    {
        match self {
            Framework::WordPress => "WordPress",
            Framework::Laravel => "Laravel",
            Framework::Symfony => "Symfony",
            Framework::Drupal => "Drupal",
            Framework::Django => "Django",
            Framework::Flask => "Flask",
            Framework::Spring => "Spring",
        }
    }

    /// Tells whether this framework is expected to use the idiom that the
    /// detection `d` reports.
    pub fn allows(&self, d: &Detection) -> (r: bool)
        ensures
            r == is_allowed(*self, d@),
    {
        let fragment = d.pattern.as_str().as_bytes();
        let mut k: usize = 0;
        while k < ALLOWED_IDIOMS.len()
            invariant
                k <= ALLOWED_IDIOMS@.len(),
                fragment@ == encode_utf8(d@.pattern),
                forall|j: int| 0 <= j < k ==> !covers(j, *self, d@),
            decreases ALLOWED_IDIOMS@.len() - k,
        {
            let entry = ALLOWED_IDIOMS[k];
            if entry.0 == *self && entry.1 == d.category && matches_at(
                fragment,
                0,
                entry.2.as_bytes(),
            ) {
                assert(covers(k as int, *self, d@));
                return true;
            }
            k = k + 1;
        }
        false
    }
}

/// Writes every `\` of `path` as `/`.
fn slashed(path: &[u8]) -> (unified: Vec<u8>)
    ensures
        unified@ == with_slashes(path@),
{
    let mut unified: Vec<u8> = Vec::new();
    let mut i: usize = 0;
    while i < path.len()
        invariant
            i <= path@.len(),
            unified@.len() == i,
            forall|j: int| 0 <= j < i ==> unified@[j] == with_slashes(path@)[j],
        decreases path@.len() - i,
    {
        let b = path[i];
        unified.push(if b == 0x5c {
            0x2f
        } else {
            b
        });
        i = i + 1;
    }
    assert(unified@ =~= with_slashes(path@));
    unified
}

/// Recognizes the framework that a file belongs to.
#[derive(Clone, Copy, Debug)]
pub struct FrameworkDetector {}

impl FrameworkDetector {
    pub fn new() -> (detector: FrameworkDetector) {
        FrameworkDetector {  }
    }

    /// Names the framework that `path` gives away: that of the first path
    /// marker, in table order, that stands in the path.
    pub fn detect(&self, path: &str) -> (framework: Option<Framework>)
        ensures
            framework == framework_of_path(path.spec_bytes()),
    {
        let bytes = path.as_bytes();
        let unified = slashed(bytes);
        let mut k: usize = 0;
        while k < PATH_MARKERS.len()
            invariant
                k <= PATH_MARKERS@.len(),
                bytes@ == path.spec_bytes(),
                unified@ == with_slashes(bytes@),
                framework_of_path_from(bytes@, k as int) == framework_of_path(bytes@),
            decreases PATH_MARKERS@.len() - k,
        {
            let entry = PATH_MARKERS[k];
            if find_first(unified.as_slice(), entry.0.as_bytes()).is_some() {
                return Some(entry.1);
            }
            k = k + 1;
        }
        None
    }
}

/// Drops from `detections` the idioms that `framework` is expected to use.
/// Without a framework nothing is dropped.
pub fn suppress(detections: Vec<Detection>, framework: Option<Framework>) -> (kept: Vec<Detection>)
    ensures
        kept.deep_view() == suppressed(detections.deep_view(), framework),
{
    let w = match framework {
        None => {
            proof {
                lemma_nothing_dropped(detections.deep_view());
            }
            return detections;
        },
        Some(w) => w,
    };
    let ghost all = detections.deep_view();
    let mut kept: Vec<Detection> = Vec::new();
    let mut i: usize = 0;
    proof {
        reveal(Seq::filter);
        assert(all.subrange(0, 0) =~= Seq::empty());
    }
    while i < detections.len()
        invariant
            i <= detections.len(),
            all == detections.deep_view(),
            framework == Some(w),
            kept.deep_view() == suppressed(all.subrange(0, i as int), framework),
        decreases detections.len() - i,
    {
        let d = &detections[i];
        proof {
            reveal(Seq::filter);
            assert(all.subrange(0, i + 1).drop_last() =~= all.subrange(0, i as int));
            assert(all.subrange(0, i + 1).last() == d@);
        }
        if !w.allows(d) {
            let copy = Detection {
                category: d.category,
                description: d.description.clone(),
                pattern: d.pattern.clone(),
                line_number: d.line_number,
            };
            let ghost so_far = kept.deep_view();
            kept.push(copy);
            assert(kept.deep_view() =~= so_far.push(d@));
        }
        i = i + 1;
    }
    assert(all.subrange(0, i as int) =~= all);
    kept
}

/// Without a framework every finding stays.
pub proof fn lemma_nothing_dropped(findings: Seq<Finding>)
    ensures
        suppressed(findings, None) == findings,
    decreases findings.len(),
{
    reveal(Seq::filter);
    if findings.len() > 0 {
        lemma_nothing_dropped(findings.drop_last());
        assert(findings.drop_last().push(findings.last()) =~= findings);
    }
}

} // verus!
