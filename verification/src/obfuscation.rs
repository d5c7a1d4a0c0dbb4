//! The obfuscation score: a heuristic estimate, from 0 to 100, of how much a
//! text has been disguised.
//!
//! Five signals are measured over the raw bytes, whatever the language. Each
//! earns a bounded number of points; the score is their sum, capped at 100.
//!
//! | signal                                   | points                 | cap |
//! |------------------------------------------|------------------------|-----|
//! | escape sequences and control bytes       | 1 per percent of bytes | 25  |
//! | very short or oddly cased identifiers    | 1 per 4 percent        | 20  |
//! | long runs of base64 characters           | 10 per run             | 25  |
//! | minified layout                          | 15                     | 15  |
//! | mentions of decode functions             | 3 per mention in 1000  | 15  |

use vstd::prelude::*;
use vstd::slice::*;
use vstd::string::*;
use crate::rules::DECODERS;
use crate::text::{
    fold,
    fold_byte,
    ident_byte,
    is_ident_byte,
    is_space_byte,
    matches_at,
    newlines_before,
    occurs_at,
    space_byte,
};

verus! {

/// A run of base64 characters counts as long when it reaches this length.
pub const LONG_RUN: usize = 64;

/// Texts shorter than this are never called minified.
pub const MINIFIED_MIN_LEN: usize = 256;

/// The average line length from which a text counts as minified.
pub const LONG_LINE: usize = 500;

/// The identifier signal is measured only on texts with at least this many
/// identifiers.
pub const MIN_IDENTIFIERS: usize = 10;

/// The highest score.
pub const MAX_SCORE: u32 = 100;

/// What a position of the text can be counted as.
#[derive(Clone, Copy, Debug, PartialEq, Eq, Structural)]
pub enum Mark {
    /// A control byte other than tab, line feed and carriage return.
    Control,
    /// The backslash of an escape sequence `\xHH` or `\uHH..`.
    Escape,
    /// The first byte of an identifier.
    Identifier,
    /// The first byte of an identifier that is one or two bytes long, or
    /// whose first four letters alternate in case.
    Degenerate,
    /// The byte with which a run of base64 characters reaches `LONG_RUN`.
    LongRun,
    /// A blank-space byte.
    Space,
}

pub open spec fn is_control_byte(b: u8) -> bool {
    (b < 0x20 && b != 0x09 && b != 0x0a && b != 0x0d) || b == 0x7f
}

pub open spec fn is_hex_digit(b: u8) -> bool {
    (0x30 <= b && b <= 0x39) || (0x61 <= fold_byte(b) && fold_byte(b) <= 0x66)
}

pub open spec fn is_upper(b: u8) -> bool {
    0x41 <= b && b <= 0x5a
}

pub open spec fn is_lower(b: u8) -> bool {
    0x61 <= b && b <= 0x7a
}

/// Letters, digits, `+`, `/` and `=`.
pub open spec fn is_base64_byte(b: u8) -> bool {
    is_upper(b) || is_lower(b) || (0x30 <= b && b <= 0x39) || b == 0x2b || b == 0x2f || b == 0x3d
}

/// A backslash, `x` or `u`, and two hex digits stand at `at`.
pub open spec fn escape_at(text: Seq<u8>, at: int) -> bool {
    &&& 0 <= at
    &&& at + 3 < text.len()
    &&& text[at] == 0x5c
    &&& (fold_byte(text[at + 1]) == 0x78 || fold_byte(text[at + 1]) == 0x75)
    &&& is_hex_digit(text[at + 2])
    &&& is_hex_digit(text[at + 3])
}

/// An identifier starts at `at`: a letter or `_` that does not continue an
/// identifier.
pub open spec fn identifier_at(text: Seq<u8>, at: int) -> bool {
    &&& 0 <= at < text.len()
    &&& (is_upper(text[at]) || is_lower(text[at]) || text[at] == 0x5f)
    &&& (at == 0 || !is_ident_byte(text[at - 1]))
}

/// The identifier that starts at `at` is one or two bytes long.
pub open spec fn short_identifier_at(text: Seq<u8>, at: int) -> bool {
    &&& identifier_at(text, at)
    &&& (at + 1 >= text.len() || !is_ident_byte(text[at + 1]) || at + 2 >= text.len()
        || !is_ident_byte(text[at + 2]))
}

/// The identifier that starts at `at` begins with four letters that
/// alternate between upper and lower case.
pub open spec fn erratic_identifier_at(text: Seq<u8>, at: int) -> bool {
    &&& identifier_at(text, at)
    &&& at + 3 < text.len()
    &&& ((is_upper(text[at]) && is_lower(text[at + 1]) && is_upper(text[at + 2]) && is_lower(
        text[at + 3],
    )) || (is_lower(text[at]) && is_upper(text[at + 1]) && is_lower(text[at + 2]) && is_upper(
        text[at + 3],
    )))
}

/// The length of the run of base64 characters that ends just before `at`.
pub open spec fn run_before(text: Seq<u8>, at: int) -> nat
    decreases at,
{
    if at <= 0 || at > text.len() || !is_base64_byte(text[at - 1]) {
        0
    } else {
        run_before(text, at - 1) + 1
    }
}

/// Position `at` of `text` counts as `mark`.
pub open spec fn marked(mark: Mark, text: Seq<u8>, at: int) -> bool {
    match mark {
        Mark::Control => 0 <= at < text.len() && is_control_byte(text[at]),
        Mark::Escape => escape_at(text, at),
        Mark::Identifier => identifier_at(text, at),
        Mark::Degenerate => short_identifier_at(text, at) || erratic_identifier_at(text, at),
        Mark::LongRun => run_before(text, at + 1) == LONG_RUN as nat,
        Mark::Space => 0 <= at < text.len() && is_space_byte(text[at]),
    }
}

/// How many of the positions below `upto` count as `mark`.
pub open spec fn count_marked(mark: Mark, text: Seq<u8>, upto: int) -> nat
    decreases upto,
{
    if upto <= 0 {
        0
    } else {
        count_marked(mark, text, upto - 1) + if marked(mark, text, upto - 1) {
            1nat
        } else {
            0nat
        }
    }
}

/// How many of the first `upto` decode-function names stand at `at`.
pub open spec fn mentions_at(text: Seq<u8>, at: int, upto: int) -> nat
    decreases upto,
{
    if upto <= 0 {
        0
    } else {
        mentions_at(text, at, upto - 1) + if occurs_at(
            text,
            at,
            DECODERS@[upto - 1].0.spec_bytes(),
        ) {
            1nat
        } else {
            0nat
        }
    }
}

/// How many times a decode-function name stands at a position below `upto`,
/// whatever its language and whether or not it is called.
pub open spec fn count_mentions(text: Seq<u8>, upto: int) -> nat
    decreases upto,
{
    if upto <= 0 {
        0
    } else {
        count_mentions(text, upto - 1) + mentions_at(text, upto - 1, DECODERS@.len() as int)
    }
}

/// `count` in thousandths of `total`, at most 1000; 0 where `total` is 0.
pub open spec fn permille_of(count: nat, total: nat) -> nat {
    if total == 0 {
        0
    } else if count * 1000 / total > 1000 {
        1000
    } else {
        count * 1000 / total
    }
}

/// The text is long enough to judge, and either fewer than one byte in
/// twenty is blank space or its lines are `LONG_LINE` bytes long on average.
pub open spec fn likely_minified(text: Seq<u8>) -> bool {
    let len = text.len() as int;
    &&& len >= MINIFIED_MIN_LEN as int
    &&& (count_marked(Mark::Space, text, len) * 20 < len || (newlines_before(text, len) + 1)
        * (LONG_LINE as int) <= len)
}

/// The measured signals of a text.
pub struct Signals {
    /// Bytes of escape sequences and control bytes, in thousandths of the
    /// text.
    pub anomaly: nat,
    /// Degenerate identifiers, in thousandths of all identifiers.
    pub degeneracy: nat,
    /// The number of long base64 runs.
    pub long_runs: nat,
    /// Whether the layout is that of minified code.
    pub minified: bool,
    /// Mentions of decode functions per thousand bytes.
    pub decoder_density: nat,
}

/// The signals of `text`.
pub open spec fn measure(text: Seq<u8>) -> Signals {
    let len = text.len() as int;
    let identifiers = count_marked(Mark::Identifier, text, len);
    Signals {
        anomaly: permille_of(
            count_marked(Mark::Control, text, len) + 4 * count_marked(Mark::Escape, text, len),
            text.len(),
        ),
        degeneracy: if identifiers < MIN_IDENTIFIERS as nat {
            0
        } else {
            permille_of(count_marked(Mark::Degenerate, text, len), identifiers)
        },
        long_runs: count_marked(Mark::LongRun, text, len),
        minified: likely_minified(text),
        decoder_density: permille_of(count_mentions(text, len), text.len()),
    }
}

/// `x`, but at most `cap`.
pub open spec fn capped(x: nat, cap: nat) -> nat {
    if x > cap {
        cap
    } else {
        x
    }
}

/// The score that a set of signals earns.
pub open spec fn score_of(s: Signals) -> nat {
    capped(
        capped(s.anomaly / 10, 25) + capped(s.degeneracy / 40, 20) + capped(10 * s.long_runs, 25)
            + (if s.minified {
            15nat
        } else {
            0nat
        }) + capped(3 * s.decoder_density, 15),
        MAX_SCORE as nat,
    )
}

/// The obfuscation score of `text`.
pub open spec fn score_spec(text: Seq<u8>) -> nat {
    score_of(measure(text))
}

/// Every signal of `more` is at least the same signal of `less`.
pub open spec fn dominates(more: Signals, less: Signals) -> bool {
    &&& more.anomaly >= less.anomaly
    &&& more.degeneracy >= less.degeneracy
    &&& more.long_runs >= less.long_runs
    &&& (less.minified ==> more.minified)
    &&& more.decoder_density >= less.decoder_density
}

/// What counts as a mark in a text still counts when more text follows,
/// unless the mark is that of a degenerate identifier, which more text can
/// lengthen.
pub proof fn lemma_mark_survives_appending(mark: Mark, text: Seq<u8>, appended: Seq<u8>, at: int)
    requires
        mark != Mark::Degenerate,
        0 <= at < text.len(),
        marked(mark, text, at),
    ensures
        marked(mark, text + appended, at),
{
    if mark == Mark::LongRun {
        lemma_run_ignores_what_follows(text, appended, at + 1);
    }
}

proof fn lemma_run_ignores_what_follows(text: Seq<u8>, appended: Seq<u8>, at: int)
    requires
        0 <= at <= text.len(),
    ensures
        run_before(text + appended, at) == run_before(text, at),
    decreases at,
{
    if at > 0 {
        lemma_run_ignores_what_follows(text, appended, at - 1);
    }
}

/// The count of a mark grows with the stretch that is counted.
pub proof fn lemma_count_grows(mark: Mark, text: Seq<u8>, from: int, to: int)
    requires
        from <= to,
    ensures
        count_marked(mark, text, from) <= count_marked(mark, text, to),
    decreases to - from,
{
    if from < to {
        lemma_count_grows(mark, text, from, to - 1);
    }
}

/// Appending to a text lowers none of its counts of control bytes, of
/// escape sequences, of identifiers, of long base64 runs and of blank space.
pub proof fn lemma_counts_survive_appending(mark: Mark, text: Seq<u8>, appended: Seq<u8>)
    requires
        mark != Mark::Degenerate,
    ensures
        count_marked(mark, text, text.len() as int) <= count_marked(
            mark,
            text + appended,
            (text + appended).len() as int,
        ),
{
    lemma_counts_agree_on_prefix(mark, text, appended, text.len() as int);
    lemma_count_grows(mark, text + appended, text.len() as int, (text + appended).len() as int);
}

proof fn lemma_counts_agree_on_prefix(mark: Mark, text: Seq<u8>, appended: Seq<u8>, upto: int)
    requires
        mark != Mark::Degenerate,
        upto <= text.len(),
    ensures
        count_marked(mark, text, upto) <= count_marked(mark, text + appended, upto),
    decreases upto,
{
    if upto > 0 {
        lemma_counts_agree_on_prefix(mark, text, appended, upto - 1);
        if marked(mark, text, upto - 1) {
            lemma_mark_survives_appending(mark, text, appended, upto - 1);
        }
    }
}

/// Appending to a text never lowers its number of long base64 runs.
pub proof fn lemma_long_runs_survive_appending(text: Seq<u8>, appended: Seq<u8>)
    ensures
        measure(text).long_runs <= measure(text + appended).long_runs,
{
    lemma_counts_survive_appending(Mark::LongRun, text, appended);
}

fn control_byte(b: u8) -> (r: bool)
    ensures
        r == is_control_byte(b),
{
    (b < 0x20 && b != 0x09 && b != 0x0a && b != 0x0d) || b == 0x7f
}

fn hex_digit(b: u8) -> (r: bool)
    ensures
        r == is_hex_digit(b),
{
    let f = fold(b);
    (b >= 0x30 && b <= 0x39) || (f >= 0x61 && f <= 0x66)
}

fn upper(b: u8) -> (r: bool)
    ensures
        r == is_upper(b),
{
    b >= 0x41 && b <= 0x5a
}

fn lower(b: u8) -> (r: bool)
    ensures
        r == is_lower(b),
{
    b >= 0x61 && b <= 0x7a
}

fn base64_byte(b: u8) -> (r: bool)
    ensures
        r == is_base64_byte(b),
{
    upper(b) || lower(b) || (b >= 0x30 && b <= 0x39) || b == 0x2b || b == 0x2f || b == 0x3d
}

fn permille(count: u128, total: usize) -> (r: u32)
    requires
        count <= 0xffff_ffff_ffff_ffff_ffff,
    ensures
        r == permille_of(count as nat, total as nat),
        r <= 1000,
{
    if total == 0 {
        return 0;
    }
    let q = count * 1000 / (total as u128);
    if q > 1000 {
        1000
    } else {
        q as u32
    }
}

fn escape_here(text: &[u8], at: usize) -> (r: bool)
    requires
        at < text@.len(),
    ensures
        r == escape_at(text@, at as int),
{
    if text.len() - at <= 3 {
        return false;
    }
    let kind = fold(text[at + 1]);
    text[at] == 0x5c && (kind == 0x78 || kind == 0x75) && hex_digit(text[at + 2]) && hex_digit(
        text[at + 3],
    )
}

fn identifier_here(text: &[u8], at: usize) -> (r: bool)
    requires
        at < text@.len(),
    ensures
        r == identifier_at(text@, at as int),
{
    let b = text[at];
    (upper(b) || lower(b) || b == 0x5f) && (at == 0 || !ident_byte(text[at - 1]))
}

/// Tests whether the identifier that starts at `at` is degenerate.
fn degenerate_here(text: &[u8], at: usize) -> (r: bool)
    requires
        at < text@.len(),
        identifier_at(text@, at as int),
    ensures
        r == marked(Mark::Degenerate, text@, at as int),
{
    let left = text.len() - at;
    if left <= 1 || !ident_byte(text[at + 1]) || left <= 2 || !ident_byte(text[at + 2]) {
        return true;
    }
    if left <= 3 {
        return false;
    }
    let a = text[at];
    let b = text[at + 1];
    let c = text[at + 2];
    let d = text[at + 3];
    (upper(a) && lower(b) && upper(c) && lower(d)) || (lower(a) && upper(b) && lower(c) && upper(d))
}

/// Counts the control bytes and the escape sequences of `text`.
fn count_anomalies(text: &[u8]) -> (found: (usize, usize))
    ensures
        found.0 == count_marked(Mark::Control, text@, text@.len() as int),
        found.1 == count_marked(Mark::Escape, text@, text@.len() as int),
        found.0 <= text@.len(),
        found.1 <= text@.len(),
{
    let n = text.len();
    let mut controls: usize = 0;
    let mut escapes: usize = 0;
    let mut at: usize = 0;
    while at < n
        invariant
            at <= n,
            n == text@.len(),
            controls <= at,
            escapes <= at,
            controls == count_marked(Mark::Control, text@, at as int),
            escapes == count_marked(Mark::Escape, text@, at as int),
        decreases n - at,
    {
        if control_byte(text[at]) {
            controls = controls + 1;
        }
        if escape_here(text, at) {
            escapes = escapes + 1;
        }
        at = at + 1;
    }
    (controls, escapes)
}

/// Counts the identifiers of `text`, and the degenerate ones among them.
fn count_identifiers(text: &[u8]) -> (found: (usize, usize))
    ensures
        found.0 == count_marked(Mark::Identifier, text@, text@.len() as int),
        found.1 == count_marked(Mark::Degenerate, text@, text@.len() as int),
        found.0 <= text@.len(),
        found.1 <= text@.len(),
{
    let n = text.len();
    let mut identifiers: usize = 0;
    let mut degenerate: usize = 0;
    let mut at: usize = 0;
    while at < n
        invariant
            at <= n,
            n == text@.len(),
            identifiers <= at,
            degenerate <= at,
            identifiers == count_marked(Mark::Identifier, text@, at as int),
            degenerate == count_marked(Mark::Degenerate, text@, at as int),
        decreases n - at,
    {
        if identifier_here(text, at) {
            identifiers = identifiers + 1;
            if degenerate_here(text, at) {
                degenerate = degenerate + 1;
            }
        }
        at = at + 1;
    }
    (identifiers, degenerate)
}

/// Counts the long base64 runs of `text`.
fn count_long_runs(text: &[u8]) -> (runs: usize)
    ensures
        runs == count_marked(Mark::LongRun, text@, text@.len() as int),
{
    let n = text.len();
    let mut runs: usize = 0;
    let mut run: usize = 0;
    let mut at: usize = 0;
    while at < n
        invariant
            at <= n,
            n == text@.len(),
            runs <= at,
            run <= at,
            run == run_before(text@, at as int),
            runs == count_marked(Mark::LongRun, text@, at as int),
        decreases n - at,
    {
        if base64_byte(text[at]) {
            run = run + 1;
        } else {
            run = 0;
        }
        if run == LONG_RUN {
            runs = runs + 1;
        }
        at = at + 1;
    }
    runs
}

/// Counts the blank-space bytes and the line feeds of `text`.
fn count_layout(text: &[u8]) -> (found: (usize, usize))
    ensures
        found.0 == count_marked(Mark::Space, text@, text@.len() as int),
        found.1 == newlines_before(text@, text@.len() as int),
        found.0 <= text@.len(),
        found.1 <= text@.len(),
{
    let n = text.len();
    let mut spaces: usize = 0;
    let mut newlines: usize = 0;
    let mut at: usize = 0;
    while at < n
        invariant
            at <= n,
            n == text@.len(),
            spaces <= at,
            newlines <= at,
            spaces == count_marked(Mark::Space, text@, at as int),
            newlines == newlines_before(text@, at as int),
        decreases n - at,
    {
        if space_byte(text[at]) {
            spaces = spaces + 1;
        }
        if text[at] == 0x0a {
            newlines = newlines + 1;
        }
        at = at + 1;
    }
    (spaces, newlines)
}

/// Counts the mentions of decode functions in `text`.
fn count_decoder_mentions(text: &[u8]) -> (mentions: u128)
    ensures
        mentions == count_mentions(text@, text@.len() as int),
        mentions <= text@.len() * 26,
{
    let table = DECODERS;
    let decoders = table.as_slice();
    let n = text.len();
    let mut mentions: u128 = 0;
    let mut at: usize = 0;
    while at < n
        invariant
            decoders@ == DECODERS@,
            at <= n,
            n == text@.len(),
            mentions <= at * 26,
            mentions == count_mentions(text@, at as int),
        decreases n - at,
    {
        let mut k: usize = 0;
        let ghost base = mentions;
        while k < decoders.len()
            invariant
                decoders@ == DECODERS@,
                at < n,
                n == text@.len(),
                k <= DECODERS@.len() == 26,
                base <= at * 26,
                mentions == base + mentions_at(text@, at as int, k as int),
                mentions_at(text@, at as int, k as int) <= k,
            decreases DECODERS@.len() - k,
        {
            if matches_at(text, at, decoders[k].0.as_bytes()) {
                mentions = mentions + 1;
            }
            k = k + 1;
        }
        at = at + 1;
    }
    mentions
}

fn minified_layout(len: usize, spaces: usize, newlines: usize) -> (r: bool)
    requires
        spaces <= len,
        newlines <= len,
    ensures
        r == (len >= MINIFIED_MIN_LEN && (spaces * 20 < len || (newlines + 1) * (LONG_LINE as int)
            <= len)),
{
    len >= MINIFIED_MIN_LEN && ((spaces as u128) * 20 < (len as u128) || ((newlines as u128) + 1)
        * (LONG_LINE as u128) <= (len as u128))
}

/// Tells whether `content` has the layout of minified code: it is at least
/// `MINIFIED_MIN_LEN` bytes long, and either hardly holds blank space or
/// consists of a few very long lines.
pub fn is_likely_minified(content: &str) -> (r: bool)
    ensures
        r == likely_minified(content.spec_bytes()),
{
    let text = content.as_bytes();
    let layout = count_layout(text);
    minified_layout(text.len(), layout.0, layout.1)
}

/// Adds up the points that the signals earn.
fn points(anomaly: u32, degeneracy: u32, long_runs: usize, minified: bool, density: u32) -> (score:
    u32)
    requires
        anomaly <= 1000,
        degeneracy <= 1000,
        density <= 1000,
    ensures
        score == score_of(
            Signals {
                anomaly: anomaly as nat,
                degeneracy: degeneracy as nat,
                long_runs: long_runs as nat,
                minified,
                decoder_density: density as nat,
            },
        ),
        score <= MAX_SCORE,
{
    let a: u32 = if anomaly / 10 > 25 {
        25
    } else {
        anomaly / 10
    };
    let b: u32 = if degeneracy / 40 > 20 {
        20
    } else {
        degeneracy / 40
    };
    let c: u32 = if long_runs >= 3 {
        25
    } else {
        10 * (long_runs as u32)
    };
    let d: u32 = if minified {
        15
    } else {
        0
    };
    let e: u32 = if density >= 5 {
        15
    } else {
        3 * density
    };
    let total = a + b + c + d + e;
    if total > MAX_SCORE {
        MAX_SCORE
    } else {
        total
    }
}

/// Computes the obfuscation score of `content`, from 0 to `MAX_SCORE`.
pub fn obfuscation_score(content: &str) -> (score: u32)
    ensures
        score == score_spec(content.spec_bytes()),
        score <= MAX_SCORE,
{
    let text = content.as_bytes();
    let n = text.len();
    let anomalies = count_anomalies(text);
    let identifiers = count_identifiers(text);
    let long_runs = count_long_runs(text);
    let layout = count_layout(text);
    let mentions = count_decoder_mentions(text);
    let anomaly = permille((anomalies.0 as u128) + 4 * (anomalies.1 as u128), n);
    let degeneracy = if identifiers.0 < MIN_IDENTIFIERS {
        0
    } else {
        permille(identifiers.1 as u128, identifiers.0)
    };
    let density = permille(mentions, n);
    points(anomaly, degeneracy, long_runs, minified_layout(n, layout.0, layout.1), density)
}

} // verus!
