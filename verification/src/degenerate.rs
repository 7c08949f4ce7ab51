//! Degenerate output: a short literal repeated over and over, or a runaway block of text.
use vstd::prelude::*;
use vstd::string::*;
use vstd::utf8::*;

use crate::agent::Agent;
use crate::text::{self, append_decimal, trim};

verus! {

/// Why assembled assistant text was classified as degenerate.
#[derive(Debug, Clone, Copy, PartialEq, Eq, Structural)]
pub enum DegenerateKind {
    /// A single short literal repeated a large number of times.
    Repeated,
    /// The block reached [`Agent::DEGENERATE_TEXT_BYTE_CAP`].
    Oversized,
    /// Normal output; no degeneracy detected.
    Normal,
}

impl DegenerateKind {
    /// Whether this is one of the two degenerate kinds.
    pub fn is_degenerate(self) -> (r: bool)
        ensures
            r == (self == DegenerateKind::Repeated || self == DegenerateKind::Oversized),
    {
        !matches!(self, DegenerateKind::Normal)
    }
}

/// `bytes` is `unit` written over and over, the last time perhaps only in part.
pub open spec fn repeats_unit(bytes: Seq<u8>, unit: Seq<u8>) -> bool {
    0 < unit.len() && forall|i: int|
        0 <= i < bytes.len() ==> #[trigger] bytes[i] == unit[i % unit.len() as int]
}

/// `bytes` is a short unit written over and over, at least eight times in full.
pub open spec fn is_literal_run_spec(bytes: Seq<u8>) -> bool {
    exists|unit: Seq<u8>| #[trigger]
        repeats_unit(bytes, unit) && unit.len() <= Agent::DEGENERATE_REPEAT_MAX_PERIOD && 8
            * unit.len() <= bytes.len()
}

/// The kind of output that `text` is.
pub open spec fn classify_spec(text: Seq<char>) -> DegenerateKind {
    let trimmed = text::trim_spec(text);
    let bytes = encode_utf8(trimmed);
    if trimmed.len() == 0 {
        DegenerateKind::Normal
    } else if bytes.len() >= Agent::DEGENERATE_TEXT_BYTE_CAP {
        DegenerateKind::Oversized
    } else if bytes.len() >= Agent::DEGENERATE_REPEAT_MIN_BYTES && is_literal_run_spec(bytes) {
        DegenerateKind::Repeated
    } else {
        DegenerateKind::Normal
    }
}

/// `bytes` in tenths of a KiB, rounded to the nearest, ties to even.
pub open spec fn kib_tenths_spec(bytes: nat) -> nat {
    let tenths = 10 * bytes / 1024;
    let left = 10 * bytes % 1024;
    if left > 512 || (left == 512 && tenths % 2 == 1) {
        tenths + 1
    } else {
        tenths
    }
}

/// The notice for degenerate output, if `text` is that.
pub open spec fn degenerate_notice_spec(text: Seq<char>) -> Option<Seq<char>> {
    let bytes = encode_utf8(text::trim_spec(text)).len();
    match classify_spec(text) {
        DegenerateKind::Oversized => Some(
            "The model produced a very large text block ("@ + text::decimal(
                kib_tenths_spec(bytes) / 10,
            ) + "."@ + text::decimal(kib_tenths_spec(bytes) % 10)
                + " KiB) with no tool call. Its turn was not continued."@,
        ),
        DegenerateKind::Repeated => Some(
            "The model kept repeating the same short literal instead of making progress ("@
                + text::decimal(bytes)
                + " bytes of repeated text). Its turn was not continued."@,
        ),
        DegenerateKind::Normal => None,
    }
}

/// `bytes` in tenths of a KiB: the size with one decimal, ties to even, without its point.
pub fn kib_tenths(bytes: usize) -> (r: usize)
    ensures
        r == kib_tenths_spec(bytes as nat),
{
    let whole: usize = bytes / 1024;
    let part: usize = 10 * (bytes % 1024);
    let tenths: usize = 10 * whole + part / 1024;
    let left: usize = part % 1024;
    if left > 512 || (left == 512 && tenths % 2 == 1) {
        tenths + 1
    } else {
        tenths
    }
}

impl Agent {
    /// Lower bound on a text block before it is inspected for repeated-literal degeneracy. Short
    /// strings naturally contain repeated characters and words, so only a substantial run is
    /// treated as a suspicious literal repeat.
    pub const DEGENERATE_REPEAT_MIN_BYTES: usize = 4096;

    /// Largest repeating unit, in bytes, that makes a "literal" run. A genuine degenerate literal
    /// is short (a marker, a tag, a word); bounding the unit keeps detection cheap and avoids
    /// flagging large content that does not repeat.
    pub const DEGENERATE_REPEAT_MAX_PERIOD: usize = 64;

    /// Hard cap on a single assistant text block. Output at or above this size is treated as
    /// degenerate whatever it holds, so that a runaway response is bounded well below the
    /// provider's own limit and is never fed back by a continuation prompt.
    pub const DEGENERATE_TEXT_BYTE_CAP: usize = 256 * 1024;

    /// Classifies assembled assistant text, without the white space around it.
    pub fn classify_degenerate_output(text: &str) -> (r: DegenerateKind)
        ensures
            r == classify_spec(text@),
    {
        let trimmed = trim(text);
        if trimmed.is_empty() {
            return DegenerateKind::Normal;
        }
        let len = trimmed.as_bytes().len();
        if len >= Self::DEGENERATE_TEXT_BYTE_CAP {
            return DegenerateKind::Oversized;
        }
        if len >= Self::DEGENERATE_REPEAT_MIN_BYTES && Self::is_degenerate_literal_run(trimmed) {
            return DegenerateKind::Repeated;
        }
        DegenerateKind::Normal
    }

    /// Whether `text` is a short unit repeated end to end. A trailing partial unit is tolerated;
    /// the run covers the whole text, so that ordinary prose with a few repeated words is not
    /// mistaken for one.
    pub fn is_degenerate_literal_run(text: &str) -> (r: bool)
        ensures
            r == is_literal_run_spec(encode_utf8(text@)),
    {
        let bytes = text.as_bytes();
        let len = bytes.len();
        let max_period = if Self::DEGENERATE_REPEAT_MAX_PERIOD < len {
            Self::DEGENERATE_REPEAT_MAX_PERIOD
        } else {
            len
        };
        let mut period: usize = 1;
        while period <= max_period
            invariant
                bytes@ == encode_utf8(text@),
                len == bytes@.len(),
                max_period <= len,
                max_period <= Self::DEGENERATE_REPEAT_MAX_PERIOD,
                max_period == len || max_period == Self::DEGENERATE_REPEAT_MAX_PERIOD,
                1 <= period <= max_period + 1,
                forall|p: int|
                    1 <= p < period && 8 * p <= len ==> !has_period(bytes@, p),
            decreases max_period + 1 - period,
        {
            proof {
                lemma_fits_eight_times(len as int, period as int);
            }
            // Too few repeats to distinguish a run from ordinary output.
            if len / period >= 8 && repeats_with(bytes, period) {
                proof {
                    lemma_period_is_run(bytes@, period as int);
                }
                return true;
            }
            period = period + 1;
        }
        proof {
            if is_literal_run_spec(bytes@) {
                let unit = choose|unit: Seq<u8>| #[trigger]
                    repeats_unit(bytes@, unit) && unit.len() <= Self::DEGENERATE_REPEAT_MAX_PERIOD
                        && 8 * unit.len() <= bytes@.len();
                lemma_unit_is_period(bytes@, unit);
            }
        }
        false
    }

    /// Human-facing notice for a turn whose text is degenerate and is not handed back to the
    /// model. There is none for normal output.
    pub fn degenerate_output_notice(text: &str) -> (r: Option<String>)
        ensures
            text::opt_string(r) == degenerate_notice_spec(text@),
    {
        let len = trim(text).as_bytes().len();
        match Self::classify_degenerate_output(text) {
            DegenerateKind::Oversized => {
                let tenths = kib_tenths(len);
                let mut notice = String::new();
                notice.append("The model produced a very large text block (");
                append_decimal(&mut notice, tenths / 10);
                notice.append(".");
                append_decimal(&mut notice, tenths % 10);
                notice.append(" KiB) with no tool call. Its turn was not continued.");
                Some(notice)
            },
            DegenerateKind::Repeated => {
                let mut notice = String::new();
                notice.append(
                    "The model kept repeating the same short literal instead of making progress (",
                );
                append_decimal(&mut notice, len);
                notice.append(" bytes of repeated text). Its turn was not continued.");
                Some(notice)
            },
            DegenerateKind::Normal => None,
        }
    }
}

/// Every byte equals the one at the same place in the first `period` bytes.
#[verifier::opaque]
spec fn has_period(bytes: Seq<u8>, period: int) -> bool {
    forall|i: int| 0 <= i < bytes.len() ==> #[trigger] bytes[i] == bytes[i % period]
}

/// Whether the first `period` bytes are repeated to the end. Stops at the first mismatch.
fn repeats_with(bytes: &[u8], period: usize) -> (r: bool)
    requires
        1 <= period <= bytes@.len(),
    ensures
        r == has_period(bytes@, period as int),
{
    reveal(has_period);
    let mut i: usize = 0;
    while i < bytes.len()
        invariant
            1 <= period <= bytes@.len(),
            i <= bytes@.len(),
            forall|j: int| 0 <= j < i ==> #[trigger] bytes@[j] == bytes@[j % period as int],
        decreases bytes.len() - i,
    {
        if bytes[i] != bytes[i % period] {
            assert(!has_period(bytes@, period as int)) by {
                reveal(has_period);
            }
            return false;
        }
        i = i + 1;
    }
    true
}

/// A unit fits eight times where eight of it are no longer than the whole.
proof fn lemma_fits_eight_times(len: int, period: int)
    by (nonlinear_arith)
    requires
        0 <= len,
        1 <= period,
    ensures
        len / period >= 8 <==> 8 * period <= len,
{
}

/// A period that fits eight times makes a run.
proof fn lemma_period_is_run(bytes: Seq<u8>, period: int)
    requires
        1 <= period <= Agent::DEGENERATE_REPEAT_MAX_PERIOD,
        8 * period <= bytes.len(),
        has_period(bytes, period),
    ensures
        is_literal_run_spec(bytes),
{
    reveal(has_period);
    let unit = bytes.take(period);
    assert forall|i: int| 0 <= i < bytes.len() implies #[trigger] bytes[i] == unit[i
        % unit.len() as int] by {
        vstd::arithmetic::div_mod::lemma_mod_bound(i, period);
    }
    assert(repeats_unit(bytes, unit));
}

/// The length of a repeated unit is a period.
proof fn lemma_unit_is_period(bytes: Seq<u8>, unit: Seq<u8>)
    requires
        repeats_unit(bytes, unit),
        unit.len() <= bytes.len(),
    ensures
        has_period(bytes, unit.len() as int),
{
    reveal(has_period);
    let period = unit.len() as int;
    assert forall|i: int| 0 <= i < bytes.len() implies #[trigger] bytes[i] == bytes[i % period] by {
        vstd::arithmetic::div_mod::lemma_mod_bound(i, period);
        vstd::arithmetic::div_mod::lemma_mod_twice(i, period);
        assert(bytes[i % period] == unit[(i % period) % period]);
    }
}

} // verus!
