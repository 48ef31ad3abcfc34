//! Comparing a candidate coverage report against a baseline.
use vstd::prelude::*;
use crate::coverage::{Coverage, compare_coverage, report_text, verdict};
use crate::extract::{RateError, extract, extracted};

verus! {

/// Status and report for two snapshots that may be absent: `9` without a
/// baseline, `8` without a candidate, else the verdict of the tolerance rule.
pub open spec fn outcome(base: Option<Coverage>, comp: Option<Coverage>, tolerance: u64) -> (
    usize,
    Seq<char>,
) {
    match base {
        None => (9, "No base result for comparison"@),
        Some(b) => match comp {
            None => (8, "Nothing found to compare"@),
            Some(c) => (
                verdict(b.truncated(), c.truncated(), tolerance),
                report_text(b.truncated(), c.truncated(), tolerance),
            ),
        },
    }
}

/// What comparing two documents gives. The candidate is not read when the
/// baseline holds no snapshot.
pub open spec fn compared(base: Option<&[u8]>, comp: Option<&[u8]>, tolerance: u64) -> Result<
    (usize, Seq<char>),
    RateError,
> {
    match extracted(base) {
        Err(e) => Err(e),
        Ok(None) => Ok(outcome(None, None, tolerance)),
        Ok(Some(b)) => match extracted(comp) {
            Err(e) => Err(e),
            Ok(c) => Ok(outcome(Some(b), c, tolerance)),
        },
    }
}

/// Compares two snapshots that may be absent.
pub fn compare_found(base: Option<Coverage>, comp: Option<Coverage>, tolerance: u64) -> (r: (
    usize,
    String,
))
    ensures
        r.0 == outcome(base, comp, tolerance).0,
        r.1@ == outcome(base, comp, tolerance).1,
{
    match base {
        None => (9, String::from_str("No base result for comparison")),
        Some(b) => match comp {
            None => (8, String::from_str("Nothing found to compare")),
            Some(c) => compare_coverage(b, c, tolerance),
        },
    }
}

/// Compares a candidate report with a baseline report; `None` stands for a
/// file that does not exist or cannot be read. `tolerance` is in the units of
/// the rates. The status is `9` when the baseline holds no snapshot, `8` when
/// the candidate holds none, `1` when a rate dropped by more than `tolerance`
/// and `0` otherwise. A rate attribute that is not a number is an error.
pub fn compare(base: Option<&[u8]>, comp: Option<&[u8]>, tolerance: u64) -> (r: Result<
    (usize, String),
    RateError,
>)
    ensures
        match compared(base, comp, tolerance) {
            Err(e) => r == Err::<(usize, String), RateError>(e),
            Ok(o) => r matches Ok(v) && v.0 == o.0 && v.1@ == o.1,
        },
{
    let b = match extract(base) {
        Err(e) => {
            return Err(e);
        },
        Ok(None) => {
            return Ok(compare_found(None, None, tolerance));
        },
        Ok(Some(b)) => b,
    };
    match extract(comp) {
        Err(e) => Err(e),
        Ok(c) => Ok(compare_found(Some(b), c, tolerance)),
    }
}

/// Without a baseline snapshot the status is `9`, whatever the candidate and
/// the tolerance.
pub proof fn lemma_missing_baseline(comp: Option<&[u8]>, tolerance: u64)
    ensures
        compared(None, comp, tolerance) == Ok::<(usize, Seq<char>), RateError>(
            (9, "No base result for comparison"@),
        ),
{
}

/// With a baseline snapshot and no candidate the status is `8`.
pub proof fn lemma_missing_candidate(base: &[u8], tolerance: u64)
    requires
        extracted(Some(base)) matches Ok(Some(_)),
    ensures
        compared(Some(base), None, tolerance) == Ok::<(usize, Seq<char>), RateError>(
            (8, "Nothing found to compare"@),
        ),
{
}

/// A report that holds a snapshot, compared with itself, passes.
pub proof fn lemma_same_report_passes(doc: &[u8], tolerance: u64)
    requires
        extracted(Some(doc)) matches Ok(Some(_)),
    ensures
        compared(Some(doc), Some(doc), tolerance) matches Ok(o) && o.0 == 0,
{
}

} // verus!
