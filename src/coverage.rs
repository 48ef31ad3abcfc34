//! A coverage snapshot and the tolerance rule that compares two of them.
use vstd::prelude::*;
use crate::rate::MILLI;
use crate::text::{milli_text, signed_milli_text, push_milli, push_signed_delta};

verus! {

/// Line and branch coverage rates, each in units of `1 / SCALE` (so `SCALE` is
/// a rate of `1.0`).
#[derive(Clone, Copy, Debug, PartialEq, Eq, Structural)]
pub struct Coverage {
    pub line: u64,
    pub branch: u64,
}

/// Drops everything below the third decimal.
pub open spec fn trunc_rate(x: u64) -> u64 {
    (x - x % MILLI) as u64
}

impl Coverage {
    pub open spec fn zero() -> Coverage {
        Coverage { line: 0, branch: 0 }
    }

    /// Both rates hold no digit past the third decimal.
    pub open spec fn is_truncated(self) -> bool {
        self.line % MILLI == 0 && self.branch % MILLI == 0
    }

    pub open spec fn truncated(self) -> Coverage {
        Coverage { line: trunc_rate(self.line), branch: trunc_rate(self.branch) }
    }

    /// Truncates both rates to three decimals.
    pub fn trunc(&mut self)
        ensures
            *final(self) == old(self).truncated(),
            final(self).is_truncated(),
    {
        self.line = self.line - self.line % MILLI;
        self.branch = self.branch - self.branch % MILLI;
    }
}

/// A drop from `from` to `to` is allowed when it is no larger than `tolerance`.
pub open spec fn within(from: u64, to: u64, tolerance: u64) -> bool {
    to as int - from as int >= -(tolerance as int)
}

/// Exit status of a comparison of two truncated snapshots.
pub open spec fn verdict(base: Coverage, comp: Coverage, tolerance: u64) -> usize {
    if within(base.line, comp.line, tolerance) && within(base.branch, comp.branch, tolerance) {
        0
    } else {
        1
    }
}

pub open spec fn marker(ok: bool) -> Seq<char> {
    if ok {
        "\u{2705}"@
    } else {
        "\u{274c}"@
    }
}

/// One report line: `<label> coverage changed from <from> to <to> (<delta>) <marker>`.
pub open spec fn metric_line(label: Seq<char>, from: u64, to: u64, tolerance: u64) -> Seq<char> {
    label + " coverage changed from "@ + milli_text((from / MILLI) as nat) + " to "@ + milli_text(
        (to / MILLI) as nat,
    ) + " ("@ + signed_milli_text((to / MILLI) as int - (from / MILLI) as int) + ") "@ + marker(
        within(from, to, tolerance),
    )
}

/// The two-line report on two truncated snapshots.
pub open spec fn report_text(base: Coverage, comp: Coverage, tolerance: u64) -> Seq<char> {
    metric_line("Line"@, base.line, comp.line, tolerance) + "\n"@ + metric_line(
        "Branch"@,
        base.branch,
        comp.branch,
        tolerance,
    )
}

fn is_within(from: u64, to: u64, tolerance: u64) -> (r: bool)
    ensures
        r == within(from, to, tolerance),
{
    (to as u128) + (tolerance as u128) >= from as u128
}

fn push_metric(out: &mut String, label: &str, from: u64, to: u64, tolerance: u64)
    ensures
        final(out)@ == old(out)@ + metric_line(label@, from, to, tolerance),
{
    out.append(label);
    out.append(" coverage changed from ");
    push_milli(out, from / MILLI);
    out.append(" to ");
    push_milli(out, to / MILLI);
    out.append(" (");
    push_signed_delta(out, from / MILLI, to / MILLI);
    out.append(") ");
    if is_within(from, to, tolerance) {
        out.append("\u{2705}");
    } else {
        out.append("\u{274c}");
    }
    assert(final(out)@ =~= old(out)@ + metric_line(label@, from, to, tolerance));
}

/// Compares two snapshots after truncating both to three decimals: the status is
/// `0` when neither rate dropped by more than `tolerance`, else `1`, and the
/// text reports both rates.
pub fn compare_coverage(base: Coverage, comp: Coverage, tolerance: u64) -> (r: (usize, String))
    ensures
        r.0 == verdict(base.truncated(), comp.truncated(), tolerance),
        r.1@ == report_text(base.truncated(), comp.truncated(), tolerance),
        r.0 == 0 <==> (within(trunc_rate(base.line), trunc_rate(comp.line), tolerance) && within(
            trunc_rate(base.branch),
            trunc_rate(comp.branch),
            tolerance,
        )),
        r.0 == 0 || r.0 == 1,
{
    let mut b = base;
    let mut c = comp;
    b.trunc();
    c.trunc();
    let line_ok = is_within(b.line, c.line, tolerance);
    let branch_ok = is_within(b.branch, c.branch, tolerance);
    let mut text = String::new();
    push_metric(&mut text, "Line", b.line, c.line, tolerance);
    text.append("\n");
    push_metric(&mut text, "Branch", b.branch, c.branch, tolerance);
    assert(text@ =~= report_text(b, c, tolerance));
    let code: usize = if line_ok && branch_ok {
        0
    } else {
        1
    };
    (code, text)
}

/// Truncating a snapshot that is already truncated changes nothing.
pub proof fn lemma_trunc_idempotent(c: Coverage)
    ensures
        c.truncated().truncated() == c.truncated(),
        c.is_truncated() ==> c.truncated() == c,
{
    assert(trunc_rate(c.line) % MILLI == 0) by {
        vstd::arithmetic::div_mod::lemma_sub_mod_noop(c.line as int, (c.line % MILLI) as int, MILLI as int);
    }
    assert(trunc_rate(c.branch) % MILLI == 0) by {
        vstd::arithmetic::div_mod::lemma_sub_mod_noop(c.branch as int, (c.branch % MILLI) as int, MILLI as int);
    }
}

/// When neither rate of `comp` is more than `tolerance` below that of `base`,
/// the comparison passes.
pub proof fn lemma_within_tolerance_passes(base: Coverage, comp: Coverage, tolerance: u64)
    requires
        base.is_truncated(),
        comp.is_truncated(),
        comp.line + tolerance >= base.line,
        comp.branch + tolerance >= base.branch,
    ensures
        verdict(base.truncated(), comp.truncated(), tolerance) == 0,
{
    lemma_trunc_idempotent(base);
    lemma_trunc_idempotent(comp);
}

/// When either rate of `comp` is more than `tolerance` below that of `base`,
/// the comparison fails.
pub proof fn lemma_regression_fails(base: Coverage, comp: Coverage, tolerance: u64)
    requires
        base.is_truncated(),
        comp.is_truncated(),
        comp.line + tolerance < base.line || comp.branch + tolerance < base.branch,
    ensures
        verdict(base.truncated(), comp.truncated(), tolerance) == 1,
{
    lemma_trunc_idempotent(base);
    lemma_trunc_idempotent(comp);
}

/// A snapshot compared with itself passes, whatever the tolerance.
pub proof fn lemma_self_comparison_passes(c: Coverage, tolerance: u64)
    ensures
        verdict(c.truncated(), c.truncated(), tolerance) == 0,
{
}

} // verus!
