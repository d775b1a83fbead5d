//! Reduction of the per-file outcomes into the totals of a run.
use vstd::prelude::*;
use crate::types::{FileOutcome, FileStats, FileStatus, FinalResult};
use crate::worker::{off_outcome, sat};

verus! {

/// Below this many microseconds of measured phase time the phases are not rescaled.
pub const RESCALE_EPSILON: u64 = 100;

/// Sum of one field over the outcomes.
pub open spec fn sum_field(s: Seq<FileOutcome>, f: spec_fn(FileStats) -> u64) -> int
    decreases s.len(),
{
    if s.len() == 0 { 0 } else { sum_field(s.drop_last(), f) + f(s.last().stats) }
}

/// Number of files that went through every step.
pub open spec fn count_completed(s: Seq<FileOutcome>) -> int
    decreases s.len(),
{
    if s.len() == 0 {
        0
    } else {
        count_completed(s.drop_last()) + if s.last().status == FileStatus::Completed { 1int } else { 0 }
    }
}

pub open spec fn saved_of(x: FileStats) -> u64 { x.bytes_saved }
pub open spec fn original_of(x: FileStats) -> u64 { x.original_size }
pub open spec fn optimized_of(x: FileStats) -> u64 { x.optimized_size }
pub open spec fn webp_of(x: FileStats) -> u64 { x.webp_size }
pub open spec fn avif_of(x: FileStats) -> u64 { x.avif_size }
pub open spec fn opt_time_of(x: FileStats) -> u64 { x.duration_opt }
pub open spec fn webp_time_of(x: FileStats) -> u64 { x.duration_webp }
pub open spec fn avif_time_of(x: FileStats) -> u64 { x.duration_avif }

/// A phase total rescaled onto the wall-clock time of the run.
pub open spec fn rescaled(phase: u64, cpu: u64, wall: u64) -> u64 {
    if cpu > RESCALE_EPSILON { (phase as int * wall as int / cpu as int) as u64 } else { 0 }
}

/// The totals of a run over the outcomes `s` (sums saturate at the largest `u64`).
pub open spec fn aggregate_spec(s: Seq<FileOutcome>, wall: u64, is_canceled: bool, r: FinalResult) -> bool {
    let o = sat(sum_field(s, |x: FileStats| opt_time_of(x)));
    let w = sat(sum_field(s, |x: FileStats| webp_time_of(x)));
    let a = sat(sum_field(s, |x: FileStats| avif_time_of(x)));
    let cpu = sat(o + w + a);
    &&& r.total_files == s.len()
    &&& r.processed_files == count_completed(s)
    &&& r.is_canceled == is_canceled
    &&& r.total_size_saved == sat(sum_field(s, |x: FileStats| saved_of(x)))
    &&& r.total_size_original == sat(sum_field(s, |x: FileStats| original_of(x)))
    &&& r.total_size_optimized == sat(sum_field(s, |x: FileStats| optimized_of(x)))
    &&& r.total_size_webp == sat(sum_field(s, |x: FileStats| webp_of(x)))
    &&& r.total_size_avif == sat(sum_field(s, |x: FileStats| avif_of(x)))
    &&& r.duration_total == wall
    &&& r.duration_opt == rescaled(o, cpu, wall)
    &&& r.duration_webp == rescaled(w, cpu, wall)
    &&& r.duration_avif == rescaled(a, cpu, wall)
}

proof fn lemma_sum_nonneg(s: Seq<FileOutcome>, f: spec_fn(FileStats) -> u64)
    ensures
        sum_field(s, f) >= 0,
    decreases s.len(),
{
    if s.len() > 0 {
        lemma_sum_nonneg(s.drop_last(), f);
    }
}

proof fn lemma_count_bounds(s: Seq<FileOutcome>)
    ensures
        0 <= count_completed(s) <= s.len(),
        count_completed(s) == s.len() <==> forall|i: int| 0 <= i < s.len() ==> (#[trigger] s[i]).status == FileStatus::Completed,
    decreases s.len(),
{
    if s.len() > 0 {
        let p = s.drop_last();
        lemma_count_bounds(p);
        if count_completed(s) == s.len() {
            assert forall|i: int| 0 <= i < s.len() implies (#[trigger] s[i]).status == FileStatus::Completed by {
                if i < s.len() - 1 {
                    assert(s[i] == p[i]);
                }
            }
        }
        if forall|i: int| 0 <= i < s.len() ==> (#[trigger] s[i]).status == FileStatus::Completed {
            assert forall|i: int| 0 <= i < p.len() implies (#[trigger] p[i]).status == FileStatus::Completed by {
                assert(s[i] == p[i]);
            }
            assert(s[s.len() - 1].status == FileStatus::Completed);
        }
    }
}

proof fn lemma_split_le(o: int, w: int, a: int, c: int, wl: int)
    requires
        o >= 0,
        w >= 0,
        a >= 0,
        wl >= 0,
        c > 0,
        o + w + a == c,
    ensures
        (o * wl) / c + (w * wl) / c + (a * wl) / c <= wl,
{
    let (x, y, z) = (o * wl, w * wl, a * wl);
    assert(x + y + z == c * wl) by (nonlinear_arith)
        requires x == o * wl, y == w * wl, z == a * wl, o + w + a == c;
    assert(x >= 0 && y >= 0 && z >= 0) by (nonlinear_arith)
        requires x == o * wl, y == w * wl, z == a * wl, o >= 0, w >= 0, a >= 0, wl >= 0;
    assert(c * (x / c) <= x) by (nonlinear_arith)
        requires c > 0, x >= 0;
    assert(c * (y / c) <= y) by (nonlinear_arith)
        requires c > 0, y >= 0;
    assert(c * (z / c) <= z) by (nonlinear_arith)
        requires c > 0, z >= 0;
    assert(x / c + y / c + z / c <= wl) by (nonlinear_arith)
        requires c * (x / c) <= x, c * (y / c) <= y, c * (z / c) <= z, x + y + z == c * wl, c > 0;
}

/// Adds `x` to a running total, stopping at the largest `u64`.
fn add_sat(total: u64, x: u64, Ghost(sum): Ghost<int>) -> (r: u64)
    requires
        sum >= 0,
        total == sat(sum),
    ensures
        r == sat(sum + x),
{
    total.saturating_add(x)
}

fn rescale(phase: u64, cpu: u64, wall: u64) -> (r: u64)
    requires
        phase <= cpu,
    ensures
        r == rescaled(phase, cpu, wall),
        r <= wall,
{
    if cpu > RESCALE_EPSILON {
        assert((phase as int) * (wall as int) <= (u64::MAX as int) * (u64::MAX as int)) by (nonlinear_arith)
            requires phase <= u64::MAX, wall <= u64::MAX;
        let num: u128 = phase as u128 * wall as u128;
        let q: u128 = num / cpu as u128;
        proof {
            assert(phase as int * wall as int <= cpu as int * wall as int) by (nonlinear_arith)
                requires phase <= cpu;
            assert(q <= wall) by (nonlinear_arith)
                requires q == num / cpu as u128, num <= cpu as int * wall as int, cpu > 0;
        }
        q as u64
    } else {
        0
    }
}

/// The totals of a run: the per-file sizes and phase times summed, the number
/// of files that completed, and the three phase times rescaled so that they sum
/// to (at most) the wall-clock time `wall` of the run.
pub fn aggregate(outcomes: &Vec<FileOutcome>, wall: u64, is_canceled: bool) -> (r: FinalResult)
    ensures
        aggregate_spec(outcomes@, wall, is_canceled, r),
        r.processed_files <= r.total_files,
        r.duration_opt <= wall && r.duration_webp <= wall && r.duration_avif <= wall,
        r.duration_opt <= r.duration_total,
        sum_field(outcomes@, |x: FileStats| opt_time_of(x)) + sum_field(outcomes@, |x: FileStats| webp_time_of(x))
            + sum_field(outcomes@, |x: FileStats| avif_time_of(x)) <= u64::MAX
            ==> r.duration_opt as int + r.duration_webp + r.duration_avif <= wall,
{
    let ghost s = outcomes@;
    let n = outcomes.len();
    let mut saved: u64 = 0;
    let mut original: u64 = 0;
    let mut optimized: u64 = 0;
    let mut webp: u64 = 0;
    let mut avif: u64 = 0;
    let mut t_opt: u64 = 0;
    let mut t_webp: u64 = 0;
    let mut t_avif: u64 = 0;
    let mut done: u64 = 0;
    let mut i: usize = 0;
    assert(s.take(0) =~= Seq::<FileOutcome>::empty());
    while i < n
        invariant
            n == s.len(),
            s == outcomes@,
            i <= n,
            saved == sat(sum_field(s.take(i as int), |x: FileStats| saved_of(x))),
            original == sat(sum_field(s.take(i as int), |x: FileStats| original_of(x))),
            optimized == sat(sum_field(s.take(i as int), |x: FileStats| optimized_of(x))),
            webp == sat(sum_field(s.take(i as int), |x: FileStats| webp_of(x))),
            avif == sat(sum_field(s.take(i as int), |x: FileStats| avif_of(x))),
            t_opt == sat(sum_field(s.take(i as int), |x: FileStats| opt_time_of(x))),
            t_webp == sat(sum_field(s.take(i as int), |x: FileStats| webp_time_of(x))),
            t_avif == sat(sum_field(s.take(i as int), |x: FileStats| avif_time_of(x))),
            done == count_completed(s.take(i as int)),
        decreases n - i,
    {
        let ghost p = s.take(i as int);
        let ghost q = s.take(i + 1);
        assert(q.drop_last() =~= p);
        proof {
            lemma_sum_nonneg(p, |x: FileStats| saved_of(x));
            lemma_sum_nonneg(p, |x: FileStats| original_of(x));
            lemma_sum_nonneg(p, |x: FileStats| optimized_of(x));
            lemma_sum_nonneg(p, |x: FileStats| webp_of(x));
            lemma_sum_nonneg(p, |x: FileStats| avif_of(x));
            lemma_sum_nonneg(p, |x: FileStats| opt_time_of(x));
            lemma_sum_nonneg(p, |x: FileStats| webp_time_of(x));
            lemma_sum_nonneg(p, |x: FileStats| avif_time_of(x));
            lemma_count_bounds(p);
        }
        let st = outcomes[i].stats;
        saved = add_sat(saved, st.bytes_saved, Ghost(sum_field(p, |x: FileStats| saved_of(x))));
        original = add_sat(original, st.original_size, Ghost(sum_field(p, |x: FileStats| original_of(x))));
        optimized = add_sat(optimized, st.optimized_size, Ghost(sum_field(p, |x: FileStats| optimized_of(x))));
        webp = add_sat(webp, st.webp_size, Ghost(sum_field(p, |x: FileStats| webp_of(x))));
        avif = add_sat(avif, st.avif_size, Ghost(sum_field(p, |x: FileStats| avif_of(x))));
        t_opt = add_sat(t_opt, st.duration_opt, Ghost(sum_field(p, |x: FileStats| opt_time_of(x))));
        t_webp = add_sat(t_webp, st.duration_webp, Ghost(sum_field(p, |x: FileStats| webp_time_of(x))));
        t_avif = add_sat(t_avif, st.duration_avif, Ghost(sum_field(p, |x: FileStats| avif_time_of(x))));
        if outcomes[i].status == FileStatus::Completed {
            done = done + 1;
        }
        i = i + 1;
    }
    assert(s.take(n as int) =~= s);
    proof {
        lemma_count_bounds(s);
        lemma_sum_nonneg(s, |x: FileStats| opt_time_of(x));
        lemma_sum_nonneg(s, |x: FileStats| webp_time_of(x));
        lemma_sum_nonneg(s, |x: FileStats| avif_time_of(x));
    }
    let cpu: u64 = t_opt.saturating_add(t_webp).saturating_add(t_avif);
    assert(cpu == sat(t_opt + t_webp + t_avif));
    let d_opt = rescale(t_opt, cpu, wall);
    let d_webp = rescale(t_webp, cpu, wall);
    let d_avif = rescale(t_avif, cpu, wall);
    proof {
        if cpu > RESCALE_EPSILON && t_opt as int + t_webp + t_avif <= u64::MAX {
            lemma_split_le(t_opt as int, t_webp as int, t_avif as int, cpu as int, wall as int);
        }
    }
    FinalResult {
        total_files: n as u64,
        processed_files: done,
        is_canceled,
        total_size_saved: saved,
        duration_total: wall,
        duration_opt: d_opt,
        duration_webp: d_webp,
        duration_avif: d_avif,
        total_size_original: original,
        total_size_optimized: optimized,
        total_size_webp: webp,
        total_size_avif: avif,
    }
}

/// Every file of a run is counted as processed exactly when the run was not
/// canceled, on runs where no copy failed and where the token, if set, was seen
/// by some file.
pub proof fn lemma_processed_iff_not_canceled(s: Seq<FileOutcome>, wall: u64, is_canceled: bool, r: FinalResult)
    requires
        aggregate_spec(s, wall, is_canceled, r),
        forall|i: int| 0 <= i < s.len() ==> (#[trigger] s[i]).status != FileStatus::CopyFailed,
        is_canceled == exists|i: int| 0 <= i < s.len() && (#[trigger] s[i]).status == FileStatus::Canceled,
    ensures
        r.processed_files <= r.total_files,
        r.processed_files == r.total_files <==> !r.is_canceled,
{
    lemma_count_bounds(s);
}

proof fn lemma_sum_le(s: Seq<FileOutcome>, f: spec_fn(FileStats) -> u64, g: spec_fn(FileStats) -> u64)
    requires
        forall|i: int| 0 <= i < s.len() ==> f((#[trigger] s[i]).stats) <= g(s[i].stats),
    ensures
        sum_field(s, f) <= sum_field(s, g),
    decreases s.len(),
{
    if s.len() > 0 {
        let p = s.drop_last();
        assert forall|i: int| 0 <= i < p.len() implies f((#[trigger] p[i]).stats) <= g(p[i].stats) by {
            assert(p[i] == s[i]);
        }
        lemma_sum_le(p, f, g);
        assert(f(s[s.len() - 1].stats) <= g(s[s.len() - 1].stats));
    }
}

proof fn lemma_sum_zero(s: Seq<FileOutcome>, f: spec_fn(FileStats) -> u64)
    requires
        forall|i: int| 0 <= i < s.len() ==> f((#[trigger] s[i]).stats) == 0,
    ensures
        sum_field(s, f) == 0,
    decreases s.len(),
{
    if s.len() > 0 {
        let p = s.drop_last();
        assert forall|i: int| 0 <= i < p.len() implies f((#[trigger] p[i]).stats) == 0 by {
            assert(p[i] == s[i]);
        }
        lemma_sum_zero(p, f);
        assert(f(s[s.len() - 1].stats) == 0);
    }
}

/// The total saved is never more than the total original size, when no file
/// reports saving more than its own size (as every outcome the library builds).
pub proof fn lemma_total_saved_bounded(s: Seq<FileOutcome>, wall: u64, is_canceled: bool, r: FinalResult)
    requires
        aggregate_spec(s, wall, is_canceled, r),
        forall|i: int| 0 <= i < s.len() ==> (#[trigger] s[i]).stats.bytes_saved <= s[i].stats.original_size,
    ensures
        r.total_size_saved <= r.total_size_original,
{
    let f = |x: FileStats| saved_of(x);
    let g = |x: FileStats| original_of(x);
    assert forall|i: int| 0 <= i < s.len() implies f((#[trigger] s[i]).stats) <= g(s[i].stats) by {}
    lemma_sum_le(s, f, g);
    lemma_sum_nonneg(s, f);
}

/// A run whose files were all worked on with recompression off saves nothing
/// and spends no optimize time; its optimized total is zero unless some file
/// was stopped by cancellation (such a file keeps its original size).
pub proof fn lemma_run_recompress_off(s: Seq<FileOutcome>, wall: u64, is_canceled: bool, r: FinalResult)
    requires
        aggregate_spec(s, wall, is_canceled, r),
        forall|i: int| 0 <= i < s.len() ==> off_outcome(#[trigger] s[i]),
    ensures
        r.total_size_saved == 0,
        r.duration_opt == 0,
        (forall|i: int| 0 <= i < s.len() ==> (#[trigger] s[i]).status != FileStatus::Canceled)
            ==> r.total_size_optimized == 0,
{
    let fs = |x: FileStats| saved_of(x);
    let fo = |x: FileStats| opt_time_of(x);
    let fz = |x: FileStats| optimized_of(x);
    assert forall|i: int| 0 <= i < s.len() implies fs((#[trigger] s[i]).stats) == 0 by {
        assert(off_outcome(s[i]));
    }
    assert forall|i: int| 0 <= i < s.len() implies fo((#[trigger] s[i]).stats) == 0 by {
        assert(off_outcome(s[i]));
    }
    lemma_sum_zero(s, fs);
    lemma_sum_zero(s, fo);
    let o = sat(sum_field(s, |x: FileStats| opt_time_of(x)));
    assert(o == 0);
    assert((0 * wall as int) == 0);
    if forall|i: int| 0 <= i < s.len() ==> (#[trigger] s[i]).status != FileStatus::Canceled {
        assert forall|i: int| 0 <= i < s.len() implies fz((#[trigger] s[i]).stats) == 0 by {
            assert(off_outcome(s[i]));
        }
        lemma_sum_zero(s, fz);
    }
}

} // verus!
