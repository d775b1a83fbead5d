//! Task collection: from the caller's inputs, and what was found on disk for
//! each of them, to the ordered list of (source, destination) pairs of a run.
use vstd::prelude::*;
use crate::order::{
    lemma_less_asymmetric, lemma_less_irreflexive, lemma_less_total, lemma_less_transitive,
    path_less, path_less_exec,
};
use crate::paths::{
    clean_task_path, is_marked, is_marked_processed, is_supported, is_supported_spec, opt_view,
    resolve_output_path, resolve_spec, unquoted,
};
use crate::types::{FileTask, OptimizeConfig, RunError};

verus! {

/// What an input path turned out to be on disk.
#[derive(Debug, Clone, Copy, PartialEq, Eq)]
pub enum PathKind {
    Missing,
    Directory,
    File,
}

/// What was found on disk for one input: the kind of its cleaned path, whether
/// its root is a directory, and, for a directory, the files beneath it in the
/// order they were walked.
#[derive(Debug, Clone)]
pub struct PathScan {
    pub kind: PathKind,
    pub root_is_dir: bool,
    pub files: Vec<String>,
}

/// One unit of work: a source file and where its output goes.
#[derive(Debug, Clone, PartialEq, Eq)]
pub struct ResolvedTask {
    pub source: String,
    pub dest: String,
}

pub type PairSeq = Seq<(Seq<char>, Seq<char>)>;

pub open spec fn task_view(t: ResolvedTask) -> (Seq<char>, Seq<char>) {
    (t.source@, t.dest@)
}

pub open spec fn tasks_view(v: Seq<ResolvedTask>) -> PairSeq {
    v.map_values(|t: ResolvedTask| task_view(t))
}

/// The supported files of a directory, each with its destination.
pub open spec fn dir_candidates(
    files: Seq<String>,
    root: Seq<char>,
    root_is_dir: bool,
    out: Option<Seq<char>>,
    replace: bool,
) -> PairSeq
    decreases files.len(),
{
    if files.len() == 0 {
        Seq::empty()
    } else {
        let prev = dir_candidates(files.drop_last(), root, root_is_dir, out, replace);
        let f = files.last()@;
        if is_supported_spec(f) {
            prev.push((f, resolve_spec(f, root, root_is_dir, out, replace)))
        } else {
            prev
        }
    }
}

/// The pairs one input contributes.
pub open spec fn task_candidates(task: FileTask, scan: PathScan, out: Option<Seq<char>>, replace: bool) -> PairSeq {
    let p = unquoted(task.path@);
    if is_marked(p) {
        Seq::empty()
    } else {
        match scan.kind {
            PathKind::Missing => Seq::empty(),
            PathKind::Directory => dir_candidates(scan.files@, task.root@, scan.root_is_dir, out, replace),
            PathKind::File => if is_supported_spec(p) {
                seq![(p, resolve_spec(p, task.root@, scan.root_is_dir, out, replace))]
            } else {
                Seq::empty()
            },
        }
    }
}

/// The pairs of the first `n` inputs, in input order, duplicates kept.
pub open spec fn candidates(config: OptimizeConfig, scans: Seq<PathScan>, n: int) -> PairSeq
    decreases n,
{
    if n <= 0 {
        Seq::empty()
    } else {
        candidates(config, scans, n - 1) + task_candidates(
            config.tasks@[n - 1],
            scans[n - 1],
            opt_view(config.output_dir),
            config.replace,
        )
    }
}

pub open spec fn all_candidates(config: OptimizeConfig, scans: Seq<PathScan>) -> PairSeq {
    candidates(config, scans, config.tasks@.len() as int)
}

/// Sources strictly increasing in the task order.
pub open spec fn sorted_by_source(r: PairSeq) -> bool {
    forall|i: int, j: int| 0 <= i < j < r.len() ==> path_less(#[trigger] r[i].0, #[trigger] r[j].0)
}

/// `p` is the first pair of `c` with its source.
pub open spec fn first_with_source(c: PairSeq, p: (Seq<char>, Seq<char>)) -> bool {
    exists|k: int| 0 <= k < c.len() && c[k] == p && forall|m: int| 0 <= m < k ==> (#[trigger] c[m]).0 != p.0
}

/// Every source of `c` has a pair in `r`.
pub open spec fn covers(r: PairSeq, c: PairSeq, n: int) -> bool {
    forall|m: int| 0 <= m < n ==> exists|a: int| 0 <= a < r.len() && (#[trigger] r[a]).0 == (#[trigger] c[m]).0
}

/// `r` is `c` sorted by source with duplicates collapsed onto their first pair.
pub open spec fn is_task_list(r: PairSeq, c: PairSeq) -> bool {
    &&& sorted_by_source(r)
    &&& forall|a: int| 0 <= a < r.len() ==> first_with_source(c, #[trigger] r[a])
    &&& covers(r, c, c.len() as int)
}

proof fn lemma_cand_push(config: OptimizeConfig, scans: Seq<PathScan>, n: int)
    requires
        n >= 1,
    ensures
        candidates(config, scans, n) == candidates(config, scans, n - 1) + task_candidates(
            config.tasks@[n - 1],
            scans[n - 1],
            opt_view(config.output_dir),
            config.replace,
        ),
{
}

fn push_task(v: &mut Vec<ResolvedTask>, source: String, dest: String)
    ensures
        tasks_view(final(v)@) == tasks_view(old(v)@).push((source@, dest@)),
{
    let ghost before = v@;
    v.push(ResolvedTask { source, dest });
    assert(tasks_view(v@) =~= tasks_view(before).push((source@, dest@)));
}

/// The pairs of one input, appended to `out`.
fn add_task_candidates(
    out: &mut Vec<ResolvedTask>,
    task: &FileTask,
    scan: &PathScan,
    output_dir: &Option<String>,
    replace: bool,
)
    ensures
        tasks_view(final(out)@) == tasks_view(old(out)@) + task_candidates(*task, *scan, opt_view(*output_dir), replace),
{
    let p = clean_task_path(task.path.as_str());
    let ghost start = tasks_view(out@);
    if is_marked_processed(p.as_str()) {
        assert(start + Seq::empty() =~= start);
        return;
    }
    match scan.kind {
        PathKind::Missing => {
            assert(start + Seq::empty() =~= start);
        },
        PathKind::File => {
            if is_supported(p.as_str()) {
                let d = resolve_output_path(p.as_str(), task.root.as_str(), scan.root_is_dir, output_dir, replace);
                let ghost pv = p@;
                push_task(out, p, d);
                assert(start.push((pv, d@)) =~= start + seq![(pv, d@)]);
            } else {
                assert(start + Seq::empty() =~= start);
            }
        },
        PathKind::Directory => {
            let n = scan.files.len();
            let mut i: usize = 0;
            let ghost fs = scan.files@;
            assert(fs.take(0) =~= Seq::<String>::empty());
            assert(start + Seq::empty() =~= start);
            while i < n
                invariant
                    n == fs.len(),
                    fs == scan.files@,
                    i <= n,
                    tasks_view(out@) == start + dir_candidates(
                        fs.take(i as int),
                        task.root@,
                        scan.root_is_dir,
                        opt_view(*output_dir),
                        replace,
                    ),
                decreases n - i,
            {
                let f = &scan.files[i];
                assert(fs.take(i + 1).drop_last() =~= fs.take(i as int));
                if is_supported(f.as_str()) {
                    let d = resolve_output_path(f.as_str(), task.root.as_str(), scan.root_is_dir, output_dir, replace);
                    push_task(out, f.clone(), d);
                    assert(tasks_view(out@) =~= start + dir_candidates(
                        fs.take(i + 1),
                        task.root@,
                        scan.root_is_dir,
                        opt_view(*output_dir),
                        replace,
                    ));
                }
                i = i + 1;
            }
            assert(fs.take(n as int) =~= fs);
        },
    }
}

/// Every pair the inputs yield, in input order, duplicates kept.
fn gather(config: &OptimizeConfig, scans: &Vec<PathScan>) -> (r: Vec<ResolvedTask>)
    requires
        scans@.len() == config.tasks@.len(),
    ensures
        tasks_view(r@) == all_candidates(*config, scans@),
{
    let mut r: Vec<ResolvedTask> = Vec::new();
    let n = config.tasks.len();
    let mut i: usize = 0;
    assert(tasks_view(r@) =~= Seq::empty());
    while i < n
        invariant
            n == config.tasks@.len() == scans@.len(),
            i <= n,
            tasks_view(r@) == candidates(*config, scans@, i as int),
        decreases n - i,
    {
        proof {
            lemma_cand_push(*config, scans@, i + 1);
        }
        add_task_candidates(&mut r, &config.tasks[i], &scans[i], &config.output_dir, config.replace);
        i = i + 1;
    }
    r
}

/// Inserts `t` at its place in the sorted list `r`, unless a pair with the
/// same source is already there.
fn insert_sorted(r: &mut Vec<ResolvedTask>, t: &ResolvedTask, Ghost(c): Ghost<PairSeq>, Ghost(j): Ghost<int>)
    requires
        0 <= j < c.len(),
        c[j] == task_view(*t),
        sorted_by_source(tasks_view(old(r)@)),
        forall|a: int| 0 <= a < old(r)@.len() ==> first_with_source(c, #[trigger] tasks_view(old(r)@)[a]),
        covers(tasks_view(old(r)@), c, j),
    ensures
        sorted_by_source(tasks_view(final(r)@)),
        forall|a: int| 0 <= a < final(r)@.len() ==> first_with_source(c, #[trigger] tasks_view(final(r)@)[a]),
        covers(tasks_view(final(r)@), c, j + 1),
{
    let ghost old_v = tasks_view(r@);
    let ghost x = t.source@;
    let n = r.len();
    let mut k: usize = 0;
    while k < n && path_less_exec(r[k].source.as_str(), t.source.as_str())
        invariant
            n == r@.len(),
            old_v == tasks_view(r@),
            x == t.source@,
            k <= n,
            forall|a: int| 0 <= a < k ==> path_less(#[trigger] old_v[a].0, x),
        decreases n - k,
    {
        k = k + 1;
    }
    if k < n && r[k].source == t.source {
        assert(old_v[k as int].0 == c[j].0);
        assert(covers(old_v, c, j + 1)) by {
            assert forall|m: int| 0 <= m < j + 1 implies exists|a: int|
                0 <= a < old_v.len() && (#[trigger] old_v[a]).0 == (#[trigger] c[m]).0 by {
                if m == j {
                    assert(old_v[k as int].0 == c[m].0);
                }
            }
        }
        return;
    }
    // `x` is new, and greater than every source before position `k`, smaller than the rest.
    assert forall|a: int| k <= a < n implies path_less(x, #[trigger] old_v[a].0) by {
        lemma_less_total(old_v[k as int].0, x);
        if a > k {
            lemma_less_transitive(x, old_v[k as int].0, old_v[a].0);
        }
    }
    assert forall|a: int| 0 <= a < n implies (#[trigger] old_v[a]).0 != x by {
        lemma_less_irreflexive(x);
    }
    // So `c[j]` is the first pair with its source.
    assert forall|m: int| 0 <= m < j implies (#[trigger] c[m]).0 != c[j].0 by {
        let a = choose|a: int| 0 <= a < old_v.len() && (#[trigger] old_v[a]).0 == c[m].0;
        assert(old_v[a].0 != x);
    }
    assert(first_with_source(c, c[j]));
    let ghost tv = task_view(*t);
    r.insert(k, ResolvedTask { source: t.source.clone(), dest: t.dest.clone() });
    let ghost nv = tasks_view(r@);
    assert(nv =~= old_v.insert(k as int, tv));
    assert(sorted_by_source(nv)) by {
        assert forall|a: int, b: int| 0 <= a < b < nv.len() implies path_less(#[trigger] nv[a].0, #[trigger] nv[b].0) by {
            if a < k && b > k {
                lemma_less_transitive(old_v[a].0, x, old_v[b - 1].0);
            }
        }
    }
    assert forall|a: int| 0 <= a < nv.len() implies first_with_source(c, #[trigger] nv[a]) by {
        if a < k {
            assert(nv[a] == old_v[a]);
        } else if a > k {
            assert(nv[a] == old_v[a - 1]);
        }
    }
    assert(covers(nv, c, j + 1)) by {
        assert forall|m: int| 0 <= m < j + 1 implies exists|a: int|
            0 <= a < nv.len() && (#[trigger] nv[a]).0 == (#[trigger] c[m]).0 by {
            if m == j {
                assert(nv[k as int].0 == c[m].0);
            } else {
                let a = choose|a: int| 0 <= a < old_v.len() && (#[trigger] old_v[a]).0 == c[m].0;
                if a < k {
                    assert(nv[a].0 == c[m].0);
                } else {
                    assert(nv[a + 1].0 == c[m].0);
                }
            }
        }
    }
}

pub open spec fn collect_spec(c: PairSeq, r: Result<Vec<ResolvedTask>, RunError>) -> bool {
    match r {
        Ok(v) => c.len() > 0 && is_task_list(tasks_view(v@), c),
        Err(e) => c.len() == 0 && e == RunError::EmptyInput,
    }
}

/// The tasks of a run: every supported file that the inputs name, each with its
/// destination, sorted by source with one pair per source (the first one the
/// inputs yield). `scans[i]` is what was found on disk for `config.tasks[i]`.
/// Sources are compared as written (see `path_less`): two spellings of one
/// file are two sources.
/// Fails with `EmptyInput` when no file qualifies.
pub fn collect_file_tasks(config: &OptimizeConfig, scans: &Vec<PathScan>) -> (r: Result<Vec<ResolvedTask>, RunError>)
    requires
        scans@.len() == config.tasks@.len(),
    ensures
        collect_spec(all_candidates(*config, scans@), r),
{
    let cands = gather(config, scans);
    let ghost c = tasks_view(cands@);
    if cands.len() == 0 {
        return Err(RunError::EmptyInput);
    }
    let mut r: Vec<ResolvedTask> = Vec::new();
    let n = cands.len();
    let mut j: usize = 0;
    assert(tasks_view(r@) =~= Seq::empty());
    while j < n
        invariant
            n == cands@.len() == c.len(),
            c == tasks_view(cands@),
            j <= n,
            sorted_by_source(tasks_view(r@)),
            forall|a: int| 0 <= a < r@.len() ==> first_with_source(c, #[trigger] tasks_view(r@)[a]),
            covers(tasks_view(r@), c, j as int),
        decreases n - j,
    {
        insert_sorted(&mut r, &cands[j], Ghost(c), Ghost(j as int));
        j = j + 1;
    }
    Ok(r)
}

pub open spec fn sources(r: PairSeq) -> Seq<Seq<char>> {
    r.map_values(|p: (Seq<char>, Seq<char>)| p.0)
}

pub open spec fn strictly_sorted(k: Seq<Seq<char>>) -> bool {
    forall|i: int, j: int| 0 <= i < j < k.len() ==> path_less(#[trigger] k[i], #[trigger] k[j])
}

proof fn lemma_head_equal(k1: Seq<Seq<char>>, k2: Seq<Seq<char>>)
    requires
        k1.len() > 0,
        k2.len() > 0,
        strictly_sorted(k1),
        strictly_sorted(k2),
        k2.contains(k1[0]),
        k1.contains(k2[0]),
    ensures
        k1[0] == k2[0],
{
    let b0 = choose|b: int| 0 <= b < k2.len() && k2[b] == k1[0];
    let a0 = choose|a: int| 0 <= a < k1.len() && k1[a] == k2[0];
    if b0 > 0 {
        assert(path_less(k2[0], k2[b0]));
        if a0 > 0 {
            assert(path_less(k1[0], k1[a0]));
            lemma_less_asymmetric(k1[0], k2[0]);
        } else {
            lemma_less_irreflexive(k2[0]);
        }
    }
}

proof fn lemma_tail_contains(k1: Seq<Seq<char>>, k2: Seq<Seq<char>>, x: Seq<char>)
    requires
        k1.len() > 0,
        k2.len() > 0,
        k1[0] == k2[0],
        strictly_sorted(k1),
        strictly_sorted(k2),
        k1.skip(1).contains(x),
        k1.contains(x) ==> k2.contains(x),
    ensures
        k2.skip(1).contains(x),
{
    let a = choose|a: int| 0 <= a < k1.skip(1).len() && k1.skip(1)[a] == x;
    assert(k1[a + 1] == x);
    assert(path_less(k1[0], k1[a + 1]));
    lemma_less_irreflexive(x);
    let b = choose|b: int| 0 <= b < k2.len() && k2[b] == x;
    assert(b != 0);
    assert(k2.skip(1)[b - 1] == x);
}

proof fn lemma_sorted_unique(k1: Seq<Seq<char>>, k2: Seq<Seq<char>>)
    requires
        strictly_sorted(k1),
        strictly_sorted(k2),
        forall|x: Seq<char>| k1.contains(x) <==> k2.contains(x),
    ensures
        k1 == k2,
    decreases k1.len(),
{
    if k1.len() > 0 && k2.len() > 0 {
        assert(k1.contains(k1[0]));
        assert(k2.contains(k2[0]));
        lemma_head_equal(k1, k2);
        let t1 = k1.skip(1);
        let t2 = k2.skip(1);
        assert(strictly_sorted(t1)) by {
            assert forall|i: int, j: int| 0 <= i < j < t1.len() implies path_less(#[trigger] t1[i], #[trigger] t1[j]) by {
                assert(t1[i] == k1[i + 1] && t1[j] == k1[j + 1]);
            }
        }
        assert(strictly_sorted(t2)) by {
            assert forall|i: int, j: int| 0 <= i < j < t2.len() implies path_less(#[trigger] t2[i], #[trigger] t2[j]) by {
                assert(t2[i] == k2[i + 1] && t2[j] == k2[j + 1]);
            }
        }
        assert forall|x: Seq<char>| t1.contains(x) <==> t2.contains(x) by {
            if t1.contains(x) {
                lemma_tail_contains(k1, k2, x);
            }
            if t2.contains(x) {
                lemma_tail_contains(k2, k1, x);
            }
        }
        lemma_sorted_unique(t1, t2);
        assert(k1 =~= seq![k1[0]] + t1);
        assert(k2 =~= seq![k2[0]] + t2);
    } else if k1.len() > 0 {
        assert(k1.contains(k1[0]));
    } else if k2.len() > 0 {
        assert(k2.contains(k2[0]));
    } else {
        assert(k1 =~= k2);
    }
}

proof fn lemma_sources_of_list(r: PairSeq, c: PairSeq)
    requires
        is_task_list(r, c),
    ensures
        strictly_sorted(sources(r)),
        forall|x: Seq<char>| sources(r).contains(x) <==> sources(c).contains(x),
{
    let k = sources(r);
    assert forall|i: int, j: int| 0 <= i < j < k.len() implies path_less(#[trigger] k[i], #[trigger] k[j]) by {
        assert(path_less(r[i].0, r[j].0));
    }
    assert forall|x: Seq<char>| k.contains(x) <==> sources(c).contains(x) by {
        if k.contains(x) {
            let a = choose|a: int| 0 <= a < k.len() && k[a] == x;
            assert(first_with_source(c, r[a]));
            let m = choose|m: int| 0 <= m < c.len() && c[m] == r[a] && forall|t: int| 0 <= t < m ==> (#[trigger] c[t]).0 != r[a].0;
            assert(sources(c)[m] == x);
        }
        if sources(c).contains(x) {
            let m = choose|m: int| 0 <= m < sources(c).len() && sources(c)[m] == x;
            assert(c[m].0 == x);
            let a = choose|a: int| 0 <= a < r.len() && (#[trigger] r[a]).0 == c[m].0;
            assert(k[a] == x);
        }
    }
}

/// Task resolution is deterministic: for the same inputs and the same findings on
/// disk, any two lists that `collect_file_tasks` may return are equal.
pub proof fn lemma_collect_deterministic(
    config: OptimizeConfig,
    scans: Seq<PathScan>,
    r1: Result<Vec<ResolvedTask>, RunError>,
    r2: Result<Vec<ResolvedTask>, RunError>,
)
    requires
        collect_spec(all_candidates(config, scans), r1),
        collect_spec(all_candidates(config, scans), r2),
    ensures
        match (r1, r2) {
            (Ok(v1), Ok(v2)) => tasks_view(v1@) == tasks_view(v2@),
            (Err(e1), Err(e2)) => e1 == e2,
            _ => false,
        },
{
    let c = all_candidates(config, scans);
    if let (Ok(v1), Ok(v2)) = (r1, r2) {
        let s1 = tasks_view(v1@);
        let s2 = tasks_view(v2@);
        lemma_sources_of_list(s1, c);
        lemma_sources_of_list(s2, c);
        lemma_sorted_unique(sources(s1), sources(s2));
        assert forall|i: int| 0 <= i < s1.len() implies s1[i] == s2[i] by {
            assert(sources(s1)[i] == sources(s2)[i]);
            assert(first_with_source(c, s1[i]));
            assert(first_with_source(c, s2[i]));
            let k1 = choose|k: int| 0 <= k < c.len() && c[k] == s1[i] && forall|m: int| 0 <= m < k ==> (#[trigger] c[m]).0 != s1[i].0;
            let k2 = choose|k: int| 0 <= k < c.len() && c[k] == s2[i] && forall|m: int| 0 <= m < k ==> (#[trigger] c[m]).0 != s2[i].0;
            if k1 < k2 {
                assert(c[k1].0 != s2[i].0);
            } else if k2 < k1 {
                assert(c[k2].0 != s1[i].0);
            }
        }
        assert(s1.len() == sources(s1).len());
        assert(s1 =~= s2);
    }
}

} // verus!
