//! Decisions of the periodic sweep: which region archives to evict to stay
//! within the disk budget (least recently used first), which done jobs lost
//! their files, and which archives on disk no job owns.
use vstd::prelude::*;
use crate::text::{chars_of, str_eq};

verus! {

/// Bytes in a gibibyte.
pub const GIB: u64 = 1024 * 1024 * 1024;

/// What one sweep did.
#[derive(Debug, PartialEq, Eq, Structural)]
pub struct SweepReport {
    pub expired: usize,
    pub evicted: usize,
    pub orphan_files_removed: usize,
    pub lost_files_marked: usize,
}

impl Default for SweepReport {
    fn default() -> (r: SweepReport)
        ensures
            r.expired == 0,
            r.evicted == 0,
            r.orphan_files_removed == 0,
            r.lost_files_marked == 0,
    {
        SweepReport { expired: 0, evicted: 0, orphan_files_removed: 0, lost_files_marked: 0 }
    }
}

/// `a - b`, or 0 when `b` exceeds `a`.
pub open spec fn sat_sub(a: nat, b: nat) -> nat {
    if a >= b { (a - b) as nat } else { 0 }
}

/// The eviction scan from candidate `i` on, with the cache at `cache` bytes:
/// stop once the cache is within budget; skip candidates without a file
/// (`None`); otherwise evict the candidate and subtract its size. Gives the
/// indices evicted, in order, and the cache size left.
pub open spec fn eviction_from(cache: nat, budget: nat, sizes: Seq<Option<u64>>, i: int) -> (
    Seq<int>,
    nat,
)
    decreases sizes.len() - i,
{
    if i < 0 || i >= sizes.len() || cache <= budget {
        (Seq::<int>::empty(), cache)
    } else {
        match sizes[i] {
            None => eviction_from(cache, budget, sizes, i + 1),
            Some(sz) => {
                let rest = eviction_from(sat_sub(cache, sz as nat), budget, sizes, i + 1);
                (seq![i] + rest.0, rest.1)
            },
        }
    }
}

/// The eviction plan for a cache of `cache` bytes against `budget`, over the
/// evictable region archives least recently used first (`sizes[j]` is the
/// size of candidate `j`'s file, `None` when it has no file).
pub open spec fn eviction_plan(cache: nat, budget: nat, sizes: Seq<Option<u64>>) -> (Seq<int>, nat) {
    eviction_from(cache, budget, sizes, 0)
}

/// Plans the least-recently-used eviction: returns the candidate indices to
/// evict, in order, and the cache size once they are gone.
pub fn plan_evictions(cache_size: u64, budget: u64, sizes: &Vec<Option<u64>>) -> (r: (Vec<usize>, u64))
    ensures
        r.0@.map_values(|j: usize| j as int) == eviction_plan(cache_size as nat, budget as nat, sizes@).0,
        r.1 as nat == eviction_plan(cache_size as nat, budget as nat, sizes@).1,
{
    let mut plan: Vec<usize> = Vec::new();
    let mut cache = cache_size;
    let n = sizes.len();
    let mut i: usize = 0;
    let ghost total = eviction_plan(cache_size as nat, budget as nat, sizes@);
    proof {
        assert(plan@.map_values(|j: usize| j as int) + total.0 =~= total.0);
    }
    while i < n
        invariant
            n == sizes@.len(),
            i <= n,
            total == eviction_plan(cache_size as nat, budget as nat, sizes@),
            ({
                let rest = eviction_from(cache as nat, budget as nat, sizes@, i as int);
                &&& total.0 == plan@.map_values(|j: usize| j as int) + rest.0
                &&& total.1 == rest.1
            }),
        ensures
            i >= n || cache <= budget,
        decreases n - i,
    {
        if cache <= budget {
            break;
        }
        let ghost before = plan@.map_values(|j: usize| j as int);
        match sizes[i] {
            None => {},
            Some(sz) => {
                plan.push(i);
                cache = cache.saturating_sub(sz);
                proof {
                    let rest = eviction_from(cache as nat, budget as nat, sizes@, i + 1);
                    assert(plan@.map_values(|j: usize| j as int) =~= before.push(i as int));
                    assert(before + (seq![i as int] + rest.0) =~= before.push(i as int)
                        + rest.0);
                }
            },
        }
        i = i + 1;
    }
    proof {
        let rest = eviction_from(cache as nat, budget as nat, sizes@, i as int);
        assert(rest.0 =~= Seq::<int>::empty());
        assert(total.0 =~= plan@.map_values(|j: usize| j as int));
    }
    (plan, cache)
}

proof fn lemma_eviction_from_shape(cache: nat, budget: nat, sizes: Seq<Option<u64>>, i: int)
    requires
        0 <= i,
    ensures
        ({
            let (plan, left) = eviction_from(cache, budget, sizes, i);
            &&& forall|k: int| 0 <= k < plan.len() ==> i <= #[trigger] plan[k] < sizes.len()
                && sizes[plan[k]] is Some
            &&& forall|k1: int, k2: int| 0 <= k1 < k2 < plan.len() ==> plan[k1] < plan[k2]
            &&& left <= budget || forall|j: int|
                i <= j < sizes.len() && #[trigger] sizes[j] is Some ==> plan.contains(j)
            &&& forall|j: int, k: int|
                #![trigger sizes[j], plan[k]]
                0 <= k < plan.len() && i <= j < plan[k] && sizes[j] is Some
                    ==> plan.contains(j)
            &&& left <= cache
        }),
    decreases sizes.len() - i,
{
    if i >= sizes.len() || cache <= budget {
    } else {
        match sizes[i] {
            None => {
                lemma_eviction_from_shape(cache, budget, sizes, i + 1);
            },
            Some(sz) => {
                let c2 = sat_sub(cache, sz as nat);
                lemma_eviction_from_shape(c2, budget, sizes, i + 1);
                let rest = eviction_from(c2, budget, sizes, i + 1);
                let plan = seq![i] + rest.0;
                assert forall|k: int| 0 <= k < plan.len() implies i <= #[trigger] plan[k]
                    < sizes.len() && sizes[plan[k]] is Some by {
                    if k > 0 {
                        assert(plan[k] == rest.0[k - 1]);
                    }
                }
                assert forall|k1: int, k2: int| 0 <= k1 < k2 < plan.len() implies plan[k1]
                    < plan[k2] by {
                    assert(plan[k2] == rest.0[k2 - 1]);
                    if k1 > 0 {
                        assert(plan[k1] == rest.0[k1 - 1]);
                    }
                }
                if rest.1 > budget {
                    assert forall|j: int| i <= j < sizes.len() && #[trigger] sizes[j] is Some
                        implies plan.contains(j) by {
                        if j == i {
                            assert(plan[0] == i);
                        } else {
                            let k = choose|k: int| 0 <= k < rest.0.len() && rest.0[k] == j;
                            assert(plan[k + 1] == j);
                        }
                    }
                }
                assert forall|j: int, k: int|
                    #![trigger sizes[j], plan[k]]
                    0 <= k < plan.len() && i <= j < plan[k] && sizes[j] is Some
                        implies plan.contains(j) by {
                    if j == i {
                        assert(plan[0] == i);
                    } else {
                        assert(plan[k] == rest.0[k - 1]);
                        let k2 = choose|k2: int| 0 <= k2 < rest.0.len() && rest.0[k2] == j;
                        assert(plan[k2 + 1] == j);
                    }
                }
            },
        }
    }
}

/// The eviction plan only picks candidates that have a file, each at most
/// once and oldest first; it never skips an older candidate with a file in
/// favour of a newer one; it never grows the cache; and either the cache
/// ends within budget or every candidate with a file was evicted.
pub proof fn lemma_eviction_plan(cache: nat, budget: nat, sizes: Seq<Option<u64>>)
    ensures
        ({
            let (plan, left) = eviction_plan(cache, budget, sizes);
            &&& forall|k: int| 0 <= k < plan.len() ==> 0 <= #[trigger] plan[k] < sizes.len()
                && sizes[plan[k]] is Some
            &&& forall|k1: int, k2: int| 0 <= k1 < k2 < plan.len() ==> plan[k1] < plan[k2]
            &&& forall|j: int, k: int|
                #![trigger sizes[j], plan[k]]
                0 <= k < plan.len() && 0 <= j < plan[k] && sizes[j] is Some
                    ==> plan.contains(j)
            &&& left <= cache
            &&& left <= budget || forall|j: int|
                0 <= j < sizes.len() && #[trigger] sizes[j] is Some ==> plan.contains(j)
        }),
{
    lemma_eviction_from_shape(cache, budget, sizes, 0);
}

/// A cache already within budget evicts nothing.
pub proof fn lemma_no_eviction_within_budget(cache: nat, budget: nat, sizes: Seq<Option<u64>>)
    requires
        cache <= budget,
    ensures
        eviction_plan(cache, budget, sizes) == (Seq::<int>::empty(), cache),
{
}

/// A done job as the sweep sees it: the archive path it records, and whether
/// that file is on disk.
pub struct DoneFile {
    pub file_path: Option<String>,
    pub exists: bool,
}

/// A done job keeps its row when it names a file that is still on disk.
pub open spec fn keeps_file(f: DoneFile) -> bool {
    f.file_path is Some && f.exists
}

/// Indices of the done jobs whose file is gone (or never recorded), in order.
pub open spec fn lost_indices(done: Seq<DoneFile>) -> Seq<int>
    decreases done.len(),
{
    if done.len() == 0 {
        Seq::<int>::empty()
    } else {
        let prev = lost_indices(done.drop_last());
        if keeps_file(done.last()) {
            prev
        } else {
            prev.push(done.len() - 1)
        }
    }
}

/// The archive paths the done jobs still own, in order.
pub open spec fn known_paths(done: Seq<DoneFile>) -> Seq<Seq<char>>
    decreases done.len(),
{
    if done.len() == 0 {
        Seq::<Seq<char>>::empty()
    } else {
        let prev = known_paths(done.drop_last());
        if keeps_file(done.last()) {
            prev.push(done.last().file_path->0@)
        } else {
            prev
        }
    }
}

/// Every done job is accounted for exactly once: either its file is still on
/// disk and its path is among the known paths, or it is listed as lost.
pub proof fn lemma_reconcile_partition(done: Seq<DoneFile>)
    ensures
        forall|j: int| 0 <= j < done.len() ==> (#[trigger] lost_indices(done).contains(j)
            <==> !(done[j].file_path is Some && done[j].exists)),
        forall|j: int| 0 <= j < done.len() && (#[trigger] done[j]).file_path is Some && done[j].exists ==> known_paths(
            done,
        ).contains(done[j].file_path->0@),
        forall|k: int| 0 <= k < lost_indices(done).len() ==> 0 <= #[trigger] lost_indices(done)[k]
            < done.len(),
    decreases done.len(),
{
    if done.len() > 0 {
        let prev = done.drop_last();
        lemma_reconcile_partition(prev);
        let l = lost_indices(done);
        let lp = lost_indices(prev);
        let kn = known_paths(done);
        let kp = known_paths(prev);
        if keeps_file(done.last()) {
            assert(l == lp);
        } else {
            assert(l == lp.push(done.len() - 1));
        }
        assert forall|j: int| 0 <= j < done.len() implies (#[trigger] l.contains(j) <==> !keeps_file(
            done[j],
        )) by {
            if j < done.len() - 1 {
                assert(prev[j] == done[j]);
                assert(lp.contains(j) <==> !keeps_file(prev[j]));
                if l.contains(j) {
                    let k = choose|k: int| 0 <= k < l.len() && l[k] == j;
                    if k < lp.len() {
                        assert(lp[k] == j);
                    }
                    assert(lp.contains(j));
                }
                if lp.contains(j) {
                    let k = choose|k: int| 0 <= k < lp.len() && lp[k] == j;
                    assert(l[k] == j);
                }
            } else {
                if keeps_file(done.last()) && l.contains(j) {
                    let k = choose|k: int| 0 <= k < l.len() && l[k] == j;
                    assert(0 <= lp[k] < prev.len());
                }
                if !keeps_file(done.last()) {
                    assert(l[l.len() - 1] == j);
                }
            }
        }
        assert forall|j: int| 0 <= j < done.len() && keeps_file(#[trigger] done[j]) implies kn.contains(
            done[j].file_path->0@,
        ) by {
            if j < done.len() - 1 {
                assert(prev[j] == done[j]);
                assert(kp.contains(prev[j].file_path->0@));
                let k = choose|k: int| 0 <= k < kp.len() && kp[k] == prev[j].file_path->0@;
                assert(kn[k] == kp[k]);
            } else {
                assert(kn[kn.len() - 1] == done[j].file_path->0@);
            }
        }
        assert forall|k: int| 0 <= k < l.len() implies 0 <= #[trigger] l[k] < done.len() by {
            if k < lp.len() {
                assert(l[k] == lp[k]);
            }
        }
    }
}

/// Splits the done jobs into those whose file is lost (returned as indices,
/// to be marked expired) and the archive paths the others still own.
pub fn reconcile_done(done: &Vec<DoneFile>) -> (r: (Vec<usize>, Vec<String>))
    ensures
        r.0@.map_values(|j: usize| j as int) == lost_indices(done@),
        r.1@.map_values(|p: String| p@) == known_paths(done@),
{
    let mut lost: Vec<usize> = Vec::new();
    let mut known: Vec<String> = Vec::new();
    let n = done.len();
    for i in 0..n
        invariant
            n == done@.len(),
            lost@.map_values(|j: usize| j as int) == lost_indices(done@.take(i as int)),
            known@.map_values(|p: String| p@) == known_paths(done@.take(i as int)),
    {
        proof {
            assert(done@.take(i + 1).drop_last() =~= done@.take(i as int));
        }
        let ghost lost_before = lost@.map_values(|j: usize| j as int);
        let ghost known_before = known@.map_values(|p: String| p@);
        let f = &done[i];
        match &f.file_path {
            Some(path) if f.exists => {
                known.push(path.clone());
                proof {
                    assert(known@.map_values(|p: String| p@) =~= known_before.push(path@));
                }
            },
            _ => {
                lost.push(i);
                proof {
                    assert(lost@.map_values(|j: usize| j as int) =~= lost_before.push(i as int));
                }
            },
        }
    }
    proof {
        assert(done@.take(n as int) =~= done@);
    }
    (lost, known)
}

/// A file name with the `pmtiles` extension (as `Path::extension` reads it:
/// the text after the final `.`, where a name that is only `.pmtiles` has no
/// extension).
pub open spec fn is_archive_name(name: Seq<char>) -> bool {
    name.len() > 8 && name.subrange(name.len() - 8, name.len() as int) == ".pmtiles"@
}

/// Whether `a` ends with `b`.
pub fn ends_with(a: &Vec<char>, b: &Vec<char>) -> (r: bool)
    ensures
        r == (b@.len() <= a@.len() && a@.subrange(a@.len() - b@.len(), a@.len() as int) == b@),
{
    let n = a.len();
    let m = b.len();
    if m > n {
        return false;
    }
    let off = n - m;
    for k in 0..m
        invariant
            n == a@.len(),
            m == b@.len(),
            off == n - m,
            forall|j: int| 0 <= j < k ==> a@[off + j] == b@[j],
    {
        if a[off + k] != b[k] {
            proof {
                assert(a@.subrange(off as int, n as int)[k as int] != b@[k as int]);
            }
            return false;
        }
    }
    proof {
        assert(a@.subrange(off as int, n as int) =~= b@);
    }
    true
}

/// Whether a directory entry's file name marks a PMTiles archive.
pub fn is_archive_file_name(name: &str) -> (r: bool)
    ensures
        r == is_archive_name(name@),
{
    let cs = chars_of(name);
    let suffix = chars_of(".pmtiles");
    proof {
        reveal_strlit(".pmtiles");
    }
    cs.len() > 8 && ends_with(&cs, &suffix)
}

/// A file found in the exports or region-cache directory: its name and its
/// full path as the job rows record it.
pub struct DirFile {
    pub name: String,
    pub path: String,
}

/// An archive on disk that no done job owns.
pub open spec fn is_orphan(f: DirFile, known: Seq<Seq<char>>) -> bool {
    is_archive_name(f.name@) && !known.contains(f.path@)
}

/// Indices of the orphaned archives among `files`, in order.
pub open spec fn orphan_indices(files: Seq<DirFile>, known: Seq<Seq<char>>) -> Seq<int>
    decreases files.len(),
{
    if files.len() == 0 {
        Seq::<int>::empty()
    } else {
        let prev = orphan_indices(files.drop_last(), known);
        if is_orphan(files.last(), known) {
            prev.push(files.len() - 1)
        } else {
            prev
        }
    }
}

fn contains_path(known: &Vec<String>, path: &str) -> (r: bool)
    ensures
        r == known@.map_values(|p: String| p@).contains(path@),
{
    let ghost ks = known@.map_values(|p: String| p@);
    for k in 0..known.len()
        invariant
            ks == known@.map_values(|p: String| p@),
            forall|j: int| 0 <= j < k ==> ks[j] != path@,
    {
        if str_eq(known[k].as_str(), path) {
            proof {
                assert(ks[k as int] == path@);
            }
            return true;
        }
    }
    false
}

/// The archives in `files` that no known path accounts for: these are
/// removed from disk.
pub fn find_orphans(files: &Vec<DirFile>, known: &Vec<String>) -> (r: Vec<usize>)
    ensures
        r@.map_values(|j: usize| j as int) == orphan_indices(
            files@,
            known@.map_values(|p: String| p@),
        ),
{
    let ghost ks = known@.map_values(|p: String| p@);
    let mut out: Vec<usize> = Vec::new();
    let n = files.len();
    for i in 0..n
        invariant
            n == files@.len(),
            ks == known@.map_values(|p: String| p@),
            out@.map_values(|j: usize| j as int) == orphan_indices(files@.take(i as int), ks),
    {
        proof {
            assert(files@.take(i + 1).drop_last() =~= files@.take(i as int));
        }
        let ghost before = out@.map_values(|j: usize| j as int);
        let f = &files[i];
        if is_archive_file_name(f.name.as_str()) && !contains_path(known, f.path.as_str()) {
            out.push(i);
            proof {
                assert(out@.map_values(|j: usize| j as int) =~= before.push(i as int));
            }
        }
    }
    proof {
        assert(files@.take(n as int) =~= files@);
    }
    out
}

/// Every orphaned archive is found, not only the first: an index is listed
/// exactly when its file name ends in `.pmtiles` (with a stem before it) and
/// its path is not among the known paths; indices are listed once each, in
/// ascending order.
pub proof fn lemma_orphans_exact(files: Seq<DirFile>, known: Seq<Seq<char>>)
    ensures
        forall|i: int| 0 <= i < files.len() ==> (#[trigger] orphan_indices(files, known).contains(i) <==> ({
            let name = files[i].name@;
            &&& name.len() > 8
            &&& name.subrange(name.len() - 8, name.len() as int) == ".pmtiles"@
            &&& !known.contains(files[i].path@)
        })),
        forall|k: int| 0 <= k < orphan_indices(files, known).len() ==> 0 <= #[trigger] orphan_indices(files, known)[k] < files.len(),
        forall|k1: int, k2: int| 0 <= k1 < k2 < orphan_indices(files, known).len() ==> orphan_indices(files, known)[k1]
            < orphan_indices(files, known)[k2],
    decreases files.len(),
{
    if files.len() > 0 {
        let prev = files.drop_last();
        lemma_orphans_exact(prev, known);
        let o = orphan_indices(files, known);
        let op = orphan_indices(prev, known);
        if is_orphan(files.last(), known) {
            assert(o == op.push(files.len() - 1));
        } else {
            assert(o == op);
        }
        assert forall|k: int| 0 <= k < o.len() implies 0 <= #[trigger] o[k] < files.len() by {
            if k < op.len() {
                assert(o[k] == op[k]);
            }
        }
        assert forall|k1: int, k2: int| 0 <= k1 < k2 < o.len() implies o[k1] < o[k2] by {
            if k2 < op.len() {
                assert(o[k1] == op[k1] && o[k2] == op[k2]);
            } else {
                assert(o[k1] == op[k1]);
            }
        }
        assert forall|i: int| 0 <= i < files.len() implies (#[trigger] o.contains(i) <==> ({
            let name = files[i].name@;
            &&& name.len() > 8
            &&& name.subrange(name.len() - 8, name.len() as int) == ".pmtiles"@
            &&& !known.contains(files[i].path@)
        })) by {
            if i < files.len() - 1 {
                assert(prev[i] == files[i]);
                if o.contains(i) {
                    let k = choose|k: int| 0 <= k < o.len() && o[k] == i;
                    if k < op.len() {
                        assert(op[k] == i);
                    }
                    assert(op.contains(i));
                }
                if op.contains(i) {
                    let k = choose|k: int| 0 <= k < op.len() && op[k] == i;
                    assert(o[k] == i);
                }
            } else {
                if is_orphan(files.last(), known) {
                    assert(o[o.len() - 1] == i);
                } else if o.contains(i) {
                    let k = choose|k: int| 0 <= k < o.len() && o[k] == i;
                    assert(0 <= op[k] < prev.len());
                }
            }
        }
    }
}

/// The known paths are exactly the recorded paths of the done jobs whose
/// file is still on disk: no other path protects an archive from removal.
pub proof fn lemma_known_paths_exact(done: Seq<DoneFile>, p: Seq<char>)
    ensures
        known_paths(done).contains(p) <==> exists|j: int|
            0 <= j < done.len() && (#[trigger] done[j]).file_path is Some && done[j].file_path->0@ == p && done[j].exists,
    decreases done.len(),
{
    if done.len() > 0 {
        let prev = done.drop_last();
        lemma_known_paths_exact(prev, p);
        let kn = known_paths(done);
        let kp = known_paths(prev);
        if kn.contains(p) {
            let k = choose|k: int| 0 <= k < kn.len() && kn[k] == p;
            if k < kp.len() && kn[k] == kp[k] {
                assert(kp.contains(p));
                let j = choose|j: int|
                    0 <= j < prev.len() && (#[trigger] prev[j]).file_path is Some && prev[j].file_path->0@ == p && prev[j].exists;
                assert(done[j] == prev[j]);
            } else {
                if keeps_file(done.last()) {
                    if k < kp.len() {
                        assert(kn[k] == kp[k]);
                    }
                    assert(done[done.len() - 1] == done.last());
                } else {
                    assert(kn == kp);
                }
            }
        }
        if exists|j: int|
            0 <= j < done.len() && (#[trigger] done[j]).file_path is Some && done[j].file_path->0@ == p && done[j].exists {
            let j = choose|j: int|
                0 <= j < done.len() && (#[trigger] done[j]).file_path is Some && done[j].file_path->0@ == p && done[j].exists;
            if j < done.len() - 1 {
                assert(prev[j] == done[j]);
                assert(kp.contains(p));
                let k = choose|k: int| 0 <= k < kp.len() && kp[k] == p;
                if keeps_file(done.last()) {
                    assert(kn[k] == kp[k]);
                } else {
                    assert(kn == kp);
                }
            } else {
                assert(kn[kn.len() - 1] == p);
            }
        }
    }
}

/// The cache size left after evicting the candidates `idx`, in order,
/// from a cache of `cache` bytes (a candidate without a file frees nothing).
pub open spec fn left_after(cache: nat, sizes: Seq<Option<u64>>, idx: Seq<int>) -> nat
    decreases idx.len(),
{
    if idx.len() == 0 {
        cache
    } else {
        let freed: nat = match sizes[idx[0]] {
            Some(sz) => sz as nat,
            None => 0,
        };
        left_after(if cache >= freed { (cache - freed) as nat } else { 0 }, sizes, idx.drop_first())
    }
}

proof fn lemma_eviction_from_minimal(cache: nat, budget: nat, sizes: Seq<Option<u64>>, i: int)
    requires
        0 <= i,
    ensures
        ({
            let (plan, left) = eviction_from(cache, budget, sizes, i);
            &&& left == left_after(cache, sizes, plan)
            &&& forall|k: int| 0 <= k < plan.len() ==> left_after(cache, sizes, #[trigger] plan.take(k)) > budget
        }),
    decreases sizes.len() - i,
{
    if i >= sizes.len() || cache <= budget {
    } else {
        match sizes[i] {
            None => {
                lemma_eviction_from_minimal(cache, budget, sizes, i + 1);
            },
            Some(sz) => {
                let c2 = sat_sub(cache, sz as nat);
                lemma_eviction_from_minimal(c2, budget, sizes, i + 1);
                let rest = eviction_from(c2, budget, sizes, i + 1);
                let plan = seq![i] + rest.0;
                assert(plan.drop_first() =~= rest.0);
                assert forall|k: int| 0 <= k < plan.len() implies left_after(cache, sizes, #[trigger] plan.take(k))
                    > budget by {
                    if k > 0 {
                        assert(plan.take(k).drop_first() =~= rest.0.take(k - 1));
                        assert(rest.0.take(k - 1) == rest.0.take(k - 1));
                    } else {
                        assert(plan.take(0).len() == 0);
                    }
                }
            },
        }
    }
}

/// The eviction plan never evicts more than needed: each candidate is
/// evicted only while the cache, after the evictions before it, is still
/// over budget; and the size left is the cache minus what the evicted
/// archives free.
pub proof fn lemma_eviction_minimal(cache: nat, budget: nat, sizes: Seq<Option<u64>>)
    ensures
        ({
            let (plan, left) = eviction_plan(cache, budget, sizes);
            &&& left == left_after(cache, sizes, plan)
            &&& forall|k: int| 0 <= k < plan.len() ==> left_after(cache, sizes, #[trigger] plan.take(k)) > budget
        }),
{
    lemma_eviction_from_minimal(cache, budget, sizes, 0);
}

} // verus!
