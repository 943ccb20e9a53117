//! The multi-root aggregator. Resolution runs independently over each
//! starting path; a root whose resolution fails is dropped, since one
//! misconfigured root must not prevent discovery on the others. All
//! surviving manifests are merged with duplicates collapsed and returned
//! sorted by the manifest total order, so the result is independent of input
//! order, of directory-iteration order, and of which root discovered a
//! shared manifest.
use vstd::prelude::*;

use crate::manifest::{
    lemma_manifest_cmp_eq, lemma_manifest_cmp_flip, lemma_manifest_cmp_refl,
    lemma_manifest_cmp_trans, manifest_cmp, manifest_cmp_exec, ManifestView, ProjectManifest,
};
use crate::resolve::{discover_spec, manifest_views, DiscoverInput, DiscoverInputView};

verus! {

/// The sequence is sorted by the manifest order, duplicates allowed.
pub open spec fn sorted_le(s: Seq<ManifestView>) -> bool {
    forall|i: int, j: int| 0 <= i < j < s.len() ==> manifest_cmp(s[i], s[j]) <= 0
}

/// The sequence is strictly sorted by the manifest order: sorted and free of
/// duplicates.
pub open spec fn sorted_strict(s: Seq<ManifestView>) -> bool {
    forall|i: int, j: int| 0 <= i < j < s.len() ==> manifest_cmp(s[i], s[j]) < 0
}

/// Resolution of the root described by `iv` succeeds and yields the
/// manifest `m` among its results.
pub open spec fn root_yields(iv: DiscoverInputView, m: ManifestView) -> bool {
    match discover_spec(iv) {
        Ok(s) => s.contains(m),
        Err(_) => false,
    }
}

/// Inserts a manifest into a sorted vector, keeping it sorted; the elements
/// afterwards are the elements before plus the inserted one.
fn insert_sorted(v: &mut Vec<ProjectManifest>, m: ProjectManifest)
    requires
        sorted_le(manifest_views(old(v)@)),
    ensures
        sorted_le(manifest_views(final(v)@)),
        forall|x: ManifestView|
            manifest_views(final(v)@).contains(x) <==> manifest_views(old(v)@).contains(x) || x
                == m@,
{
    let n = v.len();
    let mut pos: usize = 0;
    while pos < n && manifest_cmp_exec(&v[pos], &m) < 0
        invariant
            0 <= pos <= n,
            n == v@.len(),
            v@ == old(v)@,
            forall|j: int| 0 <= j < pos ==> manifest_cmp(manifest_views(v@)[j], m@) < 0,
        decreases n - pos,
    {
        pos += 1;
    }
    let ghost w0 = manifest_views(v@);
    v.insert(pos, m);
    proof {
        let w = manifest_views(v@);
        assert(v@ == old(v)@.insert(pos as int, m));
        old(v)@.insert_ensures(pos as int, m);
        assert(w.len() == w0.len() + 1);
        assert forall|i: int| 0 <= i < pos implies w[i] == w0[i] by {
            assert(v@[i] == old(v)@[i]);
        }
        assert(w[pos as int] == m@);
        assert forall|i: int| pos <= i < w0.len() implies w[i + 1] == w0[i] by {
            assert(v@[i + 1] == old(v)@[i]);
        }
        // Sortedness of the result.
        assert forall|i: int, j: int| 0 <= i < j < w.len() implies manifest_cmp(w[i], w[j])
            <= 0 by {
            if i < pos && j < pos {
            } else if j == pos {
                assert(w[i] == w0[i] && manifest_cmp(w0[i], m@) < 0);
            } else if i < pos && j > pos {
                if i == j - 1 {
                } else {
                    assert(w[j] == w0[j - 1]);
                }
            } else if i == pos && j > pos {
                // m compares at or below the element it displaced, which
                // compares at or below everything after it.
                assert(w[j] == w0[j - 1]);
                assert(manifest_cmp(w0[pos as int], m@) >= 0);
                lemma_manifest_cmp_flip(w0[pos as int], m@);
                if j - 1 > pos {
                    assert(manifest_cmp(w0[pos as int], w0[j - 1]) <= 0);
                    lemma_manifest_cmp_trans(m@, w0[pos as int], w0[j - 1]);
                }
            } else {
                assert(w[i] == w0[i - 1] && w[j] == w0[j - 1]);
            }
        }
        // Membership in the result.
        assert forall|x: ManifestView| w.contains(x) implies w0.contains(x) || x == m@ by {
            let k = choose|k: int| 0 <= k < w.len() && w[k] == x;
            if k < pos {
                assert(w0[k] == x);
            } else if k > pos {
                assert(w0[k - 1] == x);
            }
        }
        assert forall|x: ManifestView| w0.contains(x) || x == m@ implies w.contains(x) by {
            if x == m@ {
                assert(w[pos as int] == x);
            } else {
                let k = choose|k: int| 0 <= k < w0.len() && w0[k] == x;
                if k < pos {
                    assert(w[k] == x);
                } else {
                    assert(w[k + 1] == x);
                }
            }
        }
    }
}

/// Collapses duplicates in a sorted vector: the result is strictly sorted
/// and holds the same set of elements.
fn dedup_sorted(v: &Vec<ProjectManifest>) -> (r: Vec<ProjectManifest>)
    requires
        sorted_le(manifest_views(v@)),
    ensures
        sorted_strict(manifest_views(r@)),
        forall|x: ManifestView|
            manifest_views(r@).contains(x) <==> manifest_views(v@).contains(x),
{
    let mut r: Vec<ProjectManifest> = Vec::new();
    let mut i: usize = 0;
    while i < v.len()
        invariant
            0 <= i <= v@.len(),
            sorted_le(manifest_views(v@)),
            sorted_strict(manifest_views(r@)),
            i > 0 ==> r@.len() > 0 && manifest_views(r@).last() == manifest_views(v@)[i - 1],
            i == 0 ==> r@.len() == 0,
            forall|x: ManifestView|
                manifest_views(r@).contains(x) <==> manifest_views(v@).take(i as int).contains(x),
        decreases v@.len() - i,
    {
        let ghost w = manifest_views(v@);
        let ghost rw0 = manifest_views(r@);
        let mut push_it = false;
        if r.len() == 0 {
            push_it = true;
        } else {
            let c = manifest_cmp_exec(&r[r.len() - 1], &v[i]);
            if c < 0 {
                push_it = true;
            } else {
                proof {
                    // Sorted input: the previous element compares at or
                    // below this one, so a non-strict comparison is a tie,
                    // and a tie is equality.
                    assert(manifest_cmp(w[i - 1], w[i as int]) <= 0);
                    assert(manifest_cmp(rw0.last(), w[i as int]) >= 0);
                    lemma_manifest_cmp_eq(rw0.last(), w[i as int]);
                    assert(rw0.contains(w[i as int]));
                }
            }
        }
        if push_it {
            let ghost rl0 = r@.len() as int;
            r.push(v[i].duplicate());
            proof {
                let rw = manifest_views(r@);
                assert(rw.len() == rw0.len() + 1);
                assert forall|j: int| 0 <= j < rw0.len() implies rw[j] == rw0[j] by {
                    assert(r@[j] == r@.subrange(0, rl0)[j]);
                }
                assert(rw.last() == w[i as int]);
                // Strict sortedness: everything already kept compares
                // strictly below the element just pushed.
                assert forall|j: int| 0 <= j < rw0.len() implies manifest_cmp(
                    rw[j],
                    rw.last(),
                ) < 0 by {
                    if rw0.len() > 0 {
                        if j < rw0.len() - 1 {
                            assert(manifest_cmp(rw0[j], rw0.last()) < 0);
                            lemma_manifest_cmp_trans(rw0[j], rw0.last(), w[i as int]);
                        }
                    }
                }
                assert(sorted_strict(rw));
                assert forall|x: ManifestView| rw.contains(x) implies w.take(i + 1).contains(
                    x,
                ) by {
                    let k = choose|k: int| 0 <= k < rw.len() && rw[k] == x;
                    if k < rw0.len() {
                        assert(rw0.contains(x));
                        let wt0 = w.take(i as int);
                        let k2 = choose|k2: int| 0 <= k2 < wt0.len() && wt0[k2] == x;
                        assert(w.take(i + 1)[k2] == x);
                    } else {
                        assert(w.take(i + 1)[i as int] == x);
                    }
                }
                assert forall|x: ManifestView| w.take(i + 1).contains(x) implies rw.contains(
                    x,
                ) by {
                    let wt = w.take(i + 1);
                    let k = choose|k: int| 0 <= k < wt.len() && wt[k] == x;
                    if k < i {
                        assert(w.take(i as int)[k] == x);
                        assert(rw0.contains(x));
                        let k2 = choose|k2: int| 0 <= k2 < rw0.len() && rw0[k2] == x;
                        assert(rw[k2] == x);
                    } else {
                        assert(rw.last() == x);
                        assert(rw.contains(x));
                    }
                }
            }
        } else {
            proof {
                let rw = manifest_views(r@);
                assert(rw == rw0);
                assert(rw0.contains(w[i as int]));
                assert forall|x: ManifestView| w.take(i + 1).contains(x) implies rw.contains(
                    x,
                ) by {
                    let wt = w.take(i + 1);
                    let k = choose|k: int| 0 <= k < wt.len() && wt[k] == x;
                    if k < i {
                        assert(w.take(i as int)[k] == x);
                    }
                }
                assert forall|x: ManifestView| rw.contains(x) implies w.take(i + 1).contains(
                    x,
                ) by {
                    let wt = w.take(i as int);
                    let k = choose|k: int| 0 <= k < wt.len() && wt[k] == x;
                    assert(w.take(i + 1)[k] == x);
                }
            }
        }
        i += 1;
    }
    proof {
        assert(manifest_views(v@).take(v@.len() as int) =~= manifest_views(v@));
    }
    r
}

impl ProjectManifest {
    /// Resolves each starting path independently, drops the roots whose
    /// resolution failed, merges all surviving manifests with duplicates
    /// collapsed, and returns them sorted by the manifest total order. The
    /// result is a function of the set of per-root findings alone: it does
    /// not depend on the order of the starting paths nor on the order
    /// within each root's results.
    pub fn discover_all(inputs: &Vec<DiscoverInput>) -> (r: Vec<ProjectManifest>)
        requires
            forall|i: int| 0 <= i < inputs@.len() ==> (#[trigger] inputs@[i])@.wf(),
        ensures
            sorted_strict(manifest_views(r@)),
            forall|x: ManifestView|
                manifest_views(r@).contains(x) <==> exists|i: int|
                    0 <= i < inputs@.len() && root_yields(#[trigger] inputs@[i]@, x),
    {
        let mut acc: Vec<ProjectManifest> = Vec::new();
        let mut i: usize = 0;
        while i < inputs.len()
            invariant
                0 <= i <= inputs@.len(),
                forall|k: int| 0 <= k < inputs@.len() ==> (#[trigger] inputs@[k])@.wf(),
                sorted_le(manifest_views(acc@)),
                forall|x: ManifestView|
                    manifest_views(acc@).contains(x) <==> exists|k: int|
                        0 <= k < i && root_yields(#[trigger] inputs@[k]@, x),
            decreases inputs@.len() - i,
        {
            match ProjectManifest::discover(&inputs[i]) {
                Err(_) => {
                    proof {
                        assert forall|x: ManifestView|
                            manifest_views(acc@).contains(x) <==> exists|k: int|
                                0 <= k < i + 1 && root_yields(#[trigger] inputs@[k]@, x) by {
                            assert(!root_yields(inputs@[i as int]@, x));
                        }
                    }
                },
                Ok(mut found) => {
                    let ghost fw = manifest_views(found@);
                    let mut j: usize = 0;
                    let flen = found.len();
                    while j < flen
                        invariant
                            0 <= j <= flen,
                            flen == found@.len() + j,
                            0 <= i < inputs@.len(),
                            forall|k: int| 0 <= k < inputs@.len() ==> (#[trigger] inputs@[k])@.wf(),
                            manifest_views(found@) =~= fw.take(fw.len() - j),
                            fw.len() == flen,
                            discover_spec(inputs@[i as int]@) == Ok::<_, Seq<char>>(fw),
                            sorted_le(manifest_views(acc@)),
                            forall|x: ManifestView|
                                manifest_views(acc@).contains(x) <==> (exists|k: int|
                                    0 <= k < i && root_yields(#[trigger] inputs@[k]@, x))
                                    || fw.skip(fw.len() - j).contains(x),
                        decreases flen - j,
                    {
                        let ghost before = manifest_views(found@);
                        let m = found.pop().unwrap();
                        proof {
                            assert(m@ == before.last());
                            assert(manifest_views(found@) =~= before.drop_last());
                            assert(before.drop_last() =~= fw.take(fw.len() - (j + 1)));
                        }
                        insert_sorted(&mut acc, m);
                        proof {
                            assert forall|x: ManifestView|
                                manifest_views(acc@).contains(x) <==> (exists|k: int|
                                    0 <= k < i && root_yields(#[trigger] inputs@[k]@, x))
                                    || fw.skip(fw.len() - (j + 1)).contains(x) by {
                                let lo = fw.len() - (j + 1);
                                assert(fw.skip(lo)[0] == fw[lo]);
                                assert(m@ == fw[lo]);
                                let hi = fw.skip(lo);
                                let lo1 = fw.skip(lo + 1);
                                if lo1.contains(x) {
                                    let k = choose|k: int| 0 <= k < lo1.len() && lo1[k] == x;
                                    assert(hi[k + 1] == x);
                                }
                                if hi.contains(x) {
                                    let k = choose|k: int| 0 <= k < hi.len() && hi[k] == x;
                                    if k > 0 {
                                        assert(lo1[k - 1] == x);
                                    }
                                }
                            }
                        }
                        j += 1;
                    }
                    proof {
                        assert forall|x: ManifestView|
                            manifest_views(acc@).contains(x) <==> exists|k: int|
                                0 <= k < i + 1 && root_yields(#[trigger] inputs@[k]@, x) by {
                            assert(fw.skip(0) =~= fw);
                            assert(root_yields(inputs@[i as int]@, x) == fw.contains(x));
                            if manifest_views(acc@).contains(x) {
                                if exists|k: int| 0 <= k < i && root_yields(
                                    #[trigger] inputs@[k]@,
                                    x,
                                ) {
                                } else {
                                    assert(root_yields(inputs@[i as int]@, x));
                                }
                            }
                        }
                    }
                },
            }
            i += 1;
        }
        let r = dedup_sorted(&acc);
        r
    }
}

/// Two strictly sorted sequences holding the same elements are identical.
pub proof fn lemma_sorted_unique(r1: Seq<ManifestView>, r2: Seq<ManifestView>)
    requires
        sorted_strict(r1),
        sorted_strict(r2),
        forall|x: ManifestView| r1.contains(x) <==> r2.contains(x),
    ensures
        r1 == r2,
    decreases r1.len(),
{
    if r1.len() == 0 {
        if r2.len() > 0 {
            assert(r2.contains(r2[0]));
            assert(false);
        }
        assert(r1 =~= r2);
    } else if r2.len() == 0 {
        assert(r1.contains(r1[0]));
        assert(false);
    } else {
        // Both heads are the least element of the common set, so they are
        // equal.
        assert(r1.contains(r1[0]));
        assert(r2.contains(r2[0]));
        let k1 = choose|k: int| 0 <= k < r2.len() && r2[k] == r1[0];
        let k2 = choose|k: int| 0 <= k < r1.len() && r1[k] == r2[0];
        if k1 > 0 {
            assert(manifest_cmp(r2[0], r2[k1]) < 0);
        } else {
            lemma_manifest_cmp_refl(r1[0]);
        }
        if k2 > 0 {
            assert(manifest_cmp(r1[0], r1[k2]) < 0);
        } else {
            lemma_manifest_cmp_refl(r2[0]);
        }
        lemma_manifest_cmp_flip(r1[0], r2[0]);
        lemma_manifest_cmp_eq(r1[0], r2[0]);
        // The tails hold the common set minus the head, and stay strictly
        // sorted.
        let t1 = r1.drop_first();
        let t2 = r2.drop_first();
        assert forall|x: ManifestView| t1.contains(x) implies t2.contains(x) by {
            lemma_tail_membership(r1, x);
            lemma_tail_membership(r2, x);
        }
        assert forall|x: ManifestView| t2.contains(x) implies t1.contains(x) by {
            lemma_tail_membership(r1, x);
            lemma_tail_membership(r2, x);
        }
        lemma_sorted_unique(t1, t2);
        assert(r1.len() == r2.len());
        assert forall|k: int| 0 <= k < r1.len() implies r1[k] == r2[k] by {
            if k > 0 {
                assert(r1[k] == t1[k - 1]);
                assert(r2[k] == t2[k - 1]);
            }
        }
        assert(r1 =~= r2);
    }
}

/// In a strictly sorted, non-empty sequence, the tail holds exactly the
/// elements other than the head.
proof fn lemma_tail_membership(s: Seq<ManifestView>, x: ManifestView)
    requires
        sorted_strict(s),
        s.len() > 0,
    ensures
        s.drop_first().contains(x) <==> s.contains(x) && x != s[0],
{
    let t = s.drop_first();
    if t.contains(x) {
        let k = choose|k: int| 0 <= k < t.len() && t[k] == x;
        assert(s[k + 1] == x);
        assert(manifest_cmp(s[0], s[k + 1]) < 0);
        if x == s[0] {
            lemma_manifest_cmp_refl(s[0]);
            assert(false);
        }
    }
    if s.contains(x) && x != s[0] {
        let k = choose|k: int| 0 <= k < s.len() && s[k] == x;
        assert(k > 0);
        assert(t[k - 1] == x);
    }
}

/// Aggregator determinism: whatever order the same collection of starting
/// paths is presented in — duplicate and overlapping roots included — any
/// two result sequences that are strictly sorted and hold exactly the
/// manifests the roots yield are identical, and hold no duplicates.
pub proof fn lemma_aggregator_deterministic(
    xs: Seq<DiscoverInputView>,
    ys: Seq<DiscoverInputView>,
    r1: Seq<ManifestView>,
    r2: Seq<ManifestView>,
)
    requires
        xs.to_multiset() == ys.to_multiset(),
        sorted_strict(r1),
        sorted_strict(r2),
        forall|x: ManifestView|
            r1.contains(x) <==> exists|i: int| 0 <= i < xs.len() && root_yields(
                #[trigger] xs[i],
                x,
            ),
        forall|x: ManifestView|
            r2.contains(x) <==> exists|i: int| 0 <= i < ys.len() && root_yields(
                #[trigger] ys[i],
                x,
            ),
    ensures
        r1 == r2,
        forall|i: int, j: int| 0 <= i < j < r1.len() ==> r1[i] != r1[j],
{
    xs.to_multiset_ensures();
    ys.to_multiset_ensures();
    assert forall|x: ManifestView| r1.contains(x) implies r2.contains(x) by {
        let i = choose|i: int| 0 <= i < xs.len() && root_yields(#[trigger] xs[i], x);
        assert(xs.contains(xs[i]));
        assert(ys.to_multiset().count(xs[i]) > 0);
        assert(ys.contains(xs[i]));
        let j = choose|j: int| 0 <= j < ys.len() && ys[j] == xs[i];
        assert(root_yields(ys[j], x));
    }
    assert forall|x: ManifestView| r2.contains(x) implies r1.contains(x) by {
        let i = choose|i: int| 0 <= i < ys.len() && root_yields(#[trigger] ys[i], x);
        assert(ys.contains(ys[i]));
        assert(xs.to_multiset().count(ys[i]) > 0);
        assert(xs.contains(ys[i]));
        let j = choose|j: int| 0 <= j < xs.len() && xs[j] == ys[i];
        assert(root_yields(xs[j], x));
    }
    lemma_sorted_unique(r1, r2);
    assert forall|i: int, j: int| 0 <= i < j < r1.len() implies r1[i] != r1[j] by {
        if r1[i] == r1[j] {
            lemma_manifest_cmp_refl(r1[i]);
        }
    }
}

} // verus!
