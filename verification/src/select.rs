//! Candidate enumeration for one scan: out of the filesystem entries found
//! under the base path, keep the regular files that pass the extension
//! filter, drop everything at or below the resume cursor, and order what is
//! left lexicographically, so that every run processes the same remaining
//! files in the same order.

use vstd::prelude::*;

verus! {

use vstd::seq_lib::group_to_multiset_ensures;
use vstd::multiset::Multiset;
use crate::order::{path_le, path_lt, lemma_path_le_trans, lemma_path_not_lt};
use crate::paths::{spec_is_audio_path, is_audio_path};

/// One filesystem entry as the directory walk reports it.
#[derive(Clone, Debug)]
pub struct FsEntry {
    pub path: String,
    pub is_file: bool,
}

/// Is this entry a candidate: a regular file that passes the extension
/// filter?
pub open spec fn candidate_pred(e: FsEntry) -> bool {
    e.is_file && spec_is_audio_path(e.path@)
}

/// The candidate paths among some entries, in the order given.
pub open spec fn candidate_paths(s: Seq<FsEntry>) -> Seq<Seq<char>> {
    s.filter(|e: FsEntry| candidate_pred(e)).map_values(|e: FsEntry| e.path@)
}

/// Is a path in scope for this scan: past the resume cursor, if one is set?
pub open spec fn in_scope(resume: Option<Seq<char>>, p: Seq<char>) -> bool {
    match resume {
        Option::None => true,
        Option::Some(b) => path_lt(b, p),
    }
}

/// The paths one scan must process: the candidates past the resume cursor,
/// in the order the entries were given (not yet sorted).
pub open spec fn selected_paths(s: Seq<FsEntry>, resume: Option<Seq<char>>) -> Seq<Seq<char>> {
    candidate_paths(s).filter(|p: Seq<char>| in_scope(resume, p))
}

/// Sorted in the byte-lexicographic path order.
pub open spec fn paths_sorted(s: Seq<Seq<char>>) -> bool {
    forall|i: int, j: int| 0 <= i < j < s.len() ==> path_le(s[i], s[j])
}

/// Keeps the paths of the entries that are candidate audio files.
fn filter_candidates(entries: &Vec<FsEntry>) -> (r: Vec<String>)
    ensures
        r.deep_view() == candidate_paths(entries@),
{
    let mut r: Vec<String> = Vec::new();
    let mut i: usize = 0;
    while i < entries.len()
        invariant
            i <= entries@.len(),
            r.deep_view() == candidate_paths(entries@.take(i as int)),
        decreases entries@.len() - i,
    {
        let ghost old_dv = r.deep_view();
        let e = &entries[i];
        if e.is_file && is_audio_path(e.path.as_str()) {
            r.push(e.path.clone());
        }
        proof {
            reveal(Seq::filter);
            let pre = entries@.take(i as int);
            let cur = entries@.take(i + 1);
            let f = |e: FsEntry| candidate_pred(e);
            assert(cur.drop_last() =~= pre);
            assert(cur.last() == entries@[i as int]);
            if candidate_pred(entries@[i as int]) {
                assert(cur.filter(f) == pre.filter(f).push(entries@[i as int]));
                assert(r.deep_view() =~= old_dv.push(entries@[i as int].path@));
                assert(candidate_paths(cur) =~= old_dv.push(entries@[i as int].path@));
            } else {
                assert(cur.filter(f) == pre.filter(f));
                assert(candidate_paths(cur) =~= candidate_paths(pre));
            }
        }
        i += 1;
    }
    proof {
        assert(entries@.take(entries@.len() as int) =~= entries@);
    }
    r
}

/// Keeps the paths that lie past the resume cursor.
fn scope_filter(v: Vec<String>, resume: &Option<String>) -> (r: Vec<String>)
    ensures
        r.deep_view() == v.deep_view().filter(
            |p: Seq<char>| in_scope(resume.deep_view(), p),
        ),
{
    let ghost pred = |p: Seq<char>| in_scope(resume.deep_view(), p);
    let mut r: Vec<String> = Vec::new();
    let mut i: usize = 0;
    while i < v.len()
        invariant
            i <= v@.len(),
            r.deep_view() == v.deep_view().take(i as int).filter(pred),
            pred == (|p: Seq<char>| in_scope(resume.deep_view(), p)),
        decreases v@.len() - i,
    {
        let keep = match resume {
            Option::Some(b) => crate::order::str_lt(b.as_str(), v[i].as_str()),
            Option::None => true,
        };
        if keep {
            r.push(v[i].clone());
        }
        proof {
            reveal(Seq::filter);
            assert(v.deep_view().take(i + 1).drop_last() =~= v.deep_view().take(i as int));
            assert(v.deep_view().take(i + 1).last() == v@[i as int]@);
            assert(keep == pred(v@[i as int]@));
            assert(r.deep_view() =~= v.deep_view().take(i + 1).filter(pred));
        }
        i += 1;
    }
    proof {
        assert(v.deep_view().take(v@.len() as int) =~= v.deep_view());
    }
    r
}

/// The index of a least path in a non-empty list.
fn index_of_min(v: &Vec<String>) -> (m: usize)
    requires
        v@.len() > 0,
    ensures
        m < v@.len(),
        forall|k: int| 0 <= k < v@.len() ==> path_le(v.deep_view()[m as int], v.deep_view()[k]),
{
    let mut m: usize = 0;
    let mut k: usize = 1;
    proof {
        crate::order::lemma_path_le_refl(v.deep_view()[0]);
    }
    while k < v.len()
        invariant
            m < k <= v@.len(),
            forall|t: int| 0 <= t < k ==> path_le(v.deep_view()[m as int], v.deep_view()[t]),
        decreases v@.len() - k,
    {
        if crate::order::str_lt(v[k].as_str(), v[m].as_str()) {
            proof {
                assert forall|t: int| 0 <= t <= k implies path_le(
                    v.deep_view()[k as int],
                    v.deep_view()[t],
                ) by {
                    if t < k {
                        lemma_path_le_trans(
                            v.deep_view()[k as int],
                            v.deep_view()[m as int],
                            v.deep_view()[t],
                        );
                    } else {
                        crate::order::lemma_path_le_refl(v.deep_view()[k as int]);
                    }
                }
            }
            m = k;
        } else {
            proof {
                lemma_path_not_lt(v.deep_view()[k as int], v.deep_view()[m as int]);
            }
        }
        k += 1;
    }
    m
}

/// Sorts paths into the byte-lexicographic order, keeping exactly the same
/// paths with their multiplicities.
fn sort_paths(v: Vec<String>) -> (r: Vec<String>)
    ensures
        paths_sorted(r.deep_view()),
        r.deep_view().to_multiset() == v.deep_view().to_multiset(),
{
    let ghost whole = v.deep_view();
    let mut rest = v;
    let mut out: Vec<String> = Vec::new();
    proof {
        broadcast use group_to_multiset_ensures;

        lemma_empty_multiset(out.deep_view());
        assert(out.deep_view().to_multiset().add(rest.deep_view().to_multiset()) =~= whole.to_multiset());
    }
    while rest.len() > 0
        invariant
            paths_sorted(out.deep_view()),
            out.deep_view().to_multiset().add(rest.deep_view().to_multiset())
                == whole.to_multiset(),
            forall|i: int, k: int|
                0 <= i < out@.len() && 0 <= k < rest@.len() ==> path_le(
                    out.deep_view()[i],
                    rest.deep_view()[k],
                ),
        decreases rest@.len(),
    {
        broadcast use group_to_multiset_ensures;

        let m = index_of_min(&rest);
        let ghost old_out = out.deep_view();
        let ghost old_rest = rest.deep_view();
        let s = rest.remove(m);
        out.push(s);
        proof {
            assert(out.deep_view() =~= old_out.push(old_rest[m as int]));
            assert(rest.deep_view() =~= old_rest.remove(m as int));
            assert(out.deep_view().to_multiset().add(rest.deep_view().to_multiset()) =~= whole.to_multiset());
            assert forall|i: int, j: int|
                0 <= i < j < out.deep_view().len() implies path_le(
                out.deep_view()[i],
                out.deep_view()[j],
            ) by {
                if j == out.deep_view().len() - 1 {
                    assert(path_le(old_out[i], old_rest[m as int]));
                }
            }
        }
    }
    proof {
        broadcast use group_to_multiset_ensures;

        lemma_empty_multiset(rest.deep_view());
        assert(out.deep_view().to_multiset() =~= whole.to_multiset());
    }
    out
}

/// A filter whose predicate holds everywhere keeps everything.
proof fn lemma_filter_all_true(s: Seq<Seq<char>>, pred: spec_fn(Seq<char>) -> bool)
    requires
        forall|p: Seq<char>| #[trigger] pred(p),
    ensures
        s.filter(pred) == s,
    decreases s.len(),
{
    reveal(Seq::filter);
    if s.len() > 0 {
        lemma_filter_all_true(s.drop_last(), pred);
        assert(s.filter(pred) =~= s);
    }
}

/// With no resume cursor, every candidate is in scope: a scan that starts
/// with a cleared checkpoint — as every completed scan leaves it — sets
/// out to process the full candidate list again.
pub proof fn lemma_fresh_scan_selects_all(s: Seq<FsEntry>)
    ensures
        selected_paths(s, Option::None) == candidate_paths(s),
{
    lemma_filter_all_true(
        candidate_paths(s),
        |p: Seq<char>| in_scope(Option::<Seq<char>>::None, p),
    );
}

/// An empty sequence of paths carries the empty multiset.
proof fn lemma_empty_multiset(s: Seq<Seq<char>>)
    requires
        s.len() == 0,
    ensures
        s.to_multiset() == Multiset::<Seq<char>>::empty(),
{
    broadcast use group_to_multiset_ensures;

    assert forall|x: Seq<char>| s.to_multiset().count(x) == 0 by {
        if s.to_multiset().count(x) > 0 {
            assert(s.contains(x));
        }
    }
    assert(s.to_multiset() =~= Multiset::<Seq<char>>::empty());
}

/// Enumerates the paths one scan invocation must process: the regular files
/// under the base path that pass the extension filter and lie strictly past
/// the resume cursor, sorted lexicographically by their UTF-8 bytes.
pub fn select_candidates(entries: &Vec<FsEntry>, resume: &Option<String>) -> (r: Vec<String>)
    ensures
        paths_sorted(r.deep_view()),
        r.deep_view().to_multiset() == selected_paths(entries@, resume.deep_view()).to_multiset(),
        forall|i: int|
            0 <= i < r.deep_view().len() ==> in_scope(resume.deep_view(), #[trigger] r.deep_view()[i]),
{
    let keep = filter_candidates(entries);
    let scoped = scope_filter(keep, resume);
    let sorted = sort_paths(scoped);
    proof {
        broadcast use group_to_multiset_ensures;

        let ghost pred = |p: Seq<char>| in_scope(resume.deep_view(), p);
        assert(scoped.deep_view() == selected_paths(entries@, resume.deep_view()));
        assert forall|i: int| 0 <= i < sorted.deep_view().len() implies in_scope(
            resume.deep_view(),
            #[trigger] sorted.deep_view()[i],
        ) by {
            let p = sorted.deep_view()[i];
            assert(sorted.deep_view().to_multiset().count(p) > 0);
            assert(scoped.deep_view().contains(p));
            let j = choose|j: int| 0 <= j < scoped.deep_view().len() && scoped.deep_view()[j] == p;
            keep.deep_view().lemma_filter_pred(pred, j);
        }
    }
    sorted
}

} // verus!
