//! The order of the tracks of an album: by track number, ties kept in the
//! order they came in.
use vstd::prelude::*;
use crate::metadata::{Track, TrackView, tracks_view};

verus! {

/// `s` with `t` put after the last element whose number is at most `t`'s,
/// looking from the end.
pub open spec fn insert_by_number(s: Seq<TrackView>, t: TrackView) -> Seq<TrackView>
    decreases s.len(),
{
    if s.len() == 0 || s.last().track <= t.track {
        s.push(t)
    } else {
        insert_by_number(s.drop_last(), t).push(s.last())
    }
}

/// The stable sort of `s` by track number, as an insertion sort states it.
pub open spec fn sort_by_number(s: Seq<TrackView>) -> Seq<TrackView>
    decreases s.len(),
{
    if s.len() == 0 {
        s
    } else {
        insert_by_number(sort_by_number(s.drop_last()), s.last())
    }
}

/// Track numbers never go down along `s`.
pub open spec fn is_sorted_by_number(s: Seq<TrackView>) -> bool {
    forall|i: int, j: int| 0 <= i <= j < s.len() ==> s[i].track <= s[j].track
}

/// The tracks of `s` numbered `k`, in their order in `s`.
pub open spec fn numbered(s: Seq<TrackView>, k: u8) -> Seq<TrackView> {
    s.filter(|t: TrackView| t.track == k)
}

/// Inserting at `j` is `insert_by_number` when every element from `j` on has
/// a greater number than `t` and the one before `j`, if any, does not.
proof fn lemma_insert_at(s: Seq<TrackView>, t: TrackView, j: int)
    requires
        0 <= j <= s.len(),
        forall|k: int| j <= k < s.len() ==> s[k].track > t.track,
        j > 0 ==> s[j - 1].track <= t.track,
    ensures
        insert_by_number(s, t) == s.insert(j, t),
    decreases s.len(),
{
    if j == s.len() {
        assert(s.push(t) =~= s.insert(j, t));
    } else {
        lemma_insert_at(s.drop_last(), t, j);
        assert(s.drop_last().insert(j, t).push(s.last()) =~= s.insert(j, t));
    }
}

proof fn lemma_insert_sorted(s: Seq<TrackView>, t: TrackView)
    requires
        is_sorted_by_number(s),
    ensures
        is_sorted_by_number(insert_by_number(s, t)),
        insert_by_number(s, t).len() == s.len() + 1,
        forall|i: int| 0 <= i < insert_by_number(s, t).len() ==>
            #[trigger] insert_by_number(s, t)[i] == t || s.contains(insert_by_number(s, t)[i]),
    decreases s.len(),
{
    if s.len() == 0 || s.last().track <= t.track {
        assert forall|i: int| 0 <= i < s.len() implies #[trigger] s.contains(s[i]) by {}
    } else {
        let u = s.drop_last();
        assert(is_sorted_by_number(u));
        lemma_insert_sorted(u, t);
        let w = insert_by_number(u, t);
        assert forall|i: int| 0 <= i < w.len() implies #[trigger] w[i].track <= s.last().track by {
            if w[i] != t {
                let k = choose|k: int| 0 <= k < u.len() && u[k] == w[i];
                assert(s[k] == u[k]);
            }
        }
        assert forall|i: int| 0 <= i < w.len() && w[i] != t implies #[trigger] s.contains(w[i]) by {
            let k = choose|k: int| 0 <= k < u.len() && u[k] == w[i];
            assert(s[k] == w[i]);
        }
        assert(s.contains(s.last())) by {
            assert(s[s.len() - 1] == s.last());
        }
    }
}

/// A sorted track list comes out of the sort.
pub proof fn lemma_sort_is_sorted(s: Seq<TrackView>)
    ensures
        is_sorted_by_number(sort_by_number(s)),
        sort_by_number(s).len() == s.len(),
    decreases s.len(),
{
    if s.len() > 0 {
        lemma_sort_is_sorted(s.drop_last());
        lemma_insert_sorted(sort_by_number(s.drop_last()), s.last());
    }
}

/// Sorting a list that is already sorted leaves it as it is.
pub proof fn lemma_sort_keeps_sorted(s: Seq<TrackView>)
    requires
        is_sorted_by_number(s),
    ensures
        sort_by_number(s) == s,
    decreases s.len(),
{
    if s.len() > 0 {
        let u = s.drop_last();
        assert(is_sorted_by_number(u));
        lemma_sort_keeps_sorted(u);
        if u.len() > 0 {
            assert(u.last() == s[s.len() - 2]);
        }
        assert(u.push(s.last()) =~= s);
    }
}

/// Sorting twice sorts no further than sorting once.
pub proof fn lemma_sort_idempotent(s: Seq<TrackView>)
    ensures
        sort_by_number(sort_by_number(s)) == sort_by_number(s),
{
    lemma_sort_is_sorted(s);
    lemma_sort_keeps_sorted(sort_by_number(s));
}

proof fn lemma_insert_numbered(s: Seq<TrackView>, t: TrackView, k: u8)
    ensures
        numbered(insert_by_number(s, t), k) == (if t.track == k {
            numbered(s, k).push(t)
        } else {
            numbered(s, k)
        }),
    decreases s.len(),
{
    reveal(Seq::filter);
    if s.len() == 0 || s.last().track <= t.track {
        assert(s.push(t).drop_last() =~= s);
    } else {
        let u = s.drop_last();
        lemma_insert_numbered(u, t, k);
        let w = insert_by_number(u, t);
        assert(w.push(s.last()).drop_last() =~= w);
    }
}

/// The sort is stable: for each number, the tracks with that number keep
/// their relative order.
pub proof fn lemma_sort_is_stable(s: Seq<TrackView>, k: u8)
    ensures
        numbered(sort_by_number(s), k) == numbered(s, k),
    decreases s.len(),
{
    reveal(Seq::filter);
    if s.len() > 0 {
        lemma_sort_is_stable(s.drop_last(), k);
        lemma_insert_numbered(sort_by_number(s.drop_last()), s.last(), k);
    }
}

proof fn lemma_insert_multiset(s: Seq<TrackView>, t: TrackView)
    ensures
        insert_by_number(s, t).to_multiset() =~= s.to_multiset().insert(t),
    decreases s.len(),
{
    broadcast use vstd::seq_lib::group_to_multiset_ensures;

    if s.len() > 0 && s.last().track > t.track {
        let u = s.drop_last();
        lemma_insert_multiset(u, t);
        assert(u.push(s.last()) =~= s);
    }
}

/// The sort keeps every track: it only changes their order.
pub proof fn lemma_sort_is_permutation(s: Seq<TrackView>)
    ensures
        sort_by_number(s).to_multiset() =~= s.to_multiset(),
    decreases s.len(),
{
    broadcast use vstd::seq_lib::group_to_multiset_ensures;

    if s.len() > 0 {
        let u = s.drop_last();
        lemma_sort_is_permutation(u);
        lemma_insert_multiset(sort_by_number(u), s.last());
        assert(u.push(s.last()) =~= s);
    }
}

/// Sorts tracks by number; tracks with the same number keep their order.
pub fn sort_tracks(tracks: Vec<Track>) -> (r: Vec<Track>)
    ensures
        tracks_view(r@) == sort_by_number(tracks_view(tracks@)),
{
    let ghost input = tracks_view(tracks@);
    let total: usize = tracks.len();
    let mut rest = tracks;
    let mut sorted: Vec<Track> = Vec::new();
    let mut i: usize = 0;
    while rest.len() > 0
        invariant
            i + rest@.len() == total,
            total == input.len(),
            tracks_view(rest@) =~= input.subrange(i as int, total as int),
            tracks_view(sorted@) == sort_by_number(input.subrange(0, i as int)),
        decreases rest@.len(),
    {
        let ghost old_rest = rest@;
        assert(tracks_view(old_rest)[0] == input[i as int]);
        let t = rest.remove(0);
        assert(tracks_view(rest@) =~= tracks_view(old_rest).drop_first());
        let mut j: usize = sorted.len();
        while j > 0 && sorted[j - 1].track > t.track
            invariant
                j <= sorted@.len(),
                forall|k: int| j <= k < sorted@.len() ==> #[trigger] sorted@[k].track > t.track,
            decreases j,
        {
            j = j - 1;
        }
        let ghost before = tracks_view(sorted@);
        proof {
            lemma_insert_at(before, t@, j as int);
            assert(input.subrange(0, i + 1).drop_last() =~= input.subrange(0, i as int));
        }
        sorted.insert(j, t);
        assert(tracks_view(sorted@) =~= before.insert(j as int, t@));
        i = i + 1;
    }
    assert(input.subrange(0, total as int) =~= input);
    sorted
}

} // verus!
