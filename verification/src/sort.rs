use vstd::prelude::*;
use crate::entry::FileEntry;
use crate::timestamp::{compare, CaptureTimestamp, ts_before, ts_equal, ts_le};

verus! {

/// `x` placed into `s` directly after every element that does not sort
/// strictly after `x`. When `s` is sorted this is the usual stable
/// insertion: a new element lands after the elements equal to it.
pub open spec fn insert_sorted(s: Seq<FileEntry>, x: FileEntry) -> Seq<FileEntry>
    decreases s.len(),
{
    if s.len() == 0 {
        seq![x]
    } else if ts_before(x.timestamp, s.last().timestamp) {
        insert_sorted(s.drop_last(), x).push(s.last())
    } else {
        s.push(x)
    }
}

/// The stable sort of `s` by timestamp: each element in turn inserted into
/// the sorted prefix. This pins the result of sorting completely.
pub open spec fn sort_spec(s: Seq<FileEntry>) -> Seq<FileEntry>
    decreases s.len(),
{
    if s.len() == 0 {
        s
    } else {
        insert_sorted(sort_spec(s.drop_last()), s.last())
    }
}

/// Non-decreasing by timestamp, over every pair of positions.
pub open spec fn sorted_by_timestamp(s: Seq<FileEntry>) -> bool {
    forall|i: int, j: int|
        0 <= i < j < s.len() ==> ts_le(s[i].timestamp, s[j].timestamp)
}

/// The subsequence of entries whose timestamp equals `t`, in order.
pub open spec fn filter_ts(s: Seq<FileEntry>, t: CaptureTimestamp) -> Seq<FileEntry>
    decreases s.len(),
{
    if s.len() == 0 {
        Seq::empty()
    } else if ts_equal(s.last().timestamp, t) {
        filter_ts(s.drop_last(), t).push(s.last())
    } else {
        filter_ts(s.drop_last(), t)
    }
}

/// Where the insertion lands: if everything from position `j` on sorts
/// strictly after `x` and position `j - 1` (when there is one) does not,
/// then `insert_sorted` splits `s` at `j`.
proof fn lemma_insert_sorted_at(s: Seq<FileEntry>, x: FileEntry, j: int)
    requires
        0 <= j <= s.len(),
        forall|k: int| j <= k < s.len() ==> ts_before(x.timestamp, s[k].timestamp),
        j > 0 ==> !ts_before(x.timestamp, s[j - 1].timestamp),
    ensures
        insert_sorted(s, x) == s.subrange(0, j) + seq![x] + s.subrange(j, s.len() as int),
    decreases s.len(),
{
    if j == s.len() {
        if s.len() == 0 {
            assert(insert_sorted(s, x) =~= s.subrange(0, j) + seq![x] + s.subrange(j, s.len() as int));
        } else {
            assert(!ts_before(x.timestamp, s.last().timestamp));
            assert(insert_sorted(s, x) =~= s.subrange(0, j) + seq![x] + s.subrange(j, s.len() as int));
        }
    } else {
        assert(ts_before(x.timestamp, s.last().timestamp));
        lemma_insert_sorted_at(s.drop_last(), x, j);
        assert(insert_sorted(s, x) =~= s.subrange(0, j) + seq![x] + s.subrange(j, s.len() as int));
    }
}

/// Sorts the entries by timestamp with a stable insertion sort. The result
/// is exactly `sort_spec` of the input, which determines it completely;
/// `lemma_sort_sorted`, `lemma_sort_stable` and `lemma_sort_permutation`
/// spell out what that means.
pub fn sort_entries(v: Vec<FileEntry>) -> (r: Vec<FileEntry>)
    ensures
        r@ == sort_spec(v@),
{
    let ghost orig = v@;
    let mut rest = v;
    let mut out: Vec<FileEntry> = Vec::new();
    let ghost mut done: int = 0;
    while rest.len() > 0
        invariant
            0 <= done <= orig.len(),
            rest@ == orig.subrange(done, orig.len() as int),
            out@ == sort_spec(orig.subrange(0, done)),
        decreases rest@.len(),
    {
        let x = rest.remove(0);
        proof {
            assert(rest@ =~= orig.subrange(done + 1, orig.len() as int));
            assert(x == orig[done]);
        }
        // find the insertion point from the right
        let mut j = out.len();
        while j > 0 && compare(&x.timestamp, &out[j - 1].timestamp) < 0
            invariant
                0 <= j <= out@.len(),
                forall|k: int| j <= k < out@.len() ==> ts_before(x.timestamp, out@[k].timestamp),
            decreases j,
        {
            j = j - 1;
        }
        proof {
            lemma_insert_sorted_at(out@, x, j as int);
        }
        let ghost before = out@;
        out.insert(j, x);
        proof {
            assert(out@ =~= before.subrange(0, j as int) + seq![x] + before.subrange(j as int, before.len() as int));
            assert(orig.subrange(0, done + 1).drop_last() =~= orig.subrange(0, done));
            assert(orig.subrange(0, done + 1).last() == orig[done]);
            assert(out@ == sort_spec(orig.subrange(0, done + 1)));
            done = done + 1;
        }
    }
    proof {
        assert(orig.subrange(0, done) =~= orig);
    }
    out
}

/// Inserting into a sorted sequence keeps it sorted.
proof fn lemma_insert_sorted_keeps_sorted(s: Seq<FileEntry>, x: FileEntry)
    requires
        sorted_by_timestamp(s),
    ensures
        sorted_by_timestamp(insert_sorted(s, x)),
    decreases s.len(),
{
    if s.len() == 0 {
    } else if ts_before(x.timestamp, s.last().timestamp) {
        assert(sorted_by_timestamp(s.drop_last())) by {
            assert(forall|i: int, j: int|
                0 <= i < j < s.drop_last().len() ==> ts_le(#[trigger] s.drop_last()[i].timestamp,
                    #[trigger] s.drop_last()[j].timestamp)) by {
                assert(forall|i: int| 0 <= i < s.drop_last().len() ==> s.drop_last()[i] == s[i]);
            }
        }
        lemma_insert_sorted_keeps_sorted(s.drop_last(), x);
        let t = insert_sorted(s.drop_last(), x);
        assert(insert_sorted(s, x) == t.push(s.last()));
        // every element of t is either from s.drop_last() or is x; both sort
        // no later than s.last()
        assert forall|i: int| 0 <= i < t.len() implies ts_le(t[i].timestamp, s.last().timestamp) by {
            lemma_insert_sorted_membership(s.drop_last(), x, i);
            if t[i] == x {
            } else {
                let k = choose|k: int| 0 <= k < s.drop_last().len() && s.drop_last()[k] == t[i];
                assert(s[k] == t[i]);
            }
        }
        assert forall|i: int, j: int|
            0 <= i < j < insert_sorted(s, x).len() implies ts_le(
            insert_sorted(s, x)[i].timestamp, insert_sorted(s, x)[j].timestamp) by {
            if j < t.len() {
            } else {
                assert(insert_sorted(s, x)[j] == s.last());
            }
        }
    } else {
        assert forall|i: int, j: int|
            0 <= i < j < s.push(x).len() implies ts_le(s.push(x)[i].timestamp, s.push(x)[j].timestamp) by {
            if j < s.len() {
            } else {
                assert(s.push(x)[j] == x);
                if i < s.len() {
                    assert(ts_le(s[i].timestamp, s.last().timestamp));
                }
            }
        }
    }
}

/// Every element of `insert_sorted(s, x)` is `x` or comes from `s`.
proof fn lemma_insert_sorted_membership(s: Seq<FileEntry>, x: FileEntry, i: int)
    requires
        0 <= i < insert_sorted(s, x).len(),
    ensures
        insert_sorted(s, x)[i] == x || exists|k: int|
            0 <= k < s.len() && s[k] == insert_sorted(s, x)[i],
    decreases s.len(),
{
    if s.len() == 0 {
    } else if ts_before(x.timestamp, s.last().timestamp) {
        let t = insert_sorted(s.drop_last(), x);
        if i < t.len() {
            lemma_insert_sorted_membership(s.drop_last(), x, i);
            if t[i] != x {
                let k = choose|k: int| 0 <= k < s.drop_last().len() && s.drop_last()[k] == t[i];
                assert(s[k] == insert_sorted(s, x)[i]);
            }
        } else {
            assert(s[s.len() - 1] == insert_sorted(s, x)[i]);
        }
    } else {
        if i < s.len() {
            assert(s[i] == insert_sorted(s, x)[i]);
        }
    }
}

/// The sort's result is sorted by timestamp.
pub proof fn lemma_sort_sorted(s: Seq<FileEntry>)
    ensures
        sorted_by_timestamp(sort_spec(s)),
    decreases s.len(),
{
    if s.len() == 0 {
    } else {
        lemma_sort_sorted(s.drop_last());
        lemma_insert_sorted_keeps_sorted(sort_spec(s.drop_last()), s.last());
    }
}

/// Inserting an element of another equality class does not change a class's
/// subsequence; inserting one of the same class appends it.
proof fn lemma_insert_sorted_filter(s: Seq<FileEntry>, x: FileEntry, t: CaptureTimestamp)
    ensures
        filter_ts(insert_sorted(s, x), t) == if ts_equal(x.timestamp, t) {
            filter_ts(s, t).push(x)
        } else {
            filter_ts(s, t)
        },
    decreases s.len(),
{
    if s.len() == 0 {
        assert(filter_ts(seq![x], t) == if ts_equal(x.timestamp, t) {
            filter_ts(s, t).push(x)
        } else {
            filter_ts(s, t)
        }) by {
            assert(seq![x].drop_last() =~= Seq::<FileEntry>::empty());
            assert(filter_ts(Seq::<FileEntry>::empty(), t) =~= Seq::<FileEntry>::empty());
        }
    } else if ts_before(x.timestamp, s.last().timestamp) {
        lemma_insert_sorted_filter(s.drop_last(), x, t);
        let u = insert_sorted(s.drop_last(), x).push(s.last());
        assert(u.drop_last() =~= insert_sorted(s.drop_last(), x));
        assert(u.last() == s.last());
        // x strictly before s.last() means the two cannot share a class
        if ts_equal(x.timestamp, t) && ts_equal(s.last().timestamp, t) {
            assert(false);
        }
    } else {
        let u = s.push(x);
        assert(u.drop_last() =~= s);
        assert(u.last() == x);
    }
}

/// Stability: for every timestamp `t`, the entries whose timestamp equals
/// `t` appear in `sort_spec(s)` in exactly the order they had in `s`.
pub proof fn lemma_sort_stable(s: Seq<FileEntry>, t: CaptureTimestamp)
    ensures
        filter_ts(sort_spec(s), t) == filter_ts(s, t),
    decreases s.len(),
{
    if s.len() == 0 {
    } else {
        lemma_sort_stable(s.drop_last(), t);
        lemma_insert_sorted_filter(sort_spec(s.drop_last()), s.last(), t);
    }
}

/// Inserting adds exactly the new element to the multiset of entries.
proof fn lemma_insert_sorted_multiset(s: Seq<FileEntry>, x: FileEntry)
    ensures
        insert_sorted(s, x).to_multiset() == s.to_multiset().insert(x),
    decreases s.len(),
{
    broadcast use vstd::seq_lib::group_to_multiset_ensures;

    if s.len() == 0 {
        assert(seq![x] =~= Seq::<FileEntry>::empty().push(x));
        assert(seq![x].to_multiset() =~= s.to_multiset().insert(x));
    } else if ts_before(x.timestamp, s.last().timestamp) {
        lemma_insert_sorted_multiset(s.drop_last(), x);
        assert(s.drop_last().push(s.last()) =~= s);
        assert(insert_sorted(s, x).to_multiset() =~= s.to_multiset().insert(x));
    } else {
        assert(s.push(x).to_multiset() =~= s.to_multiset().insert(x));
    }
}

/// The sort permutes its input: both hold the same multiset of entries.
pub proof fn lemma_sort_permutation(s: Seq<FileEntry>)
    ensures
        sort_spec(s).to_multiset() == s.to_multiset(),
    decreases s.len(),
{
    broadcast use vstd::seq_lib::group_to_multiset_ensures;

    if s.len() == 0 {
    } else {
        lemma_sort_permutation(s.drop_last());
        lemma_insert_sorted_multiset(sort_spec(s.drop_last()), s.last());
        assert(s.drop_last().push(s.last()) =~= s);
        assert(sort_spec(s).to_multiset() =~= s.to_multiset());
    }
}

} // verus!
