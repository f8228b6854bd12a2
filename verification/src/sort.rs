//! Sorting the record set by timestamp, most recent first. The executable
//! sort is pinned to a functional specification — a stable insertion sort —
//! so that rendering is a function of the scanned records; sortedness and
//! permutation are proved of that specification.

use vstd::prelude::*;
use vstd::multiset::Multiset;

use crate::clock::instant_lt;
use crate::record::HeartbeatRecord;
use crate::record::RecordModel;
use crate::record::recs_model;

verus! {

/// Whether record `a`'s instant is strictly earlier than record `b`'s.
pub open spec fn rec_lt(a: RecordModel, b: RecordModel) -> bool {
    instant_lt(a.secs, a.nanos, b.secs, b.nanos)
}

/// Whether record `a`'s instant is at or after record `b`'s.
pub open spec fn rec_ge(a: RecordModel, b: RecordModel) -> bool {
    !rec_lt(a, b)
}

/// Newest first: every record's instant is at or after each later one's.
pub open spec fn sorted_desc(s: Seq<RecordModel>) -> bool {
    forall|i: int, j: int| 0 <= i < j < s.len() ==> rec_ge(#[trigger] s[i], #[trigger] s[j])
}

/// Inserts `x` into a descending-sorted sequence, after every record at or
/// after it — so a record inserted later stays after its equals.
pub open spec fn insert_desc(x: RecordModel, s: Seq<RecordModel>) -> Seq<RecordModel>
    decreases s.len(),
{
    if s.len() == 0 {
        seq![x]
    } else if rec_ge(s[0], x) {
        seq![s[0]] + insert_desc(x, s.drop_first())
    } else {
        seq![x] + s
    }
}

/// Stable insertion sort, newest first: each record is inserted into the sort
/// of those before it.
pub open spec fn sort_desc(s: Seq<RecordModel>) -> Seq<RecordModel>
    decreases s.len(),
{
    if s.len() == 0 {
        s
    } else {
        insert_desc(s.last(), sort_desc(s.drop_last()))
    }
}

pub proof fn lemma_insert_desc_sorted(x: RecordModel, s: Seq<RecordModel>)
    requires
        sorted_desc(s),
    ensures
        sorted_desc(insert_desc(x, s)),
        insert_desc(x, s).to_multiset() == s.to_multiset().insert(x),
        insert_desc(x, s).len() == s.len() + 1,
    decreases s.len(),
{
    broadcast use vstd::seq_lib::group_to_multiset_ensures;

    if s.len() == 0 {
        assert(seq![x] =~= Seq::<RecordModel>::empty().push(x));
        assert(seq![x].to_multiset() =~= s.to_multiset().insert(x));
    } else if rec_ge(s[0], x) {
        let rest = s.drop_first();
        assert forall|i: int, j: int| 0 <= i < j < rest.len() implies rec_ge(
            #[trigger] rest[i],
            #[trigger] rest[j],
        ) by {
            assert(rec_ge(s[i + 1], s[j + 1]));
        }
        lemma_insert_desc_sorted(x, rest);
        let t = insert_desc(x, rest);
        let whole = seq![s[0]] + t;
        assert forall|i: int, j: int| 0 <= i < j < whole.len() implies rec_ge(
            #[trigger] whole[i],
            #[trigger] whole[j],
        ) by {
            if i == 0 {
                // The head is at or after x and at or after every later row.
                assert(t.to_multiset().count(whole[j]) > 0);
                assert(t.contains(whole[j]));
                let w = choose|w: int| 0 <= w < t.len() && t[w] == whole[j];
                assert(rest.to_multiset().insert(x).count(t[w]) > 0);
                if t[w] != x {
                    assert(rest.to_multiset().count(t[w]) > 0);
                    assert(rest.contains(t[w]));
                    let v = choose|v: int| 0 <= v < rest.len() && rest[v] == t[w];
                    assert(rec_ge(s[0], s[v + 1]));
                }
            } else {
                assert(rec_ge(t[i - 1], t[j - 1]));
            }
        }
        assert(whole.to_multiset() == seq![s[0]].to_multiset().add(t.to_multiset())) by {
            vstd::seq_lib::lemma_multiset_commutative(seq![s[0]], t);
        }
        assert(s.to_multiset() == seq![s[0]].to_multiset().add(rest.to_multiset())) by {
            assert(s =~= seq![s[0]] + rest);
            vstd::seq_lib::lemma_multiset_commutative(seq![s[0]], rest);
        }
        assert(whole.to_multiset() =~= s.to_multiset().insert(x));
    } else {
        let whole = seq![x] + s;
        assert forall|i: int, j: int| 0 <= i < j < whole.len() implies rec_ge(
            #[trigger] whole[i],
            #[trigger] whole[j],
        ) by {
            if i == 0 {
                if j > 1 {
                    assert(rec_ge(s[0], s[j - 1]));
                }
            } else {
                assert(rec_ge(s[i - 1], s[j - 1]));
            }
        }
        assert(whole.to_multiset() =~= s.to_multiset().insert(x)) by {
            vstd::seq_lib::lemma_multiset_commutative(seq![x], s);
            assert(seq![x] =~= Seq::<RecordModel>::empty().push(x));
        }
    }
}

/// The sorted sequence is a permutation of the input, newest first.
pub proof fn lemma_sort_desc_ensures(s: Seq<RecordModel>)
    ensures
        sorted_desc(sort_desc(s)),
        sort_desc(s).to_multiset() == s.to_multiset(),
        sort_desc(s).len() == s.len(),
    decreases s.len(),
{
    broadcast use vstd::seq_lib::group_to_multiset_ensures;

    if s.len() > 0 {
        lemma_sort_desc_ensures(s.drop_last());
        lemma_insert_desc_sorted(s.last(), sort_desc(s.drop_last()));
        assert(s =~= s.drop_last().push(s.last()));
        assert(s.to_multiset() == s.drop_last().to_multiset().insert(s.last()));
    }
}

/// Inserting at a found boundary: with everything before `j` at or after `x`
/// and the record at `j` (if any) strictly earlier, the insertion lands
/// exactly at `j`.
pub proof fn lemma_insert_desc_at(x: RecordModel, s: Seq<RecordModel>, j: int)
    requires
        0 <= j <= s.len(),
        forall|k: int| 0 <= k < j ==> rec_ge(#[trigger] s[k], x),
        j < s.len() ==> rec_lt(s[j], x),
    ensures
        insert_desc(x, s) == s.subrange(0, j) + seq![x] + s.subrange(j, s.len() as int),
    decreases j,
{
    if j == 0 {
        if s.len() == 0 {
            assert(insert_desc(x, s) =~= s.subrange(0, 0) + seq![x] + s.subrange(0, 0));
        } else {
            assert(rec_lt(s[0], x));
            assert(insert_desc(x, s) =~= s.subrange(0, 0) + seq![x] + s.subrange(
                0,
                s.len() as int,
            ));
        }
    } else {
        let rest = s.drop_first();
        assert(rec_ge(s[0], x));
        assert forall|k: int| 0 <= k < j - 1 implies rec_ge(#[trigger] rest[k], x) by {
            assert(rec_ge(s[k + 1], x));
        }
        assert(j - 1 < rest.len() ==> rec_lt(rest[j - 1], x));
        lemma_insert_desc_at(x, rest, j - 1);
        assert(insert_desc(x, s) =~= s.subrange(0, j) + seq![x] + s.subrange(j, s.len() as int));
    }
}

/// Records inserted with strictly increasing timestamps come out reversed:
/// newest-first order is exactly the reverse of insertion order.
pub proof fn lemma_sort_desc_reverses_increasing(s: Seq<RecordModel>)
    requires
        forall|i: int, j: int| 0 <= i < j < s.len() ==> rec_lt(#[trigger] s[i], #[trigger] s[j]),
    ensures
        sort_desc(s) == s.reverse(),
    decreases s.len(),
{
    if s.len() > 0 {
        let front = s.drop_last();
        let x = s.last();
        assert forall|i: int, j: int| 0 <= i < j < front.len() implies rec_lt(
            #[trigger] front[i],
            #[trigger] front[j],
        ) by {
            assert(rec_lt(s[i], s[j]));
        }
        lemma_sort_desc_reverses_increasing(front);
        let t = front.reverse();
        if t.len() > 0 {
            assert(t[0] == s[s.len() - 2]);
            assert(rec_lt(t[0], x));
        }
        lemma_insert_desc_at(x, t, 0);
        assert(sort_desc(s) == insert_desc(x, t));
        assert(insert_desc(x, t) =~= s.reverse());
    }
}

/// Whether two records carry one and the same instant.
pub open spec fn same_instant(a: RecordModel, b: RecordModel) -> bool {
    a.secs == b.secs && a.nanos == b.nanos
}

/// No two records of the sequence carry the same instant.
pub open spec fn distinct_instants(s: Seq<RecordModel>) -> bool {
    forall|i: int, j: int| 0 <= i < j < s.len() ==> !same_instant(#[trigger] s[i], #[trigger] s[j])
}

/// The multiset form: no record twice, and no two records with one instant.
pub open spec fn distinct_instants_m(m: Multiset<RecordModel>) -> bool {
    &&& forall|x: RecordModel| #[trigger] m.count(x) <= 1
    &&& forall|x: RecordModel, y: RecordModel|
        #![trigger m.contains(x), m.contains(y)]
        m.contains(x) && m.contains(y) && x != y ==> !same_instant(x, y)
}

/// A descending-sorted arrangement of records with pairwise distinct instants
/// is unique: two sorted sequences over one multiset are equal.
pub proof fn lemma_sorted_distinct_unique(a: Seq<RecordModel>, b: Seq<RecordModel>)
    requires
        sorted_desc(a),
        sorted_desc(b),
        distinct_instants_m(a.to_multiset()),
        a.to_multiset() == b.to_multiset(),
    ensures
        a == b,
    decreases a.len(),
{
    broadcast use vstd::seq_lib::group_to_multiset_ensures;
    broadcast use vstd::multiset::group_multiset_axioms;

    assert(a.len() == a.to_multiset().len());
    assert(b.len() == b.to_multiset().len());
    if a.len() == 0 {
        assert(a =~= b);
    } else {
        assert(b.to_multiset().count(b[0]) > 0) by {
            assert(b.contains(b[0]));
        }
        assert(a.contains(b[0]));
        let k = choose|k: int| 0 <= k < a.len() && a[k] == b[0];
        assert(b.to_multiset().count(a[0]) > 0) by {
            assert(a.contains(a[0]));
        }
        assert(b.contains(a[0]));
        let m = choose|m: int| 0 <= m < b.len() && b[m] == a[0];
        assert(rec_ge(a[0], b[0])) by {
            if k != 0 {
                assert(rec_ge(a[0], a[k]));
            }
        }
        assert(rec_ge(b[0], a[0])) by {
            if m != 0 {
                assert(rec_ge(b[0], b[m]));
            }
        }
        assert(same_instant(a[0], b[0]));
        assert(a[0] == b[0]) by {
            if a[0] != b[0] {
                assert(a.to_multiset().contains(a[0]));
                assert(a.to_multiset().contains(b[0]));
            }
        }
        let at = a.drop_first();
        let bt = b.drop_first();
        assert(a.remove(0) =~= at);
        assert(b.remove(0) =~= bt);
        assert(at.to_multiset() == a.to_multiset().remove(a[0]));
        assert(bt.to_multiset() == b.to_multiset().remove(b[0]));
        assert forall|i: int, j: int| 0 <= i < j < at.len() implies rec_ge(
            #[trigger] at[i],
            #[trigger] at[j],
        ) by {
            assert(rec_ge(a[i + 1], a[j + 1]));
        }
        assert forall|i: int, j: int| 0 <= i < j < bt.len() implies rec_ge(
            #[trigger] bt[i],
            #[trigger] bt[j],
        ) by {
            assert(rec_ge(b[i + 1], b[j + 1]));
        }
        assert forall|x: RecordModel| #[trigger] at.to_multiset().count(x) <= 1 by {
            assert(a.to_multiset().count(x) <= 1);
        }
        assert forall|x: RecordModel, y: RecordModel|
            #![trigger at.to_multiset().contains(x), at.to_multiset().contains(y)]
            at.to_multiset().contains(x) && at.to_multiset().contains(y) && x != y implies
            !same_instant(x, y) by {
            assert(a.to_multiset().contains(x));
            assert(a.to_multiset().contains(y));
        }
        lemma_sorted_distinct_unique(at, bt);
        assert forall|i: int| 0 <= i < a.len() implies a[i] == b[i] by {
            if i > 0 {
                assert(a[i] == at[i - 1]);
                assert(b[i] == bt[i - 1]);
            }
        }
        assert(a =~= b);
    }
}

/// Whether record `a`'s instant is at or after record `b`'s.
fn rec_at_or_after(a: &HeartbeatRecord, b: &HeartbeatRecord) -> (r: bool)
    ensures
        r == rec_ge(a@, b@),
{
    !a.time.lt(&b.time)
}

/// Sorts the records in place, newest first, into exactly the order the
/// functional specification gives.
pub fn sort_records(v: &mut Vec<HeartbeatRecord>)
    ensures
        recs_model(final (v)@) == sort_desc(recs_model(old(v)@)),
        sorted_desc(recs_model(final (v)@)),
        recs_model(final (v)@).to_multiset() == recs_model(old(v)@).to_multiset(),
{
    let ghost whole = recs_model(old(v)@);
    proof {
        assert(recs_model(v@) =~= sort_desc(whole.subrange(0, 0)) + whole.subrange(
            0,
            whole.len() as int,
        ));
    }
    let mut i: usize = 0;
    while i < v.len()
        invariant
            0 <= i <= v@.len(),
            v@.len() == whole.len(),
            whole == recs_model(old(v)@),
            recs_model(v@) == sort_desc(whole.subrange(0, i as int)) + whole.subrange(
                i as int,
                whole.len() as int,
            ),
        decreases v@.len() - i,
    {
        let ghost sortedpre = sort_desc(whole.subrange(0, i as int));
        proof {
            lemma_sort_desc_ensures(whole.subrange(0, i as int));
        }
        let ghost pre = v@;
        let x = v.remove(i);
        let ghost gx = x@;
        proof {
            assert(x == pre[i as int]);
            assert(gx == recs_model(pre)[i as int]);
            assert(gx == whole[i as int]);
            assert(v@ == pre.remove(i as int));
            let tail = whole.subrange(i as int + 1, whole.len() as int);
            assert forall|k: int| 0 <= k < recs_model(v@).len() implies recs_model(v@)[k] == (
            sortedpre + tail)[k] by {
                assert(recs_model(v@)[k] == (v@[k])@);
                if k < i as int {
                    assert(v@[k] == pre[k]);
                    assert(recs_model(pre)[k] == (pre[k])@);
                    assert(recs_model(pre)[k] == sortedpre[k]);
                } else {
                    assert(v@[k] == pre[k + 1]);
                    assert(recs_model(pre)[k + 1] == (pre[k + 1])@);
                    assert(recs_model(pre)[k + 1] == tail[k - i]);
                }
            }
            assert(recs_model(v@) =~= sortedpre + tail);
        }
        let ghost removed = v@;
        let mut j: usize = 0;
        while j < i && rec_at_or_after(&v[j], &x)
            invariant
                0 <= j <= i,
                i <= v@.len(),
                v@ == removed,
                recs_model(v@) == sortedpre + whole.subrange(i as int + 1, whole.len() as int),
                sortedpre.len() == i,
                gx == x@,
                forall|k: int| 0 <= k < j ==> rec_ge(#[trigger] sortedpre[k], gx),
            decreases i - j,
        {
            proof {
                assert(recs_model(v@)[j as int] == sortedpre[j as int]);
            }
            j = j + 1;
        }
        proof {
            if j < i {
                assert(recs_model(v@)[j as int] == sortedpre[j as int]);
                assert(rec_lt(sortedpre[j as int], gx));
            }
            lemma_insert_desc_at(gx, sortedpre, j as int);
        }
        let ghost before_insert = v@;
        v.insert(j, x);
        proof {
            assert(recs_model(v@) =~= recs_model(before_insert).insert(j as int, gx));
            assert(recs_model(v@) =~= insert_desc(gx, sortedpre) + whole.subrange(
                i as int + 1,
                whole.len() as int,
            ));
            let p = whole.subrange(0, i as int + 1);
            assert(p.drop_last() =~= whole.subrange(0, i as int));
            assert(p.last() == gx);
            assert(sort_desc(p) == insert_desc(gx, sortedpre));
            assert(recs_model(v@) == sort_desc(whole.subrange(0, i as int + 1)) + whole.subrange(
                i as int + 1,
                whole.len() as int,
            ));
        }
        i = i + 1;
    }
    proof {
        assert(whole.subrange(0, whole.len() as int) =~= whole);
        assert(whole.subrange(whole.len() as int, whole.len() as int)
            =~= Seq::<RecordModel>::empty());
        assert(recs_model(v@) =~= sort_desc(whole));
        lemma_sort_desc_ensures(whole);
    }
}

} // verus!
