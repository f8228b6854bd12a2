//! Laws that relate the store's operations to each other and to rendering:
//! an accepted report is visible to a later scan with its submitted fields
//! and its assigned instant, rendering is a function of the scanned records,
//! and an empty table renders the bare page shell.

use vstd::prelude::*;

use crate::clock::parse_ts;
use crate::clock::rfc3339_of;
use crate::record::RecordModel;
use crate::record::RowModel;
use crate::record::all_rows_parse;
use crate::record::record_of;
use crate::record::records_of;
use crate::sort::sort_desc;
use crate::store::scan_models;
use crate::view::page_head;
use crate::view::page_html;
use crate::view::page_tail;

verus! {

/// An accepted report round-trips: when an append has pushed exactly its row
/// — whose stored text parses back to the assigned instant, as `append`
/// ensures — every later scan's output holds a record with the submitted
/// source, event and note and with that very instant, to full precision.
pub proof fn lemma_append_then_scan(
    rows0: Seq<RowModel>,
    se: int,
    na: int,
    source: Seq<char>,
    event: Seq<char>,
    note: Seq<char>,
    out: Seq<RecordModel>,
)
    requires
        parse_ts(rfc3339_of(se, na)) == Some((se, na)),
        scan_models(rows0.push(RowModel { time: rfc3339_of(se, na), source, event, note }), out),
    ensures
        out.contains(RecordModel { secs: se, nanos: na, source, event, note }),
{
    broadcast use vstd::seq_lib::group_to_multiset_ensures;

    let row = RowModel { time: rfc3339_of(se, na), source, event, note };
    let rows1 = rows0.push(row);
    let perm = choose|perm: Seq<RowModel>|
        #[trigger] perm.to_multiset() == rows1.to_multiset() && all_rows_parse(perm) && out
            == records_of(perm);
    assert(rows1.to_multiset().count(row) > 0) by {
        assert(rows1.to_multiset() =~= rows0.to_multiset().insert(row));
    }
    assert(perm.contains(row));
    let k = choose|k: int| 0 <= k < perm.len() && perm[k] == row;
    assert(out[k] == record_of(row));
    assert(out[k] == RecordModel { secs: se, nanos: na, source, event, note });
}

/// Reordering a table reorders its records: row sequences with one multiset
/// denote record sequences with one multiset.
pub proof fn lemma_records_of_multiset(p: Seq<RowModel>, q: Seq<RowModel>)
    requires
        p.to_multiset() == q.to_multiset(),
    ensures
        records_of(p).to_multiset() == records_of(q).to_multiset(),
    decreases p.len(),
{
    broadcast use vstd::seq_lib::group_to_multiset_ensures;
    broadcast use vstd::multiset::group_multiset_axioms;

    assert(p.len() == p.to_multiset().len());
    assert(q.len() == q.to_multiset().len());
    if p.len() == 0 {
        assert(records_of(p) =~= records_of(q));
    } else {
        let x = p[0];
        assert(q.to_multiset().count(x) > 0) by {
            assert(p.contains(x));
        }
        assert(q.contains(x));
        let j = choose|j: int| 0 <= j < q.len() && q[j] == x;
        let p1 = p.drop_first();
        let q1 = q.remove(j);
        assert(p.remove(0) =~= p1);
        assert(p1.to_multiset() == p.to_multiset().remove(x));
        assert(q1.to_multiset() == q.to_multiset().remove(q[j]));
        lemma_records_of_multiset(p1, q1);
        assert(records_of(p).remove(0) =~= records_of(p1));
        assert(records_of(p).to_multiset().remove(records_of(p)[0]) == records_of(
            p1,
        ).to_multiset());
        assert(records_of(q).remove(j) =~= records_of(q1));
        assert(records_of(q).to_multiset().remove(records_of(q)[j]) == records_of(
            q1,
        ).to_multiset());
        assert(records_of(p)[0] == record_of(x));
        assert(records_of(q)[j] == record_of(x));
        let v = record_of(x);
        assert(records_of(p).to_multiset().count(v) > 0) by {
            assert(records_of(p).contains(v));
        }
        assert(records_of(q).to_multiset().count(v) > 0) by {
            assert(records_of(q).contains(v));
        }
        assert(records_of(p).to_multiset() =~= records_of(p1).to_multiset().insert(v));
        assert(records_of(q).to_multiset() =~= records_of(q1).to_multiset().insert(v));
    }
}

/// Pairwise distinct instants in a sequence carry over to its multiset: no
/// record twice, and no two records with one instant.
pub proof fn lemma_distinct_instants_to_multiset(r: Seq<RecordModel>)
    requires
        crate::sort::distinct_instants(r),
    ensures
        crate::sort::distinct_instants_m(r.to_multiset()),
{
    broadcast use vstd::seq_lib::group_to_multiset_ensures;

    assert(r.no_duplicates()) by {
        assert forall|i: int, j: int|
            0 <= i < r.len() && 0 <= j < r.len() && i != j implies r[i] != r[j] by {
            if i < j {
                assert(!crate::sort::same_instant(r[i], r[j]));
            } else {
                assert(!crate::sort::same_instant(r[j], r[i]));
            }
        }
    }
    r.lemma_multiset_has_no_duplicates();
    assert forall|x: RecordModel, y: RecordModel|
        #![trigger r.to_multiset().contains(x), r.to_multiset().contains(y)]
        r.to_multiset().contains(x) && r.to_multiset().contains(y) && x != y implies
        !crate::sort::same_instant(x, y) by {
        assert(r.contains(x));
        assert(r.contains(y));
        let i = choose|i: int| 0 <= i < r.len() && r[i] == x;
        let j = choose|j: int| 0 <= j < r.len() && r[j] == y;
        if i < j {
            assert(!crate::sort::same_instant(r[i], r[j]));
        } else {
            assert(!crate::sort::same_instant(r[j], r[i]));
        }
    }
}

/// Rendering one table is deterministic wherever no two of its rows denote
/// the same instant: whatever order the database hands the rows back in, the
/// two scans sort to one record order and render to identical text. (Two
/// rows with one instant may render in either relative order.)
pub proof fn lemma_render_of_table_deterministic(
    rows: Seq<RowModel>,
    s1: Seq<RecordModel>,
    s2: Seq<RecordModel>,
)
    requires
        crate::sort::distinct_instants(records_of(rows)),
        scan_models(rows, s1),
        scan_models(rows, s2),
    ensures
        page_html(sort_desc(s1)) == page_html(sort_desc(s2)),
{
    let r = records_of(rows);
    lemma_distinct_instants_to_multiset(r);
    let perm1 = choose|perm: Seq<RowModel>|
        #[trigger] perm.to_multiset() == rows.to_multiset() && all_rows_parse(perm) && s1
            == records_of(perm);
    let perm2 = choose|perm: Seq<RowModel>|
        #[trigger] perm.to_multiset() == rows.to_multiset() && all_rows_parse(perm) && s2
            == records_of(perm);
    lemma_records_of_multiset(perm1, rows);
    lemma_records_of_multiset(perm2, rows);
    crate::sort::lemma_sort_desc_ensures(s1);
    crate::sort::lemma_sort_desc_ensures(s2);
    crate::sort::lemma_sorted_distinct_unique(sort_desc(s1), sort_desc(s2));
}

/// Rows inserted with strictly increasing timestamps render newest first:
/// whatever order the database hands them back in, the page's table rows
/// stand in exactly the reverse of insertion order.
pub proof fn lemma_increasing_table_renders_reversed(rows: Seq<RowModel>, s: Seq<RecordModel>)
    requires
        forall|i: int, j: int|
            0 <= i < j < records_of(rows).len() ==> crate::sort::rec_lt(
                #[trigger] records_of(rows)[i],
                #[trigger] records_of(rows)[j],
            ),
        scan_models(rows, s),
    ensures
        page_html(sort_desc(s)) == page_head() + crate::view::rows_html(
            records_of(rows).reverse(),
        ) + page_tail(),
{
    let r = records_of(rows);
    assert(crate::sort::distinct_instants(r)) by {
        assert forall|i: int, j: int| 0 <= i < j < r.len() implies !crate::sort::same_instant(
            #[trigger] r[i],
            #[trigger] r[j],
        ) by {
            assert(crate::sort::rec_lt(r[i], r[j]));
        }
    }
    lemma_distinct_instants_to_multiset(r);
    let perm = choose|perm: Seq<RowModel>|
        #[trigger] perm.to_multiset() == rows.to_multiset() && all_rows_parse(perm) && s
            == records_of(perm);
    lemma_records_of_multiset(perm, rows);
    crate::sort::lemma_sort_desc_reverses_increasing(r);
    crate::sort::lemma_sort_desc_ensures(r);
    crate::sort::lemma_sort_desc_ensures(s);
    crate::sort::lemma_sorted_distinct_unique(sort_desc(s), sort_desc(r));
}

/// An empty table scans to no records and renders the bare page shell, with
/// an empty table body — not an error.
pub proof fn lemma_empty_table_renders_shell(rows: Seq<RowModel>, out: Seq<RecordModel>)
    requires
        rows.len() == 0,
        scan_models(rows, out),
    ensures
        out == Seq::<RecordModel>::empty(),
        page_html(sort_desc(out)) == page_head() + page_tail(),
{
    broadcast use vstd::seq_lib::group_to_multiset_ensures;

    let perm = choose|perm: Seq<RowModel>|
        #[trigger] perm.to_multiset() == rows.to_multiset() && all_rows_parse(perm) && out
            == records_of(perm);
    assert(perm.to_multiset().len() == perm.len());
    assert(rows.to_multiset().len() == rows.len());
    assert(out =~= Seq::<RecordModel>::empty());
    assert(page_html(sort_desc(out)) =~= page_head() + page_tail());
}

} // verus!
