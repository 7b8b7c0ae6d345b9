//! Bringing the store's rows into the order of relevance that the index gave.
//!
//! The store decides which releases exist; the index decides only their
//! order. A row that the index did not name is left out, and so, without
//! further ado, is a hit for which the store gave no row.

use crate::release::FlakeRelease;
use crate::score::{best_score, highest_score, RelevanceHit};
use vstd::prelude::*;
use vstd::seq_lib::to_multiset_insert;

verus! {

/// The release `a` has to stand before the release `b`: it matched better, or
/// as well and with the smaller identifier. Both are named by `hits`.
pub open spec fn goes_before(hits: Seq<RelevanceHit>, a: i32, b: i32) -> bool {
    match (best_score(hits, a), best_score(hits, b)) {
        (Some(x), Some(y)) => x > y || (x == y && a < b),
        _ => false,
    }
}

/// The release `a` may stand before the release `b`: it matched better, or as
/// well and with an identifier that is not larger. Both are named by `hits`.
pub open spec fn may_precede(hits: Seq<RelevanceHit>, a: i32, b: i32) -> bool {
    match (best_score(hits, a), best_score(hits, b)) {
        (Some(x), Some(y)) => x > y || (x == y && a <= b),
        _ => false,
    }
}

/// `rows` are in the order of relevance: from the best match down, and by
/// rising identifier where the match is equally good.
pub open spec fn in_rank_order(hits: Seq<RelevanceHit>, rows: Seq<FlakeRelease>) -> bool {
    forall|i: int, j: int|
        0 <= i < j < rows.len() ==> may_precede(hits, (#[trigger] rows[i]).id, (#[trigger] rows[j]).id)
}

/// `row` stands for a release that `hits` names.
pub open spec fn is_named(hits: Seq<RelevanceHit>, row: FlakeRelease) -> bool {
    best_score(hits, row.id) is Some
}

/// No two of the rows stand for one release.
pub open spec fn distinct_releases(rows: Seq<FlakeRelease>) -> bool {
    forall|i: int, j: int|
        0 <= i < j < rows.len() ==> (#[trigger] rows[i]).id != (#[trigger] rows[j]).id
}

/// The two lists hold the same rows, in whatever order.
pub open spec fn same_rows(a: Seq<FlakeRelease>, b: Seq<FlakeRelease>) -> bool {
    forall|row: FlakeRelease|
        #![trigger a.contains(row)]
        #![trigger b.contains(row)]
        a.contains(row) <==> b.contains(row)
}

/// Where a row for the release `id` goes into `sorted`: behind the rows at
/// the front that have to stand before it.
pub open spec fn slot(hits: Seq<RelevanceHit>, sorted: Seq<FlakeRelease>, id: i32) -> int
    decreases sorted.len(),
{
    if sorted.len() == 0 {
        0
    } else if goes_before(hits, sorted.first().id, id) {
        1 + slot(hits, sorted.drop_first(), id)
    } else {
        0
    }
}

/// The rows that `hits` names, in the order of relevance; rows that tie in
/// score and identifier keep the order in which they came.
pub open spec fn ranked(hits: Seq<RelevanceHit>, rows: Seq<FlakeRelease>) -> Seq<FlakeRelease>
    decreases rows.len(),
{
    if rows.len() == 0 {
        Seq::empty()
    } else {
        let rest = ranked(hits, rows.drop_first());
        if is_named(hits, rows.first()) {
            rest.insert(slot(hits, rest, rows.first().id), rows.first())
        } else {
            rest
        }
    }
}

/// The slot lies within the rows; every row in front of it has to stand
/// before the new one, and the row at it, if any, has not.
pub proof fn lemma_slot(hits: Seq<RelevanceHit>, sorted: Seq<FlakeRelease>, id: i32)
    ensures
        0 <= slot(hits, sorted, id) <= sorted.len(),
        forall|i: int|
            0 <= i < slot(hits, sorted, id) ==> goes_before(hits, (#[trigger] sorted[i]).id, id),
        slot(hits, sorted, id) < sorted.len() ==> !goes_before(
            hits,
            sorted[slot(hits, sorted, id)].id,
            id,
        ),
    decreases sorted.len(),
{
    if sorted.len() > 0 && goes_before(hits, sorted.first().id, id) {
        let rest = sorted.drop_first();
        lemma_slot(hits, rest, id);
        assert forall|i: int| 0 <= i < slot(hits, sorted, id) implies goes_before(
            hits,
            (#[trigger] sorted[i]).id,
            id,
        ) by {
            if i > 0 {
                assert(sorted[i] == rest[i - 1]);
            }
        }
    }
}

/// What ranking does: it keeps exactly the rows that the hits name, each as
/// often as it came, and puts them in the order of relevance.
pub proof fn lemma_ranked(hits: Seq<RelevanceHit>, rows: Seq<FlakeRelease>)
    ensures
        in_rank_order(hits, ranked(hits, rows)),
        ranked(hits, rows).to_multiset() == rows.filter(
            |row: FlakeRelease| is_named(hits, row),
        ).to_multiset(),
        ranked(hits, rows).len() <= rows.len(),
        forall|row: FlakeRelease| #[trigger]
            ranked(hits, rows).contains(row) <==> rows.contains(row) && is_named(hits, row),
    decreases rows.len(),
{
    let named = |row: FlakeRelease| is_named(hits, row);
    if rows.len() == 0 {
        assert(rows.filter(named) =~= Seq::<FlakeRelease>::empty()) by {
            reveal(Seq::filter);
        }
    } else {
        let head = rows.first();
        let tail = rows.drop_first();
        let rest = ranked(hits, tail);
        lemma_ranked(hits, tail);
        assert(rows =~= seq![head] + tail);
        tail.lemma_filter_prepend(head, named);
        if is_named(hits, head) {
            let at = slot(hits, rest, head.id);
            let out = rest.insert(at, head);
            lemma_slot(hits, rest, head.id);
            to_multiset_insert(rest, at, head);
            assert(seq![head] + tail.filter(named) =~= tail.filter(named).insert(0, head));
            to_multiset_insert(tail.filter(named), 0, head);
            assert forall|i: int, j: int| 0 <= i < j < out.len() implies may_precede(
                hits,
                (#[trigger] out[i]).id,
                (#[trigger] out[j]).id,
            ) by {
                if i == at {
                    assert(rest.contains(rest[j - 1]));
                }
            }
            assert forall|row: FlakeRelease| #[trigger]
                out.contains(row) <==> rows.contains(row) && is_named(hits, row) by {
                if rest.contains(row) {
                    let i = choose|i: int| 0 <= i < rest.len() && rest[i] == row;
                    if i < at {
                        assert(out[i] == row);
                    } else {
                        assert(out[i + 1] == row);
                    }
                }
                assert(out[at] == head);
            }
        }
    }
}

/// Where the hits name every row, ranking drops none: it only brings the rows
/// into another order.
pub proof fn lemma_ranked_keeps_named_rows(hits: Seq<RelevanceHit>, rows: Seq<FlakeRelease>)
    requires
        forall|i: int| 0 <= i < rows.len() ==> is_named(hits, #[trigger] rows[i]),
    ensures
        ranked(hits, rows).len() == rows.len(),
        ranked(hits, rows).to_multiset() == rows.to_multiset(),
    decreases rows.len(),
{
    if rows.len() == 0 {
        assert(rows =~= Seq::<FlakeRelease>::empty());
    } else {
        let head = rows.first();
        let tail = rows.drop_first();
        let rest = ranked(hits, tail);
        assert forall|i: int| 0 <= i < tail.len() implies is_named(hits, #[trigger] tail[i]) by {}
        lemma_ranked_keeps_named_rows(hits, tail);
        lemma_slot(hits, rest, head.id);
        to_multiset_insert(rest, slot(hits, rest, head.id), head);
        assert(rows =~= tail.insert(0, head));
        to_multiset_insert(tail, 0, head);
    }
}

/// Where the hits for different releases all differ in score, and no two rows
/// stand for one release, the ranked rows go strictly down in score.
pub proof fn lemma_ranked_strictly_descending(hits: Seq<RelevanceHit>, rows: Seq<FlakeRelease>)
    requires
        forall|a: i32, b: i32|
            a != b && best_score(hits, a) is Some ==> #[trigger] best_score(hits, a)
                != #[trigger] best_score(hits, b),
        distinct_releases(rows),
    ensures
        forall|i: int, j: int|
            0 <= i < j < ranked(hits, rows).len() ==> best_score(
                hits,
                (#[trigger] ranked(hits, rows)[i]).id,
            ).unwrap() > best_score(hits, (#[trigger] ranked(hits, rows)[j]).id).unwrap(),
{
    let out = ranked(hits, rows);
    lemma_ranked(hits, rows);
    lemma_ranked_distinct(hits, rows);
    assert forall|i: int, j: int| 0 <= i < j < out.len() implies best_score(
        hits,
        (#[trigger] out[i]).id,
    ).unwrap() > best_score(hits, (#[trigger] out[j]).id).unwrap() by {
        assert(may_precede(hits, out[i].id, out[j].id));
    }
}

/// Where no two rows stand for one release, no two ranked rows do.
pub proof fn lemma_ranked_distinct(hits: Seq<RelevanceHit>, rows: Seq<FlakeRelease>)
    requires
        distinct_releases(rows),
    ensures
        distinct_releases(ranked(hits, rows)),
    decreases rows.len(),
{
    if rows.len() > 0 {
        let head = rows.first();
        let tail = rows.drop_first();
        let rest = ranked(hits, tail);
        assert(distinct_releases(tail)) by {
            assert forall|i: int, j: int| 0 <= i < j < tail.len() implies (#[trigger] tail[i]).id
                != (#[trigger] tail[j]).id by {
                assert(tail[i] == rows[i + 1] && tail[j] == rows[j + 1]);
            }
        }
        lemma_ranked_distinct(hits, tail);
        lemma_ranked(hits, tail);
        if is_named(hits, head) {
            let at = slot(hits, rest, head.id);
            let out = rest.insert(at, head);
            lemma_slot(hits, rest, head.id);
            assert forall|k: int| 0 <= k < rest.len() implies (#[trigger] rest[k]).id
                != head.id by {
                assert(rest.contains(rest[k]));
                let m = choose|m: int| 0 <= m < tail.len() && tail[m] == rest[k];
                assert(rows[m + 1] == rest[k]);
            }
            assert(distinct_releases(out));
        }
    }
}

/// There is one order of relevance: two lists of the same rows, both in the
/// order of relevance and neither with two rows for one release, are equal.
pub proof fn lemma_order_is_unique(
    hits: Seq<RelevanceHit>,
    a: Seq<FlakeRelease>,
    b: Seq<FlakeRelease>,
)
    requires
        in_rank_order(hits, a),
        in_rank_order(hits, b),
        distinct_releases(a),
        distinct_releases(b),
        same_rows(a, b),
    ensures
        a == b,
    decreases a.len(),
{
    if a.len() == 0 {
        if b.len() > 0 {
            assert(b.contains(b[0]));
            assert(a.contains(b[0]));
        }
        assert(a =~= b);
    } else {
        assert(a.contains(a[0]));
        assert(b.contains(a[0]));
        let k = choose|k: int| 0 <= k < b.len() && b[k] == a[0];
        assert(b.contains(b[0]));
        assert(a.contains(b[0]));
        let m = choose|m: int| 0 <= m < a.len() && a[m] == b[0];
        if k > 0 && m > 0 {
            assert(may_precede(hits, b[0].id, b[k].id));
            assert(may_precede(hits, a[0].id, a[m].id));
            assert(a[0].id != a[m].id);
        }
        assert(a[0] == b[0]);
        let rest_a = a.drop_first();
        let rest_b = b.drop_first();
        assert forall|row: FlakeRelease|
            #![trigger rest_a.contains(row)]
            #![trigger rest_b.contains(row)]
            rest_a.contains(row) <==> rest_b.contains(row) by {
            if rest_a.contains(row) {
                let i = choose|i: int| 0 <= i < rest_a.len() && rest_a[i] == row;
                assert(a[i + 1] == row);
                assert(a[0].id != a[i + 1].id);
                assert(a.contains(row));
                assert(b.contains(row));
                let j = choose|j: int| 0 <= j < b.len() && b[j] == row;
                assert(rest_b[j - 1] == row);
            }
            if rest_b.contains(row) {
                let i = choose|i: int| 0 <= i < rest_b.len() && rest_b[i] == row;
                assert(b[i + 1] == row);
                assert(b[0].id != b[i + 1].id);
                assert(b.contains(row));
                assert(a.contains(row));
                let j = choose|j: int| 0 <= j < a.len() && a[j] == row;
                assert(rest_a[j - 1] == row);
            }
        }
        assert forall|i: int, j: int| 0 <= i < j < rest_a.len() implies may_precede(
            hits,
            (#[trigger] rest_a[i]).id,
            (#[trigger] rest_a[j]).id,
        ) && rest_a[i].id != rest_a[j].id by {
            assert(rest_a[i] == a[i + 1] && rest_a[j] == a[j + 1]);
        }
        assert forall|i: int, j: int| 0 <= i < j < rest_b.len() implies may_precede(
            hits,
            (#[trigger] rest_b[i]).id,
            (#[trigger] rest_b[j]).id,
        ) && rest_b[i].id != rest_b[j].id by {
            assert(rest_b[i] == b[i + 1] && rest_b[j] == b[j + 1]);
        }
        lemma_order_is_unique(hits, rest_a, rest_b);
        assert(a =~= seq![a[0]] + rest_a);
        assert(b =~= seq![b[0]] + rest_b);
    }
}

/// The order in which the store hands its rows over does not matter: the
/// same rows, no two of them for one release, are ranked the same.
pub proof fn lemma_rank_ignores_store_order(
    hits: Seq<RelevanceHit>,
    rows: Seq<FlakeRelease>,
    shuffled: Seq<FlakeRelease>,
)
    requires
        distinct_releases(rows),
        distinct_releases(shuffled),
        same_rows(rows, shuffled),
    ensures
        ranked(hits, rows) == ranked(hits, shuffled),
{
    let a = ranked(hits, rows);
    let b = ranked(hits, shuffled);
    lemma_ranked(hits, rows);
    lemma_ranked(hits, shuffled);
    lemma_ranked_distinct(hits, rows);
    lemma_ranked_distinct(hits, shuffled);
    assert forall|row: FlakeRelease|
        #![trigger a.contains(row)]
        #![trigger b.contains(row)]
        a.contains(row) <==> b.contains(row) by {
        assert(rows.contains(row) <==> shuffled.contains(row));
    }
    lemma_order_is_unique(hits, a, b);
}

/// Where a row for the release `id`, which matched with `score`, goes into
/// `sorted`.
fn find_slot(hits: &Vec<RelevanceHit>, sorted: &Vec<FlakeRelease>, id: i32, score: u64) -> (at:
    usize)
    requires
        best_score(hits@, id) == Some(score),
    ensures
        at == slot(hits@, sorted@, id),
        at <= sorted@.len(),
{
    let mut at: usize = 0;
    assert(sorted@.subrange(0, sorted@.len() as int) =~= sorted@);
    while at < sorted.len()
        invariant
            at <= sorted@.len(),
            best_score(hits@, id) == Some(score),
            slot(hits@, sorted@, id) == at + slot(
                hits@,
                sorted@.subrange(at as int, sorted@.len() as int),
                id,
            ),
        decreases sorted.len() - at,
    {
        let ghost behind = sorted@.subrange(at as int, sorted@.len() as int);
        assert(behind.drop_first() =~= sorted@.subrange(at + 1, sorted@.len() as int));
        let other = sorted[at].id;
        let first = match highest_score(hits, other) {
            Some(found) => found > score || (found == score && other < id),
            None => false,
        };
        if !first {
            return at;
        }
        at += 1;
    }
    at
}

/// Ranks the store's rows by the index's hits.
///
/// Rows that the hits do not name are dropped; a hit without a row adds
/// nothing. The rows that stay come from the best match down, and by rising
/// identifier where the match is equally good. Of several hits for one release
/// the highest score counts.
pub fn rank(hits: &Vec<RelevanceHit>, rows: Vec<FlakeRelease>) -> (out: Vec<FlakeRelease>)
    ensures
        out@ == ranked(hits@, rows@),
        in_rank_order(hits@, out@),
        out@.to_multiset() == rows@.filter(|row: FlakeRelease| is_named(hits@, row)).to_multiset(),
        out@.len() <= rows@.len(),
        forall|row: FlakeRelease| #[trigger]
            out@.contains(row) <==> rows@.contains(row) && is_named(hits@, row),
{
    let ghost all = rows@;
    let mut rest = rows;
    let mut out: Vec<FlakeRelease> = Vec::new();
    while rest.len() > 0
        invariant
            rest@.len() <= all.len(),
            rest@ == all.subrange(0, rest@.len() as int),
            out@ == ranked(hits@, all.subrange(rest@.len() as int, all.len() as int)),
        decreases rest.len(),
    {
        let ghost before = all.subrange(rest@.len() as int, all.len() as int);
        let row = rest.pop().unwrap();
        let ghost now = all.subrange(rest@.len() as int, all.len() as int);
        assert(now.drop_first() =~= before);
        match highest_score(hits, row.id) {
            None => {},
            Some(score) => {
                let at = find_slot(hits, &out, row.id, score);
                out.insert(at, row);
            },
        }
    }
    assert(all.subrange(0, all.len() as int) =~= all);
    proof {
        lemma_ranked(hits@, all);
    }
    out
}

} // verus!
