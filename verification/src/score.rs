//! Relevance hits: which releases the index named for one query, and how
//! strongly each matched.

use vstd::prelude::*;

verus! {

/// The bit that tells a negative number's pattern from the others.
pub const SIGN_BIT: u64 = 0x8000_0000_0000_0000;

/// One release that the index named, with the strength of the match.
///
/// `score` is an ordinal: of two hits, the one with the larger score matched
/// better. It says nothing beyond the answer that it came in.
#[derive(Clone, Copy, Debug, PartialEq, Eq, Structural)]
pub struct RelevanceHit {
    /// The release's identifier in the store.
    pub id: i32,
    /// The strength of the match.
    pub score: u64,
}

/// The ordinal of a number given by its double-precision bit pattern.
///
/// Patterns without the sign bit keep their order and lie above all patterns
/// of negative numbers; among those the order is turned round. The sign bit
/// alone is the pattern of negative zero, which is zero as a number and has
/// the ordinal of zero.
pub open spec fn ordinal_of(bits: u64) -> u64 {
    if bits < SIGN_BIT {
        (bits + SIGN_BIT) as u64
    } else if bits == SIGN_BIT {
        SIGN_BIT
    } else {
        (u64::MAX - bits) as u64
    }
}

/// The ordinal of a number given by its double-precision bit pattern: larger
/// for a larger number, equal for equal numbers.
pub fn score_ordinal(bits: u64) -> (ordinal: u64)
    ensures
        ordinal == ordinal_of(bits),
{
    if bits < SIGN_BIT {
        bits + SIGN_BIT
    } else if bits == SIGN_BIT {
        SIGN_BIT
    } else {
        u64::MAX - bits
    }
}

/// The ordinal keeps the order of the patterns of numbers that are not
/// negative, gives both zeros one ordinal, puts every negative number below
/// them, and takes no two other patterns to one ordinal.
pub proof fn lemma_ordinal_order(a: u64, b: u64)
    ensures
        a < SIGN_BIT && b < SIGN_BIT ==> (a < b <==> ordinal_of(a) < ordinal_of(b)),
        ordinal_of(SIGN_BIT) == ordinal_of(0),
        a > SIGN_BIT && b <= SIGN_BIT ==> ordinal_of(a) < ordinal_of(b),
        a > SIGN_BIT && b > SIGN_BIT ==> (a < b <==> ordinal_of(a) > ordinal_of(b)),
        ordinal_of(a) == ordinal_of(b) ==> a == b || (a == 0 && b == SIGN_BIT) || (a == SIGN_BIT
            && b == 0),
{
}

/// The highest score that `hits` holds for `id`, and nothing where no hit
/// names it.
pub open spec fn best_score(hits: Seq<RelevanceHit>, id: i32) -> Option<u64>
    decreases hits.len(),
{
    if hits.len() == 0 {
        None
    } else {
        let earlier = best_score(hits.drop_last(), id);
        let hit = hits.last();
        if hit.id != id {
            earlier
        } else {
            match earlier {
                Some(score) if score >= hit.score => earlier,
                _ => Some(hit.score),
            }
        }
    }
}

/// The identifiers that `hits` names, each once, in the order in which they
/// first occur.
pub open spec fn first_seen(hits: Seq<RelevanceHit>) -> Seq<i32>
    decreases hits.len(),
{
    if hits.len() == 0 {
        Seq::empty()
    } else {
        let earlier = first_seen(hits.drop_last());
        if earlier.contains(hits.last().id) {
            earlier
        } else {
            earlier.push(hits.last().id)
        }
    }
}

/// `best_score` is the maximum: some hit for `id` carries it, and no hit for
/// `id` carries more; there is none exactly when no hit names `id`.
pub proof fn lemma_best_score_is_highest(hits: Seq<RelevanceHit>, id: i32)
    ensures
        match best_score(hits, id) {
            Some(score) => {
                &&& exists|i: int|
                    0 <= i < hits.len() && #[trigger] hits[i] == (RelevanceHit { id, score })
                &&& forall|i: int|
                    0 <= i < hits.len() && (#[trigger] hits[i]).id == id ==> hits[i].score
                        <= score
            },
            None => forall|i: int| 0 <= i < hits.len() ==> (#[trigger] hits[i]).id != id,
        },
    decreases hits.len(),
{
    if hits.len() > 0 {
        let front = hits.drop_last();
        lemma_best_score_is_highest(front, id);
        assert forall|i: int| 0 <= i < front.len() implies front[i] == hits[i] by {}
        match best_score(hits, id) {
            Some(score) => {
                if hits.last().id == id && hits.last().score == score {
                    assert(hits[hits.len() - 1] == (RelevanceHit { id, score }));
                } else {
                    let i = choose|i: int|
                        0 <= i < front.len() && #[trigger] front[i] == (RelevanceHit { id, score });
                    assert(hits[i] == (RelevanceHit { id, score }));
                }
                assert forall|i: int|
                    0 <= i < hits.len() && (#[trigger] hits[i]).id == id implies hits[i].score
                    <= score by {
                    if i < front.len() {
                        assert(front[i].id == id);
                    }
                }
            },
            None => {
                assert forall|i: int| 0 <= i < hits.len() implies (#[trigger] hits[i]).id
                    != id by {
                    if i < front.len() {
                        assert(front[i].id != id);
                    }
                }
            },
        }
    }
}

/// `first_seen` names no identifier twice, and names exactly the identifiers
/// of the hits.
pub proof fn lemma_first_seen(hits: Seq<RelevanceHit>)
    ensures
        first_seen(hits).no_duplicates(),
        first_seen(hits).len() <= hits.len(),
        forall|id: i32| #[trigger]
            first_seen(hits).contains(id) <==> best_score(hits, id) is Some,
    decreases hits.len(),
{
    if hits.len() > 0 {
        let front = hits.drop_last();
        let last = hits.last().id;
        lemma_first_seen(front);
        assert forall|id: i32| #[trigger]
            first_seen(hits).contains(id) <==> best_score(hits, id) is Some by {
            if first_seen(front).contains(last) {
            } else {
                let grown = first_seen(front).push(last);
                assert(grown[grown.len() - 1] == last);
                if first_seen(front).contains(id) {
                    let i = choose|i: int|
                        0 <= i < first_seen(front).len() && first_seen(front)[i] == id;
                    assert(grown[i] == id);
                }
            }
        }
    }
}

/// The highest score that `hits` holds for `id`.
pub fn highest_score(hits: &Vec<RelevanceHit>, id: i32) -> (found: Option<u64>)
    ensures
        found == best_score(hits@, id),
{
    let mut found: Option<u64> = None;
    let mut k: usize = 0;
    while k < hits.len()
        invariant
            k <= hits.len(),
            found == best_score(hits@.subrange(0, k as int), id),
        decreases hits.len() - k,
    {
        let hit = hits[k];
        assert(hits@.subrange(0, k + 1).drop_last() =~= hits@.subrange(0, k as int));
        if hit.id == id {
            found =
            match found {
                Some(score) if score >= hit.score => found,
                _ => Some(hit.score),
            };
        }
        k += 1;
    }
    assert(hits@.subrange(0, k as int) =~= hits@);
    found
}

/// Whether `ids` holds `id`.
fn holds(ids: &Vec<i32>, id: i32) -> (found: bool)
    ensures
        found == ids@.contains(id),
{
    let mut k: usize = 0;
    while k < ids.len()
        invariant
            k <= ids.len(),
            forall|i: int| 0 <= i < k ==> ids@[i] != id,
        decreases ids.len() - k,
    {
        if ids[k] == id {
            return true;
        }
        k += 1;
    }
    false
}

/// The identifiers that `hits` names, each once, in the order in which they
/// first occur.
pub fn distinct_ids(hits: &Vec<RelevanceHit>) -> (ids: Vec<i32>)
    ensures
        ids@ == first_seen(hits@),
        ids@.no_duplicates(),
        ids@.len() <= hits@.len(),
        forall|id: i32| #[trigger] ids@.contains(id) <==> best_score(hits@, id) is Some,
{
    let mut ids: Vec<i32> = Vec::new();
    let mut k: usize = 0;
    while k < hits.len()
        invariant
            k <= hits.len(),
            ids@ == first_seen(hits@.subrange(0, k as int)),
        decreases hits.len() - k,
    {
        let id = hits[k].id;
        assert(hits@.subrange(0, k + 1).drop_last() =~= hits@.subrange(0, k as int));
        if !holds(&ids, id) {
            ids.push(id);
        }
        k += 1;
    }
    assert(hits@.subrange(0, k as int) =~= hits@);
    proof {
        lemma_first_seen(hits@);
    }
    ids
}

} // verus!
