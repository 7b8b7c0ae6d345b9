//! The relevance index: what a search asks of it, and how its answer is read.

use crate::decimal::{append_number, digits_of, identifier_of, parse_identifier};
use crate::error::{AppError, ErrorKind, Fault};
use crate::json::{items, json_items, json_member, json_number_bits, json_text, member, number_bits, text};
use crate::score::{ordinal_of, score_ordinal, RelevanceHit};
use serde_json::Value;
use vstd::prelude::*;

verus! {

/// The most hits that one search asks for, and the most that are taken from
/// one answer.
pub const MAX_HITS: usize = 10;

/// The status with which the index says that it holds no such index.
pub const STATUS_NOT_FOUND: u16 = 404;

/// The name of the index that holds the flakes.
pub fn index_name() -> (name: &'static str)
    ensures
        name@ == "flakes"@,
{
    "flakes"
}

/// One field that a search looks into, with the weight of a match there.
#[derive(Clone, Debug)]
pub struct SearchField {
    /// The field's name in the index.
    pub name: String,
    /// How much a match in this field counts; 1 is the plain weight.
    pub boost: u32,
}

/// What one search asks of the index.
#[derive(Clone, Debug)]
pub struct SearchRequest {
    /// The index to search.
    pub index: String,
    /// The most hits to return.
    pub size: usize,
    /// The text to look for.
    pub query: String,
    /// The tolerance for misspellings.
    pub fuzziness: String,
    /// The fields to look into, in the order in which they are sent.
    pub fields: Vec<SearchField>,
}

/// A field named as the index reads it: the bare name for the plain weight,
/// else the name, a caret and the weight.
pub open spec fn weighted_name(name: Seq<char>, boost: u32) -> Seq<char> {
    if boost == 1 {
        name
    } else {
        name + seq!['^'] + digits_of(boost as nat)
    }
}

impl SearchField {
    /// `self` has this name and this weight.
    pub open spec fn is(&self, name: Seq<char>, boost: u32) -> bool {
        self.name@ == name && self.boost == boost
    }

    /// The field as the index reads it.
    pub fn weighted(&self) -> (text: String)
        ensures
            text@ == weighted_name(self.name@, self.boost),
    {
        let mut text = self.name.clone();
        if self.boost != 1 {
            proof {
                reveal_strlit("^");
            }
            text.append("^");
            append_number(&mut text, self.boost as u64);
        }
        text
    }
}

/// A field of the given name and weight.
fn field(name: &str, boost: u32) -> (made: SearchField)
    ensures
        made.is(name@, boost),
{
    SearchField { name: name.to_owned(), boost }
}

impl SearchRequest {
    /// `self` is the search for `query`: at most `MAX_HITS` hits from the index
    /// of flakes, tolerant of misspellings, with a match in the description,
    /// the repository or the owner counting twice as much as one in the readme
    /// or the outputs.
    pub open spec fn asks_for(&self, query: Seq<char>) -> bool {
        &&& self.index@ == "flakes"@
        &&& self.size == MAX_HITS
        &&& self.query@ == query
        &&& self.fuzziness@ == "AUTO"@
        &&& self.fields@.len() == 5
        &&& self.fields@[0].is("description"@, 2)
        &&& self.fields@[1].is("readme"@, 1)
        &&& self.fields@[2].is("outputs"@, 1)
        &&& self.fields@[3].is("repo"@, 2)
        &&& self.fields@[4].is("owner"@, 2)
    }
}

/// The search for `query`.
pub fn search_request(query: &str) -> (request: SearchRequest)
    ensures
        request.asks_for(query@),
{
    let mut fields: Vec<SearchField> = Vec::new();
    fields.push(field("description", 2));
    fields.push(field("readme", 1));
    fields.push(field("outputs", 1));
    fields.push(field("repo", 2));
    fields.push(field("owner", 2));
    SearchRequest {
        index: index_name().to_owned(),
        size: MAX_HITS,
        query: query.to_owned(),
        fuzziness: "AUTO".to_owned(),
        fields,
    }
}

/// Whether the answer to a probe for the index says that it is not there yet,
/// so that it has to be created.
pub fn index_is_missing(status: u16) -> (missing: bool)
    ensures
        missing == (status == STATUS_NOT_FOUND),
{
    status == STATUS_NOT_FOUND
}

/// One hit as the answer holds it, before anything is decided about it.
#[derive(Clone, Debug)]
pub struct RawHit {
    /// The identifier's text, where the hit holds a string there.
    pub id: Option<String>,
    /// The score's bit pattern, where the hit holds a number there.
    pub score_bits: Option<u64>,
}

/// A raw hit as plain values.
pub struct RawHitView {
    /// The identifier's text, where the hit holds a string there.
    pub id: Option<Seq<char>>,
    /// The score's bit pattern, where the hit holds a number there.
    pub score_bits: Option<u64>,
}

impl View for RawHit {
    type V = RawHitView;

    open spec fn view(&self) -> RawHitView {
        RawHitView {
            id: match self.id {
                Some(text) => Some(text@),
                None => None,
            },
            score_bits: self.score_bits,
        }
    }
}

/// The raw hits of an answer as plain values, where the answer holds a list
/// of hits.
pub open spec fn answer_views(raws: Option<Vec<RawHit>>) -> Option<Seq<RawHitView>> {
    match raws {
        Some(list) => Some(raw_views(list@)),
        None => None,
    }
}

/// `outcome` is `expected`: the same hits in the same order, or the same
/// error.
pub open spec fn is_outcome(
    outcome: Result<Vec<RelevanceHit>, AppError>,
    expected: Result<Seq<RelevanceHit>, AppError>,
) -> bool {
    match outcome {
        Ok(hits) => expected == Ok::<Seq<RelevanceHit>, AppError>(hits@),
        Err(error) => expected == Err::<Seq<RelevanceHit>, AppError>(error),
    }
}

/// The hits of an answer as plain values.
pub open spec fn raw_views(list: Seq<RawHit>) -> Seq<RawHitView> {
    list.map_values(|raw: RawHit| raw@)
}

/// What a well-formed hit says, and else what is wrong with it: the
/// identifier is looked at first, then the score.
pub open spec fn hit_of(raw: RawHitView) -> Result<RelevanceHit, Fault> {
    match raw.id {
        None => Err(Fault::IdentifierNotText),
        Some(text) => match identifier_of(text) {
            None => Err(Fault::IdentifierNotNumber),
            Some(id) => match raw.score_bits {
                None => Err(Fault::ScoreNotNumber),
                Some(bits) => Ok(RelevanceHit { id, score: ordinal_of(bits) }),
            },
        },
    }
}

/// The hits that a list of raw hits holds, in the list's order; where one of
/// them is ill-formed, what is wrong with the first such.
pub open spec fn read_hits(raws: Seq<RawHitView>) -> Result<Seq<RelevanceHit>, Fault>
    decreases raws.len(),
{
    if raws.len() == 0 {
        Ok(Seq::empty())
    } else {
        match read_hits(raws.drop_last()) {
            Err(fault) => Err(fault),
            Ok(front) => match hit_of(raws.last()) {
                Err(fault) => Err(fault),
                Ok(hit) => Ok(front.push(hit)),
            },
        }
    }
}

/// The first `MAX_HITS` of the hits, or all of them where they are fewer.
pub open spec fn capped(hits: Seq<RelevanceHit>) -> Seq<RelevanceHit> {
    if hits.len() <= MAX_HITS {
        hits
    } else {
        hits.subrange(0, MAX_HITS as int)
    }
}

/// The hits of an answer, or why the answer cannot be used.
///
/// An answer without a list of hits cannot be used, and neither can one with
/// an ill-formed hit anywhere in its list. Of the hits of a well-formed list
/// the first `MAX_HITS` are taken.
pub open spec fn hits_of(raws: Option<Seq<RawHitView>>) -> Result<Seq<RelevanceHit>, AppError> {
    match raws {
        None => Err(AppError { fault: Fault::HitsMissing }),
        Some(list) => match read_hits(list) {
            Err(fault) => Err(AppError { fault }),
            Ok(hits) => Ok(capped(hits)),
        },
    }
}

/// `read_hits` succeeds exactly when every raw hit is well-formed, and then
/// gives hit for hit; it fails with the fault of the first ill-formed one.
pub proof fn lemma_read_hits(raws: Seq<RawHitView>)
    ensures
        match read_hits(raws) {
            Ok(hits) => {
                &&& hits.len() == raws.len()
                &&& forall|i: int| 0 <= i < raws.len() ==> hit_of(#[trigger] raws[i]) == Ok::<
                    RelevanceHit,
                    Fault,
                >(hits[i])
            },
            Err(fault) => exists|i: int|
                {
                    &&& 0 <= i < raws.len()
                    &&& hit_of(#[trigger] raws[i]) == Err::<RelevanceHit, Fault>(fault)
                    &&& forall|j: int| 0 <= j < i ==> hit_of(#[trigger] raws[j]) is Ok
                },
        },
    decreases raws.len(),
{
    if raws.len() > 0 {
        let front = raws.drop_last();
        lemma_read_hits(front);
        assert forall|i: int| 0 <= i < front.len() implies front[i] == raws[i] by {}
        match read_hits(front) {
            Err(fault) => {
                let i = choose|i: int|
                    {
                        &&& 0 <= i < front.len()
                        &&& hit_of(#[trigger] front[i]) == Err::<RelevanceHit, Fault>(fault)
                        &&& forall|j: int| 0 <= j < i ==> hit_of(#[trigger] front[j]) is Ok
                    };
                assert(hit_of(raws[i]) == Err::<RelevanceHit, Fault>(fault));
                assert forall|j: int| 0 <= j < i implies hit_of(#[trigger] raws[j]) is Ok by {
                    assert(hit_of(front[j]) is Ok);
                }
            },
            Ok(hits) => {
                match hit_of(raws.last()) {
                    Err(fault) => {
                        let i: int = raws.len() - 1;
                        assert(hit_of(raws[i]) == Err::<RelevanceHit, Fault>(fault));
                        assert forall|j: int| 0 <= j < i implies hit_of(#[trigger] raws[j]) is Ok by {
                            assert(hit_of(front[j]) is Ok);
                        }
                    },
                    Ok(hit) => {
                        assert forall|i: int| 0 <= i < raws.len() implies hit_of(
                            #[trigger] raws[i],
                        ) == Ok::<RelevanceHit, Fault>(hits.push(hit)[i]) by {
                            if i < front.len() {
                                assert(hit_of(front[i]) == Ok::<RelevanceHit, Fault>(hits[i]));
                            }
                        }
                    },
                }
            },
        }
    }
}

/// An answer can be used exactly when it holds a list of hits and every hit
/// of the list, however many there are, is well-formed.
pub proof fn lemma_hits_of_fails_on_any_ill_formed_hit(raws: Option<Seq<RawHitView>>)
    ensures
        hits_of(raws) is Ok <==> (raws matches Some(list) && forall|i: int|
            0 <= i < list.len() ==> hit_of(#[trigger] list[i]) is Ok),
{
    if let Some(list) = raws {
        lemma_read_hits(list);
    }
}

/// Whatever makes an answer unusable is reported as `IndexUnavailable`.
pub proof fn lemma_hits_fault_is_of_index(raws: Option<Seq<RawHitView>>)
    ensures
        hits_of(raws) matches Err(error) ==> error.spec_kind() == ErrorKind::IndexUnavailable,
{
    if let Some(list) = raws {
        lemma_read_hits(list);
    }
}

/// A fault among the first `k` raw hits is the fault of the whole list.
proof fn lemma_fault_stays(raws: Seq<RawHitView>, k: int)
    requires
        0 <= k <= raws.len(),
        read_hits(raws.subrange(0, k)) is Err,
    ensures
        read_hits(raws) == read_hits(raws.subrange(0, k)),
    decreases raws.len() - k,
{
    if k == raws.len() {
        assert(raws.subrange(0, k) =~= raws);
    } else {
        assert(raws.subrange(0, k + 1).drop_last() =~= raws.subrange(0, k));
        lemma_fault_stays(raws, k + 1);
    }
}

/// Decides about one raw hit.
pub fn hit_from_raw(raw: &RawHit) -> (outcome: Result<RelevanceHit, Fault>)
    ensures
        outcome == hit_of(raw@),
{
    match &raw.id {
        None => Err(Fault::IdentifierNotText),
        Some(text) => match parse_identifier(text.as_str()) {
            None => Err(Fault::IdentifierNotNumber),
            Some(id) => match raw.score_bits {
                None => Err(Fault::ScoreNotNumber),
                Some(bits) => Ok(RelevanceHit { id, score: score_ordinal(bits) }),
            },
        },
    }
}

/// Turns the raw hits of an answer into hits.
///
/// An answer without a list of hits is an error, and so is one with an
/// ill-formed hit anywhere in its list; an empty list is none. Every hit is
/// looked at, and of a well-formed list the first `MAX_HITS` are handed on.
pub fn hits_from_raw(raws: Option<Vec<RawHit>>) -> (outcome: Result<Vec<RelevanceHit>, AppError>)
    ensures
        is_outcome(outcome, hits_of(answer_views(raws))),
        outcome matches Ok(hits) ==> hits@.len() <= MAX_HITS,
{
    let list = match raws {
        None => {
            return Err(AppError { fault: Fault::HitsMissing });
        },
        Some(list) => list,
    };
    let ghost views = raw_views(list@);
    let ghost mut read: Seq<RelevanceHit> = Seq::empty();
    let mut hits: Vec<RelevanceHit> = Vec::new();
    let mut k: usize = 0;
    assert(views.subrange(0, 0) =~= Seq::<RawHitView>::empty());
    while k < list.len()
        invariant
            raws == Some(list),
            views == raw_views(list@),
            k <= list.len(),
            read_hits(views.subrange(0, k as int)) == Ok::<Seq<RelevanceHit>, Fault>(read),
            read.len() == k,
            hits@ == capped(read),
        decreases list.len() - k,
    {
        assert(views.subrange(0, k + 1).drop_last() =~= views.subrange(0, k as int));
        assert(views.subrange(0, k + 1).last() == list@[k as int]@);
        match hit_from_raw(&list[k]) {
            Err(fault) => {
                proof {
                    lemma_fault_stays(views, k + 1);
                }
                return Err(AppError { fault });
            },
            Ok(hit) => {
                if hits.len() < MAX_HITS {
                    hits.push(hit);
                }
                proof {
                    assert(capped(read.push(hit)) =~= if read.len() < MAX_HITS {
                        capped(read).push(hit)
                    } else {
                        capped(read)
                    });
                    read = read.push(hit);
                }
            },
        }
        k += 1;
    }
    assert(views.subrange(0, k as int) =~= views);
    Ok(hits)
}

/// The list of hits that an answer holds, where it holds one.
pub open spec fn hits_node(doc: Value) -> Option<Seq<Value>> {
    json_items(json_member(json_member(doc, "hits"@), "hits"@))
}

/// One element of the list of hits, as plain values.
pub open spec fn raw_of(item: Value) -> RawHitView {
    RawHitView {
        id: json_text(json_member(item, "_id"@)),
        score_bits: json_number_bits(json_member(item, "_score"@)),
    }
}

/// The raw hits that an answer holds, where it holds a list of hits.
pub open spec fn raw_view(doc: Value) -> Option<Seq<RawHitView>> {
    match hits_node(doc) {
        Some(list) => Some(list.map_values(|item: Value| raw_of(item))),
        None => None,
    }
}

/// Reads one element of the list of hits.
fn raw_hit(item: &Value) -> (raw: RawHit)
    ensures
        raw@ == raw_of(*item),
{
    let id = match text(member(item, "_id")) {
        Some(found) => Some(found.to_owned()),
        None => None,
    };
    RawHit { id, score_bits: number_bits(member(item, "_score")) }
}

/// Reads the raw hits out of an answer of the index: the elements of the
/// array under `hits`, `hits`, each with its `_id` and its `_score`.
pub fn raw_hits(doc: &Value) -> (raws: Option<Vec<RawHit>>)
    ensures
        match raws {
            Some(list) => raw_view(*doc) == Some(raw_views(list@)),
            None => raw_view(*doc) is None,
        },
{
    let list = match items(member(member(doc, "hits"), "hits")) {
        None => {
            return None;
        },
        Some(list) => list,
    };
    let mut raws: Vec<RawHit> = Vec::new();
    let mut k: usize = 0;
    while k < list.len()
        invariant
            k <= list.len(),
            hits_node(*doc) == Some(list@),
            raws@.len() == k,
            forall|i: int| 0 <= i < k ==> raws@[i]@ == raw_of(list@[i]),
        decreases list.len() - k,
    {
        raws.push(raw_hit(&list[k]));
        k += 1;
    }
    Some(raws)
}

/// Reads the hits out of an answer of the index.
pub fn collect_hits(doc: &Value) -> (outcome: Result<Vec<RelevanceHit>, AppError>)
    ensures
        is_outcome(outcome, hits_of(raw_view(*doc))),
        outcome matches Ok(hits) ==> hits@.len() <= MAX_HITS,
{
    hits_from_raw(raw_hits(doc))
}

} // verus!
