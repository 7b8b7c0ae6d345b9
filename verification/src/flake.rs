//! The read operations: the search and listing of flakes, step by step, and
//! the three lookups by owner, repository and version.
//!
//! A search needs the index and then the store, and neither can be called
//! from here. So the operation is written as a machine: it is told what
//! happened, and says what to do next. Whoever drives it performs the action
//! and comes back with the outcome.

use crate::error::{AppError, ErrorKind, Fault};
use crate::index::{
    collect_hits, hits_of, lemma_hits_fault_is_of_index, raw_view, search_request, SearchRequest,
};
use crate::rank::{in_rank_order, is_named, lemma_ranked, rank, ranked};
use crate::release::{FlakeRelease, GetFlakeResponse, GetOwnerResponse, GetRepoResponse, Release};
use crate::score::{distinct_ids, first_seen, RelevanceHit};
use crate::store::{StoreReply, StoreRequest, VersionReply, LISTING_LIMIT};
use serde_json::Value;
use vstd::prelude::*;

verus! {

/// How far a search or listing has come.
#[derive(Clone, Debug)]
pub enum Stage {
    /// Nothing has been asked yet.
    Idle,
    /// The index has been asked, and its answer is awaited.
    Searching { query: String },
    /// The store has been asked for the releases that the index named.
    Ranking { query: String, hits: Vec<RelevanceHit> },
    /// The store has been asked for the newest releases.
    Listing,
    /// The answer has been given, or the failure reported.
    Done,
}

/// The index's answer to a search.
#[derive(Debug)]
pub enum IndexReply {
    /// The request did not reach the index.
    Unreachable,
    /// The index answered with something that is not JSON.
    Undecodable,
    /// The document that the index answered with.
    Document(Value),
}

/// What happened.
#[derive(Debug)]
pub enum Event {
    /// A client asked, with or without a text to search for.
    Asked { q: Option<String> },
    /// The index answered, or failed to.
    Index(IndexReply),
    /// The store answered, or failed to.
    Store(StoreReply),
}

/// What to do next.
#[derive(Clone, Debug)]
pub enum Action {
    /// Put this search to the index.
    Search(SearchRequest),
    /// Put this question to the store.
    Fetch(StoreRequest),
    /// Give the client this answer.
    Reply(GetFlakeResponse),
    /// Report this failure to the client.
    Fail(AppError),
    /// Nothing: the event was not awaited.
    Ignore,
}

/// One step of the machine: where it stands now, and what to do next.
#[derive(Clone, Debug)]
pub struct Step {
    /// The stage after the event.
    pub stage: Stage,
    /// The action that the event calls for.
    pub action: Action,
}

impl GetFlakeResponse {
    /// `self` carries these releases, their number, and this text as the one
    /// that was searched for.
    pub open spec fn carries(&self, releases: Seq<FlakeRelease>, query: Option<Seq<char>>) -> bool {
        &&& self.releases@ == releases
        &&& self.count == releases.len()
        &&& match query {
            Some(text) => self.query matches Some(echo) && echo@ == text,
            None => self.query is None,
        }
    }
}

/// The text to search for, where the client gave one that is not empty.
pub open spec fn search_text(q: Option<String>) -> Option<Seq<char>> {
    match q {
        Some(text) if text@.len() > 0 => Some(text@),
        _ => None,
    }
}

/// The step ends the operation with this failure.
pub open spec fn fails_with(step: Step, fault: Fault) -> bool {
    step.stage is Done && step.action == Action::Fail(AppError { fault })
}

/// The step ends the operation with an answer that carries these releases.
pub open spec fn replies_with(step: Step, releases: Seq<FlakeRelease>, query: Option<Seq<char>>) -> bool {
    step.stage is Done && (step.action matches Action::Reply(response) && response.carries(
        releases,
        query,
    ))
}

/// The step after a client's request: a search where there is a text to
/// search for, else the listing of the newest releases.
pub open spec fn follows_request(q: Option<String>, step: Step) -> bool {
    match search_text(q) {
        Some(text) => {
            &&& step.stage matches Stage::Searching { query } && query@ == text
            &&& step.action matches Action::Search(request) && request.asks_for(text)
        },
        None => step.stage is Listing && step.action == Action::Fetch(StoreRequest::Recent),
    }
}

/// What the index's answer comes to: the hits that it holds, or why there are
/// none to be had.
pub open spec fn index_outcome(reply: IndexReply) -> Result<Seq<RelevanceHit>, AppError> {
    match reply {
        IndexReply::Unreachable => Err(AppError { fault: Fault::RequestNotSent }),
        IndexReply::Undecodable => Err(AppError { fault: Fault::ResponseNotDecoded }),
        IndexReply::Document(doc) => hits_of(raw_view(doc)),
    }
}

/// The step after the search for `query` has come to `outcome`.
///
/// A failure of the index ends the operation, and the store is not asked. So
/// does an answer without hits, with an empty list. Else the store is asked
/// for the releases that the hits name, each once.
pub open spec fn follows_hits(
    query: String,
    outcome: Result<Seq<RelevanceHit>, AppError>,
    step: Step,
) -> bool {
    match outcome {
        Err(error) => fails_with(step, error.fault),
        Ok(hits) => if hits.len() == 0 {
            replies_with(step, Seq::empty(), Some(query@))
        } else {
            &&& step.stage matches Stage::Ranking { query: kept, hits: found } && kept@ == query@
                && found@ == hits
            &&& step.action matches Action::Fetch(StoreRequest::ByIds { ids }) && ids@
                == first_seen(hits)
        },
    }
}

/// The step after the index's answer to the search for `query`.
pub open spec fn follows_index(query: String, reply: IndexReply, step: Step) -> bool {
    follows_hits(query, index_outcome(reply), step)
}

/// The step after the store's answer with the releases that `hits` name: the
/// rows in the order of relevance.
pub open spec fn follows_rows(
    query: String,
    hits: Vec<RelevanceHit>,
    reply: StoreReply,
    step: Step,
) -> bool {
    match reply {
        StoreReply::Failed => fails_with(step, Fault::FetchByIds),
        StoreReply::Rows(rows) => replies_with(step, ranked(hits@, rows@), Some(query@)),
    }
}

/// The step after the store's answer with the newest releases: the rows as
/// they came.
pub open spec fn follows_listing(reply: StoreReply, step: Step) -> bool {
    match reply {
        StoreReply::Failed => fails_with(step, Fault::FetchRecent),
        StoreReply::Rows(rows) => replies_with(step, rows@, None),
    }
}

/// `step` is the machine's step from `stage` on `event`.
pub open spec fn follows(stage: Stage, event: Event, step: Step) -> bool {
    match (stage, event) {
        (Stage::Idle, Event::Asked { q }) => follows_request(q, step),
        (Stage::Searching { query }, Event::Index(reply)) => follows_index(query, reply, step),
        (Stage::Ranking { query, hits }, Event::Store(reply)) => follows_rows(
            query,
            hits,
            reply,
            step,
        ),
        (Stage::Listing, Event::Store(reply)) => follows_listing(reply, step),
        _ => step.stage == stage && step.action is Ignore,
    }
}

/// The rows are ordered from the newest down.
pub open spec fn newest_first(rows: Seq<FlakeRelease>) -> bool {
    forall|i: int, j: int|
        0 <= i < j < rows.len() ==> (#[trigger] rows[i]).created_at >= (#[trigger] rows[j]).created_at
}

/// A run of the machine from its start: the stages that it went through, the
/// events that it was told of, and the actions that it named.
pub open spec fn is_run(stages: Seq<Stage>, events: Seq<Event>, actions: Seq<Action>) -> bool {
    &&& stages.len() == events.len() + 1
    &&& actions.len() == events.len()
    &&& stages[0] is Idle
    &&& forall|k: int|
        0 <= k < events.len() ==> follows(
            stages[k],
            #[trigger] events[k],
            Step { stage: stages[k + 1], action: actions[k] },
        )
}

/// Once a run is done it stays done, and names no further action.
pub proof fn lemma_done_is_final(
    stages: Seq<Stage>,
    events: Seq<Event>,
    actions: Seq<Action>,
    from: int,
)
    requires
        is_run(stages, events, actions),
        0 <= from <= events.len(),
        stages[from] is Done,
    ensures
        forall|k: int|
            from <= k < events.len() ==> (#[trigger] actions[k]) is Ignore && stages[k + 1] is Done,
    decreases events.len() - from,
{
    if from < events.len() {
        assert(follows(
            stages[from],
            events[from],
            Step { stage: stages[from + 1], action: actions[from] },
        ));
        lemma_done_is_final(stages, events, actions, from + 1);
    }
}

/// A search that the index answers without a hit ends with an empty answer
/// that counts no release and repeats the text; the run never asks the store.
pub proof fn lemma_no_hits_no_fetch(
    stages: Seq<Stage>,
    events: Seq<Event>,
    actions: Seq<Action>,
    q: String,
    doc: Value,
)
    requires
        is_run(stages, events, actions),
        events.len() >= 2,
        events[0] == (Event::Asked { q: Some(q) }),
        q@.len() > 0,
        events[1] == Event::Index(IndexReply::Document(doc)),
        index_outcome(IndexReply::Document(doc)) == Ok::<Seq<RelevanceHit>, AppError>(Seq::empty()),
    ensures
        actions[1] matches Action::Reply(response) && response.carries(Seq::empty(), Some(q@)),
        forall|k: int| 0 <= k < actions.len() ==> !((#[trigger] actions[k]) is Fetch),
{
    assert(follows(stages[0], events[0], Step { stage: stages[1], action: actions[0] }));
    assert(follows(stages[1], events[1], Step { stage: stages[2], action: actions[1] }));
    lemma_done_is_final(stages, events, actions, 2);
}

/// A search on which the index fails, by not answering or by an answer that
/// cannot be read, ends with `IndexUnavailable`; the run never asks the
/// store.
pub proof fn lemma_index_failure_no_fetch(
    stages: Seq<Stage>,
    events: Seq<Event>,
    actions: Seq<Action>,
    q: String,
    reply: IndexReply,
)
    requires
        is_run(stages, events, actions),
        events.len() >= 2,
        events[0] == (Event::Asked { q: Some(q) }),
        q@.len() > 0,
        events[1] == Event::Index(reply),
        index_outcome(reply) is Err,
    ensures
        actions[1] matches Action::Fail(error) && error.spec_kind() == ErrorKind::IndexUnavailable,
        forall|k: int| 0 <= k < actions.len() ==> !((#[trigger] actions[k]) is Fetch),
{
    assert(follows(stages[0], events[0], Step { stage: stages[1], action: actions[0] }));
    assert(follows(stages[1], events[1], Step { stage: stages[2], action: actions[1] }));
    if let IndexReply::Document(doc) = reply {
        lemma_hits_fault_is_of_index(raw_view(doc));
    }
    lemma_done_is_final(stages, events, actions, 2);
}

/// A request without a text to search for asks the store for the newest
/// releases and answers with its rows as they came, with no text; the run
/// never asks the index. So where the store keeps to the limit and to the
/// order from the newest down, the answer does.
pub proof fn lemma_listing_never_searches(
    stages: Seq<Stage>,
    events: Seq<Event>,
    actions: Seq<Action>,
    q: Option<String>,
)
    requires
        is_run(stages, events, actions),
        events.len() >= 1,
        events[0] == (Event::Asked { q }),
        search_text(q) is None,
    ensures
        actions[0] == Action::Fetch(StoreRequest::Recent),
        forall|k: int| 0 <= k < actions.len() ==> !((#[trigger] actions[k]) is Search),
        events.len() >= 2 ==> (events[1] matches Event::Store(StoreReply::Rows(rows)) ==> {
            &&& actions[1] matches Action::Reply(response)
            &&& response.carries(rows@, None)
            &&& rows@.len() <= LISTING_LIMIT ==> response.count <= LISTING_LIMIT
            &&& newest_first(rows@) ==> newest_first(response.releases@)
        }),
{
    assert(follows(stages[0], events[0], Step { stage: stages[1], action: actions[0] }));
    if events.len() >= 2 {
        assert(follows(stages[1], events[1], Step { stage: stages[2], action: actions[1] }));
        match events[1] {
            Event::Store(reply) => {
                lemma_done_is_final(stages, events, actions, 2);
            },
            _ => {
                lemma_listing_waits(stages, events, actions, 1);
            },
        }
    }
}

/// A run that waits for the newest releases names no search from then on.
proof fn lemma_listing_waits(
    stages: Seq<Stage>,
    events: Seq<Event>,
    actions: Seq<Action>,
    from: int,
)
    requires
        is_run(stages, events, actions),
        0 <= from <= events.len(),
        stages[from] is Listing,
    ensures
        forall|k: int| from <= k < events.len() ==> !((#[trigger] actions[k]) is Search),
    decreases events.len() - from,
{
    if from < events.len() {
        assert(follows(
            stages[from],
            events[from],
            Step { stage: stages[from + 1], action: actions[from] },
        ));
        match events[from] {
            Event::Store(reply) => {
                lemma_done_is_final(stages, events, actions, from + 1);
            },
            _ => {
                lemma_listing_waits(stages, events, actions, from + 1);
            },
        }
    }
}

/// The store is asked for releases by identifier only on an answer of the
/// index that could be read and holds a hit, and then for the releases that
/// the hits name.
pub proof fn lemma_fetch_by_ids_follows_hits(stage: Stage, event: Event, step: Step)
    requires
        follows(stage, event, step),
        step.action matches Action::Fetch(StoreRequest::ByIds { .. }),
    ensures
        stage is Searching,
        event matches Event::Index(reply) && (index_outcome(reply) matches Ok(hits) && hits.len() > 0
            && (step.action matches Action::Fetch(StoreRequest::ByIds { ids }) && ids@
            == first_seen(hits))),
{
}

/// The answer to a search holds only rows that the store gave and that the
/// hits name, in the order of relevance, and counts them: a hit without a row
/// is left out and is no failure.
pub proof fn lemma_search_answer(query: String, hits: Vec<RelevanceHit>, rows: Vec<FlakeRelease>, step: Step)
    requires
        follows_rows(query, hits, StoreReply::Rows(rows), step),
    ensures
        step.action matches Action::Reply(response) && {
            &&& response.carries(ranked(hits@, rows@), Some(query@))
            &&& in_rank_order(hits@, response.releases@)
            &&& response.count <= rows@.len()
            &&& forall|row: FlakeRelease| #[trigger]
                response.releases@.contains(row) <==> rows@.contains(row) && is_named(hits@, row)
        },
{
    lemma_ranked(hits@, rows@);
}

/// The end of the operation with a failure.
fn fail(fault: Fault) -> (step: Step)
    ensures
        fails_with(step, fault),
{
    Step { stage: Stage::Done, action: Action::Fail(AppError { fault }) }
}

/// The end of the operation with an answer.
fn reply(releases: Vec<FlakeRelease>, query: Option<String>) -> (step: Step)
    ensures
        replies_with(
            step,
            releases@,
            match query {
                Some(text) => Some(text@),
                None => None,
            },
        ),
{
    let count: usize = releases.len();
    Step { stage: Stage::Done, action: Action::Reply(GetFlakeResponse { releases, count, query }) }
}

/// The step after a client's request.
pub fn on_request(q: Option<String>) -> (step: Step)
    ensures
        follows_request(q, step),
{
    match q {
        Some(text) => {
            if text.as_str().unicode_len() > 0 {
                let request = search_request(text.as_str());
                Step { stage: Stage::Searching { query: text }, action: Action::Search(request) }
            } else {
                Step { stage: Stage::Listing, action: Action::Fetch(StoreRequest::Recent) }
            }
        },
        None => Step { stage: Stage::Listing, action: Action::Fetch(StoreRequest::Recent) },
    }
}

/// The step after the search for `query` has come to `outcome`.
pub fn on_hits(query: String, outcome: Result<Vec<RelevanceHit>, AppError>) -> (step: Step)
    ensures
        follows_hits(
            query,
            match outcome {
                Ok(hits) => Ok(hits@),
                Err(error) => Err(error),
            },
            step,
        ),
{
    match outcome {
        Err(error) => fail(error.fault),
        Ok(hits) => {
            if hits.len() == 0 {
                reply(Vec::new(), Some(query))
            } else {
                let ids = distinct_ids(&hits);
                Step {
                    stage: Stage::Ranking { query, hits },
                    action: Action::Fetch(StoreRequest::ByIds { ids }),
                }
            }
        },
    }
}

/// The step after the index's answer to the search for `query`.
pub fn on_index_reply(query: String, answer: IndexReply) -> (step: Step)
    ensures
        follows_index(query, answer, step),
{
    let outcome = match answer {
        IndexReply::Unreachable => Err(AppError { fault: Fault::RequestNotSent }),
        IndexReply::Undecodable => Err(AppError { fault: Fault::ResponseNotDecoded }),
        IndexReply::Document(doc) => collect_hits(&doc),
    };
    on_hits(query, outcome)
}

/// The step after the store's answer with the releases that `hits` name.
pub fn on_rows(query: String, hits: Vec<RelevanceHit>, answer: StoreReply) -> (step: Step)
    ensures
        follows_rows(query, hits, answer, step),
{
    match answer {
        StoreReply::Failed => fail(Fault::FetchByIds),
        StoreReply::Rows(rows) => reply(rank(&hits, rows), Some(query)),
    }
}

/// The step after the store's answer with the newest releases.
pub fn on_listing(answer: StoreReply) -> (step: Step)
    ensures
        follows_listing(answer, step),
{
    match answer {
        StoreReply::Failed => fail(Fault::FetchRecent),
        StoreReply::Rows(rows) => reply(rows, None),
    }
}

/// The search and listing of flakes, one step at a time.
///
/// It starts in `Stage::Idle` with `Event::Asked`. Each step names an action;
/// the driver performs it and calls again with the stage that the step gave
/// and the event that the action ended in, until the action is a reply or a
/// failure. An event that the stage does not await changes nothing.
pub fn get_flake(stage: Stage, event: Event) -> (step: Step)
    ensures
        follows(stage, event, step),
{
    match (stage, event) {
        (Stage::Idle, Event::Asked { q }) => on_request(q),
        (Stage::Searching { query }, Event::Index(answer)) => on_index_reply(query, answer),
        (Stage::Ranking { query, hits }, Event::Store(answer)) => on_rows(query, hits, answer),
        (Stage::Listing, Event::Store(answer)) => on_listing(answer),
        (stage, _) => Step { stage, action: Action::Ignore },
    }
}

/// The answer to the listing of an owner's releases, from the store's answer
/// to `StoreRequest::ByOwner`.
pub fn get_owner(answer: StoreReply) -> (outcome: Result<GetOwnerResponse, AppError>)
    ensures
        match answer {
            StoreReply::Failed => outcome == Err::<GetOwnerResponse, AppError>(
                AppError { fault: Fault::FetchOwner },
            ),
            StoreReply::Rows(rows) => outcome matches Ok(response) && response.repos == rows,
        },
{
    match answer {
        StoreReply::Failed => Err(AppError { fault: Fault::FetchOwner }),
        StoreReply::Rows(rows) => Ok(GetOwnerResponse { repos: rows }),
    }
}

/// The answer to the listing of a repository's releases, from the store's
/// answer to `StoreRequest::ByOwnerAndRepo`.
pub fn get_repo(answer: StoreReply) -> (outcome: Result<GetRepoResponse, AppError>)
    ensures
        match answer {
            StoreReply::Failed => outcome == Err::<GetRepoResponse, AppError>(
                AppError { fault: Fault::FetchRepo },
            ),
            StoreReply::Rows(rows) => outcome matches Ok(response) && response.releases == rows,
        },
{
    match answer {
        StoreReply::Failed => Err(AppError { fault: Fault::FetchRepo }),
        StoreReply::Rows(rows) => Ok(GetRepoResponse { releases: rows }),
    }
}

/// The answer to the lookup of one version, from the store's answer to
/// `StoreRequest::OneVersion`: the release, and `NotFound` where no row
/// matches.
pub fn get_version(answer: VersionReply) -> (outcome: Result<Release, AppError>)
    ensures
        match answer {
            VersionReply::Failed => outcome == Err::<Release, AppError>(
                AppError { fault: Fault::FetchVersion },
            ),
            VersionReply::Missing => outcome == Err::<Release, AppError>(
                AppError { fault: Fault::NoSuchRelease },
            ),
            VersionReply::Found(release) => outcome == Ok::<Release, AppError>(release),
        },
{
    match answer {
        VersionReply::Failed => Err(AppError { fault: Fault::FetchVersion }),
        VersionReply::Missing => Err(AppError { fault: Fault::NoSuchRelease }),
        VersionReply::Found(release) => Ok(release),
    }
}

} // verus!
