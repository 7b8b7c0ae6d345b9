//! The relational store: what the library asks of it, in its own words, and
//! what it may answer.

use crate::decimal::{append_identifier, append_number, decimal_of, digits_of};
use crate::error::Fault;
use crate::release::{FlakeRelease, Release};
use vstd::prelude::*;

verus! {

/// The most releases that a listing returns.
pub const LISTING_LIMIT: u32 = 100;

/// One question to the store.
#[derive(Clone, Debug)]
pub enum StoreRequest {
    /// The summaries of the releases with these identifiers, as far as they
    /// exist, in no particular order.
    ByIds { ids: Vec<i32> },
    /// The summaries of the newest releases, newest first.
    Recent,
    /// The summaries of an owner's newest releases, newest first.
    ByOwner { owner: String },
    /// The summaries of all releases of one repository.
    ByOwnerAndRepo { owner: String, repo: String },
    /// One release in full.
    OneVersion { owner: String, repo: String, version: String },
}

/// The store's answer to a question for summaries.
#[derive(Clone, Debug)]
pub enum StoreReply {
    /// The store could not be reached, or the statement failed.
    Failed,
    /// The rows that the statement selected.
    Rows(Vec<FlakeRelease>),
}

/// The store's answer to the question for one release in full.
#[derive(Clone, Debug)]
pub enum VersionReply {
    /// The store could not be reached, or the statement failed.
    Failed,
    /// No row matches.
    Missing,
    /// The row that matches.
    Found(Release),
}

/// The columns of a summary, and the tables that they come from.
pub open spec fn summary_selection() -> Seq<char> {
    "SELECT release.id AS id, githubowner.name AS owner, githubrepo.name AS repo, release.version AS version, release.description AS description, release.created_at AS created_at FROM release INNER JOIN githubrepo ON githubrepo.id = release.repo_id INNER JOIN githubowner ON githubowner.id = githubrepo.owner_id"@
}

/// All columns of a release, and the tables that they come from.
pub open spec fn release_selection() -> Seq<char> {
    "SELECT * FROM release INNER JOIN githubrepo ON githubrepo.id = release.repo_id INNER JOIN githubowner ON githubowner.id = githubrepo.owner_id"@
}

/// Identifiers in decimal, with a comma between each two.
pub open spec fn id_list(ids: Seq<i32>) -> Seq<char>
    decreases ids.len(),
{
    if ids.len() == 0 {
        Seq::empty()
    } else if ids.len() == 1 {
        decimal_of(ids[0] as int)
    } else {
        id_list(ids.drop_last()) + seq![','] + decimal_of(ids.last() as int)
    }
}

/// The end of a listing's statement: newest first, and no more than
/// `LISTING_LIMIT` rows.
pub open spec fn newest_first_clause() -> Seq<char> {
    " ORDER BY release.created_at DESC LIMIT "@ + digits_of(LISTING_LIMIT as nat)
}

impl StoreRequest {
    /// The statement that puts this question.
    pub open spec fn statement_text(&self) -> Seq<char> {
        match self {
            StoreRequest::ByIds { ids } => summary_selection() + " WHERE release.id IN ("@
                + id_list(ids@) + ")"@,
            StoreRequest::Recent => summary_selection() + newest_first_clause(),
            StoreRequest::ByOwner { .. } => summary_selection() + " WHERE githubowner.name = $1"@
                + newest_first_clause(),
            StoreRequest::ByOwnerAndRepo { .. } => summary_selection()
                + " WHERE githubowner.name = $1 AND githubrepo.name = $2"@,
            StoreRequest::OneVersion { .. } => release_selection()
                + " WHERE githubowner.name = $1 AND githubrepo.name = $2 AND release.version = $3"@,
        }
    }

    /// The values that the statement's placeholders stand for, in their order.
    pub open spec fn parameter_texts(&self) -> Seq<Seq<char>> {
        match self {
            StoreRequest::ByIds { .. } => Seq::empty(),
            StoreRequest::Recent => Seq::empty(),
            StoreRequest::ByOwner { owner } => seq![owner@],
            StoreRequest::ByOwnerAndRepo { owner, repo } => seq![owner@, repo@],
            StoreRequest::OneVersion { owner, repo, version } => seq![owner@, repo@, version@],
        }
    }

    /// Whether the store has to be asked at all: a question for no identifier
    /// is answered without it.
    pub open spec fn spec_needs_store(&self) -> bool {
        match self {
            StoreRequest::ByIds { ids } => ids@.len() > 0,
            _ => true,
        }
    }

    /// The fault that is reported where the store fails on this question.
    pub open spec fn spec_fault(&self) -> Fault {
        match self {
            StoreRequest::ByIds { .. } => Fault::FetchByIds,
            StoreRequest::Recent => Fault::FetchRecent,
            StoreRequest::ByOwner { .. } => Fault::FetchOwner,
            StoreRequest::ByOwnerAndRepo { .. } => Fault::FetchRepo,
            StoreRequest::OneVersion { .. } => Fault::FetchVersion,
        }
    }

    /// Whether the store has to be asked at all. Where it has not, the answer
    /// is no rows.
    pub fn needs_store(&self) -> (needed: bool)
        ensures
            needed == self.spec_needs_store(),
    {
        match self {
            StoreRequest::ByIds { ids } => ids.len() > 0,
            _ => true,
        }
    }

    /// The answer that is known without the store, where there is one: no
    /// rows to a question for no identifier.
    pub fn ready_answer(&self) -> (answer: Option<StoreReply>)
        ensures
            match answer {
                Some(reply) => !self.spec_needs_store() && (reply matches StoreReply::Rows(rows)
                    && rows@.len() == 0),
                None => self.spec_needs_store(),
            },
    {
        if self.needs_store() {
            None
        } else {
            Some(StoreReply::Rows(Vec::new()))
        }
    }

    /// The fault that is reported where the store fails on this question.
    pub fn fault(&self) -> (fault: Fault)
        ensures
            fault == self.spec_fault(),
    {
        match self {
            StoreRequest::ByIds { .. } => Fault::FetchByIds,
            StoreRequest::Recent => Fault::FetchRecent,
            StoreRequest::ByOwner { .. } => Fault::FetchOwner,
            StoreRequest::ByOwnerAndRepo { .. } => Fault::FetchRepo,
            StoreRequest::OneVersion { .. } => Fault::FetchVersion,
        }
    }

    /// The statement that puts this question.
    pub fn statement(&self) -> (sql: String)
        ensures
            sql@ == self.statement_text(),
    {
        match self {
            StoreRequest::ByIds { ids } => {
                let mut sql = summary_select();
                sql.append(" WHERE release.id IN (");
                append_ids(&mut sql, ids);
                sql.append(")");
                sql
            },
            StoreRequest::Recent => {
                let mut sql = summary_select();
                append_newest_first(&mut sql);
                sql
            },
            StoreRequest::ByOwner { .. } => {
                let mut sql = summary_select();
                sql.append(" WHERE githubowner.name = $1");
                append_newest_first(&mut sql);
                sql
            },
            StoreRequest::ByOwnerAndRepo { .. } => {
                let mut sql = summary_select();
                sql.append(" WHERE githubowner.name = $1 AND githubrepo.name = $2");
                sql
            },
            StoreRequest::OneVersion { .. } => {
                let mut sql =
                    "SELECT * FROM release INNER JOIN githubrepo ON githubrepo.id = release.repo_id INNER JOIN githubowner ON githubowner.id = githubrepo.owner_id".to_owned();
                sql.append(
                    " WHERE githubowner.name = $1 AND githubrepo.name = $2 AND release.version = $3",
                );
                sql
            },
        }
    }

    /// The values that the statement's placeholders stand for, in their order.
    pub fn parameters(&self) -> (values: Vec<String>)
        ensures
            values@.len() == self.parameter_texts().len(),
            forall|i: int| 0 <= i < values@.len() ==> (#[trigger] values@[i])@ == self.parameter_texts()[i],
    {
        let mut values: Vec<String> = Vec::new();
        match self {
            StoreRequest::ByIds { .. } => {},
            StoreRequest::Recent => {},
            StoreRequest::ByOwner { owner } => {
                values.push(owner.clone());
            },
            StoreRequest::ByOwnerAndRepo { owner, repo } => {
                values.push(owner.clone());
                values.push(repo.clone());
            },
            StoreRequest::OneVersion { owner, repo, version } => {
                values.push(owner.clone());
                values.push(repo.clone());
                values.push(version.clone());
            },
        }
        values
    }
}

/// Every question for summaries selects the same columns from the same
/// tables, whatever it selects the rows by.
pub proof fn lemma_summaries_share_selection(request: StoreRequest)
    requires
        !(request is OneVersion),
    ensures
        summary_selection().is_prefix_of(request.statement_text()),
{
    let rest = request.statement_text().subrange(
        summary_selection().len() as int,
        request.statement_text().len() as int,
    );
    assert(request.statement_text() =~= summary_selection() + rest);
}

/// The selection of a summary's columns, as text to build on.
fn summary_select() -> (sql: String)
    ensures
        sql@ == summary_selection(),
{
    "SELECT release.id AS id, githubowner.name AS owner, githubrepo.name AS repo, release.version AS version, release.description AS description, release.created_at AS created_at FROM release INNER JOIN githubrepo ON githubrepo.id = release.repo_id INNER JOIN githubowner ON githubowner.id = githubrepo.owner_id".to_owned()
}

/// Appends the clause that orders a listing and bounds it.
fn append_newest_first(sql: &mut String)
    ensures
        final(sql)@ == old(sql)@ + newest_first_clause(),
{
    sql.append(" ORDER BY release.created_at DESC LIMIT ");
    append_number(sql, LISTING_LIMIT as u64);
}

/// Appends identifiers in decimal, with a comma between each two.
fn append_ids(sql: &mut String, ids: &Vec<i32>)
    ensures
        final(sql)@ == old(sql)@ + id_list(ids@),
{
    let mut k: usize = 0;
    while k < ids.len()
        invariant
            k <= ids.len(),
            sql@ == old(sql)@ + id_list(ids@.subrange(0, k as int)),
        decreases ids.len() - k,
    {
        let ghost done = ids@.subrange(0, k as int);
        let ghost next = ids@.subrange(0, k + 1);
        assert(next.drop_last() =~= done);
        if k > 0 {
            proof {
                reveal_strlit(",");
            }
            sql.append(",");
        }
        append_identifier(sql, ids[k]);
        k += 1;
    }
    assert(ids@.subrange(0, k as int) =~= ids@);
}

} // verus!
