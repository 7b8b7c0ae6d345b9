//! The failures that a lookup can end in.

use vstd::prelude::*;
use vstd::std_specs::convert::FromSpecImpl;

verus! {

/// The status of an answer that reports a failure of the server.
pub const STATUS_SERVER_ERROR: u16 = 500;

/// The status of an answer that reports that there is no such resource.
pub const STATUS_NO_SUCH_RESOURCE: u16 = 404;

/// The three conditions that callers tell apart.
#[derive(Clone, Copy, Debug, PartialEq, Eq, Structural)]
pub enum ErrorKind {
    /// The search index could not be reached, or its answer could not be read.
    IndexUnavailable,
    /// The relational store could not be reached, or a query failed.
    StorageUnavailable,
    /// A single release was asked for and no row matches.
    NotFound,
}

/// What exactly went wrong.
#[derive(Clone, Copy, Debug, PartialEq, Eq, Structural)]
pub enum Fault {
    /// The search request did not reach the index.
    RequestNotSent,
    /// The index answered with something that is not JSON.
    ResponseNotDecoded,
    /// The answer holds no array of hits.
    HitsMissing,
    /// A hit's identifier is not a string.
    IdentifierNotText,
    /// A hit's identifier is a string that is not a decimal identifier.
    IdentifierNotNumber,
    /// A hit's score is not a number.
    ScoreNotNumber,
    /// The lookup of summaries by identifier failed.
    FetchByIds,
    /// The listing of recent releases failed.
    FetchRecent,
    /// The listing of an owner's releases failed.
    FetchOwner,
    /// The listing of a repository's releases failed.
    FetchRepo,
    /// The lookup of one version failed.
    FetchVersion,
    /// The lookup of one version found no row.
    NoSuchRelease,
}

impl Fault {
    /// The condition under which this fault is reported.
    pub open spec fn spec_kind(self) -> ErrorKind {
        match self {
            Fault::RequestNotSent
            | Fault::ResponseNotDecoded
            | Fault::HitsMissing
            | Fault::IdentifierNotText
            | Fault::IdentifierNotNumber
            | Fault::ScoreNotNumber => ErrorKind::IndexUnavailable,
            Fault::FetchByIds
            | Fault::FetchRecent
            | Fault::FetchOwner
            | Fault::FetchRepo
            | Fault::FetchVersion => ErrorKind::StorageUnavailable,
            Fault::NoSuchRelease => ErrorKind::NotFound,
        }
    }

    /// The condition under which this fault is reported.
    #[verifier::when_used_as_spec(spec_kind)]
    pub fn kind(self) -> (kind: ErrorKind)
        ensures
            kind == self.spec_kind(),
    {
        match self {
            Fault::RequestNotSent
            | Fault::ResponseNotDecoded
            | Fault::HitsMissing
            | Fault::IdentifierNotText
            | Fault::IdentifierNotNumber
            | Fault::ScoreNotNumber => ErrorKind::IndexUnavailable,
            Fault::FetchByIds
            | Fault::FetchRecent
            | Fault::FetchOwner
            | Fault::FetchRepo
            | Fault::FetchVersion => ErrorKind::StorageUnavailable,
            Fault::NoSuchRelease => ErrorKind::NotFound,
        }
    }

    /// What the client is told about this fault.
    pub open spec fn spec_message(self) -> Seq<char> {
        match self {
            Fault::RequestNotSent => "Failed to send opensearch request"@,
            Fault::ResponseNotDecoded => "Failed to decode opensearch response as json"@,
            Fault::HitsMissing => "failed to extract hits from open search response"@,
            Fault::IdentifierNotText => "failed to read id as string from open search hit"@,
            Fault::IdentifierNotNumber => "failed to parse id from open search hit"@,
            Fault::ScoreNotNumber => "failed to parse score from open search hit"@,
            Fault::FetchByIds => "Failed to fetch flakes by id from database"@,
            Fault::FetchRecent => "Failed to fetch flakes from database"@,
            Fault::FetchOwner => "Failed to fetch owner from database"@,
            Fault::FetchRepo => "Failed to fetch owner and repo from database"@,
            Fault::FetchVersion => "Failed to fetch release by version from database"@,
            Fault::NoSuchRelease => "Release not found"@,
        }
    }

    /// What the client is told about this fault.
    pub fn message(self) -> (text: &'static str)
        ensures
            text@ == self.spec_message(),
    {
        match self {
            Fault::RequestNotSent => "Failed to send opensearch request",
            Fault::ResponseNotDecoded => "Failed to decode opensearch response as json",
            Fault::HitsMissing => "failed to extract hits from open search response",
            Fault::IdentifierNotText => "failed to read id as string from open search hit",
            Fault::IdentifierNotNumber => "failed to parse id from open search hit",
            Fault::ScoreNotNumber => "failed to parse score from open search hit",
            Fault::FetchByIds => "Failed to fetch flakes by id from database",
            Fault::FetchRecent => "Failed to fetch flakes from database",
            Fault::FetchOwner => "Failed to fetch owner from database",
            Fault::FetchRepo => "Failed to fetch owner and repo from database",
            Fault::FetchVersion => "Failed to fetch release by version from database",
            Fault::NoSuchRelease => "Release not found",
        }
    }
}

/// The error that every read operation reports.
#[derive(Clone, Copy, Debug, PartialEq, Eq, Structural)]
pub struct AppError {
    /// What went wrong.
    pub fault: Fault,
}

impl AppError {
    /// The condition that the caller sees.
    pub open spec fn spec_kind(&self) -> ErrorKind {
        self.fault.spec_kind()
    }

    /// The condition that the caller sees.
    #[verifier::when_used_as_spec(spec_kind)]
    pub fn kind(&self) -> (kind: ErrorKind)
        ensures
            kind == self.spec_kind(),
    {
        self.fault.kind()
    }

    /// The status of the answer that reports this error: that there is no such
    /// resource for `NotFound`, a failure of the server for the other two.
    pub open spec fn spec_status(&self) -> u16 {
        match self.spec_kind() {
            ErrorKind::NotFound => STATUS_NO_SUCH_RESOURCE,
            _ => STATUS_SERVER_ERROR,
        }
    }

    /// The status of the answer that reports this error.
    #[verifier::when_used_as_spec(spec_status)]
    pub fn status(&self) -> (status: u16)
        ensures
            status == self.spec_status(),
    {
        match self.kind() {
            ErrorKind::NotFound => STATUS_NO_SUCH_RESOURCE,
            _ => STATUS_SERVER_ERROR,
        }
    }

    /// What the client is told about this error.
    pub fn message(&self) -> (text: String)
        ensures
            text@ == self.fault.spec_message(),
    {
        self.fault.message().to_owned()
    }
}

impl From<Fault> for AppError {
    fn from(fault: Fault) -> (error: AppError) {
        AppError { fault }
    }
}

impl FromSpecImpl<Fault> for AppError {
    open spec fn obeys_from_spec() -> bool {
        true
    }

    open spec fn from_spec(fault: Fault) -> AppError {
        AppError { fault }
    }
}

} // verus!
