//! Releases as the store holds them and as the answers carry them.

use serde_json::Value;
use vstd::prelude::*;
use vstd::std_specs::cmp::PartialEqSpecImpl;

verus! {

/// A column of a row that stands for a release.
#[derive(Clone, Copy, Debug, PartialEq, Eq, Structural)]
pub enum Column {
    /// The release's identifier.
    Id,
    /// The owner's name.
    Owner,
    /// The repository's name.
    Repo,
    /// The version string.
    Version,
    /// The time of creation.
    CreatedAt,
    /// The repository's identifier.
    RepoId,
    /// The commit that the release was cut from.
    Commit,
}

impl Column {
    /// The column's name in a row.
    pub open spec fn spec_name(self) -> Seq<char> {
        match self {
            Column::Id => "id"@,
            Column::Owner => "owner"@,
            Column::Repo => "repo"@,
            Column::Version => "version"@,
            Column::CreatedAt => "created_at"@,
            Column::RepoId => "repo_id"@,
            Column::Commit => "commit"@,
        }
    }

    /// The column's name in a row.
    pub fn name(self) -> (name: &'static str)
        ensures
            name@ == self.spec_name(),
    {
        match self {
            Column::Id => "id",
            Column::Owner => "owner",
            Column::Repo => "repo",
            Column::Version => "version",
            Column::CreatedAt => "created_at",
            Column::RepoId => "repo_id",
            Column::Commit => "commit",
        }
    }
}

/// The summary of one release, as listings and search results carry it.
///
/// `created_at` counts microseconds since the start of 1970. Two summaries
/// are equal when they stand for the same release, that is, when their
/// identifiers are equal.
#[derive(Clone, Debug)]
pub struct FlakeRelease {
    /// The release's identifier in the store; answers do not show it.
    pub id: i32,
    /// The owner's name.
    pub owner: String,
    /// The repository's name.
    pub repo: String,
    /// The version string.
    pub version: String,
    /// The description; empty where the store holds none.
    pub description: String,
    /// The time of creation.
    pub created_at: i64,
}

impl PartialEq for FlakeRelease {
    fn eq(&self, other: &Self) -> (equal: bool) {
        self.id == other.id
    }
}

impl PartialEqSpecImpl for FlakeRelease {
    open spec fn obeys_eq_spec() -> bool {
        true
    }

    open spec fn eq_spec(&self, other: &Self) -> bool {
        self.id == other.id
    }
}

impl Eq for FlakeRelease {

}

/// The first column that a summary needs and that is absent, given which are
/// present.
pub open spec fn missing_summary_column(
    id: bool,
    owner: bool,
    repo: bool,
    version: bool,
    created_at: bool,
) -> Option<Column> {
    if !id {
        Some(Column::Id)
    } else if !owner {
        Some(Column::Owner)
    } else if !repo {
        Some(Column::Repo)
    } else if !version {
        Some(Column::Version)
    } else if !created_at {
        Some(Column::CreatedAt)
    } else {
        None
    }
}

/// The text of `value`, and the empty text where there is none.
pub open spec fn text_or_empty(value: Option<String>) -> Seq<char> {
    match value {
        Some(text) => text@,
        None => Seq::empty(),
    }
}

impl FlakeRelease {
    /// Puts a summary together from the columns of a row, each present or
    /// absent.
    ///
    /// The identifier, the owner, the repository, the version and the time of
    /// creation are needed: the first of them that is absent, in this order, is
    /// the error. An absent description is the empty text.
    pub fn from_columns(
        id: Option<i32>,
        owner: Option<String>,
        repo: Option<String>,
        version: Option<String>,
        description: Option<String>,
        created_at: Option<i64>,
    ) -> (outcome: Result<FlakeRelease, Column>)
        ensures
            match outcome {
                Ok(release) => {
                    &&& id == Some(release.id)
                    &&& owner == Some(release.owner)
                    &&& repo == Some(release.repo)
                    &&& version == Some(release.version)
                    &&& release.description@ == text_or_empty(description)
                    &&& created_at == Some(release.created_at)
                },
                Err(column) => missing_summary_column(
                    id is Some,
                    owner is Some,
                    repo is Some,
                    version is Some,
                    created_at is Some,
                ) == Some(column),
            },
    {
        let id = match id {
            Some(id) => id,
            None => {
                return Err(Column::Id);
            },
        };
        let owner = match owner {
            Some(owner) => owner,
            None => {
                return Err(Column::Owner);
            },
        };
        let repo = match repo {
            Some(repo) => repo,
            None => {
                return Err(Column::Repo);
            },
        };
        let version = match version {
            Some(version) => version,
            None => {
                return Err(Column::Version);
            },
        };
        let created_at = match created_at {
            Some(created_at) => created_at,
            None => {
                return Err(Column::CreatedAt);
            },
        };
        let description = match description {
            Some(description) => description,
            None => String::new(),
        };
        Ok(FlakeRelease { id, owner, repo, version, description, created_at })
    }
}

/// One release in full, as the lookup of a single version carries it.
///
/// `created_at` counts microseconds since the start of 1970.
#[derive(Clone, Debug)]
pub struct Release {
    /// The release's identifier in the store; answers do not show it.
    pub id: i32,
    /// The repository's identifier in the store.
    pub repo_id: i32,
    /// The name of the readme file, where there is one.
    pub readme_filename: Option<String>,
    /// The readme's text, where there is one.
    pub readme: Option<String>,
    /// The version string.
    pub version: String,
    /// The commit that the release was cut from.
    pub commit: String,
    /// The description; empty where the store holds none.
    pub description: String,
    /// The time of creation.
    pub created_at: i64,
    /// The flake's metadata, where it could be read at publication.
    pub meta_data: Option<Value>,
    /// What was wrong with the metadata at publication.
    pub meta_data_errors: Option<Vec<String>>,
    /// The flake's outputs, where they could be read at publication.
    pub outputs: Option<Value>,
    /// What was wrong with the outputs at publication.
    pub outputs_errors: Option<Vec<String>>,
}

/// The first column that a full release needs and that is absent, given which
/// are present.
pub open spec fn missing_release_column(
    id: bool,
    repo_id: bool,
    version: bool,
    commit: bool,
    created_at: bool,
) -> Option<Column> {
    if !id {
        Some(Column::Id)
    } else if !repo_id {
        Some(Column::RepoId)
    } else if !version {
        Some(Column::Version)
    } else if !commit {
        Some(Column::Commit)
    } else if !created_at {
        Some(Column::CreatedAt)
    } else {
        None
    }
}

impl Release {
    /// Puts a full release together from the columns of a row, each present or
    /// absent.
    ///
    /// The identifier, the repository's identifier, the version, the commit and
    /// the time of creation are needed: the first of them that is absent, in
    /// this order, is the error. An absent description is the empty text; the
    /// other columns are handed on as they are.
    pub fn from_columns(
        id: Option<i32>,
        repo_id: Option<i32>,
        readme_filename: Option<String>,
        readme: Option<String>,
        version: Option<String>,
        commit: Option<String>,
        description: Option<String>,
        created_at: Option<i64>,
        meta_data: Option<Value>,
        meta_data_errors: Option<Vec<String>>,
        outputs: Option<Value>,
        outputs_errors: Option<Vec<String>>,
    ) -> (outcome: Result<Release, Column>)
        ensures
            match outcome {
                Ok(release) => {
                    &&& id == Some(release.id)
                    &&& repo_id == Some(release.repo_id)
                    &&& release.readme_filename == readme_filename
                    &&& release.readme == readme
                    &&& version == Some(release.version)
                    &&& commit == Some(release.commit)
                    &&& release.description@ == text_or_empty(description)
                    &&& created_at == Some(release.created_at)
                    &&& release.meta_data == meta_data
                    &&& release.meta_data_errors == meta_data_errors
                    &&& release.outputs == outputs
                    &&& release.outputs_errors == outputs_errors
                },
                Err(column) => missing_release_column(
                    id is Some,
                    repo_id is Some,
                    version is Some,
                    commit is Some,
                    created_at is Some,
                ) == Some(column),
            },
    {
        let id = match id {
            Some(id) => id,
            None => {
                return Err(Column::Id);
            },
        };
        let repo_id = match repo_id {
            Some(repo_id) => repo_id,
            None => {
                return Err(Column::RepoId);
            },
        };
        let version = match version {
            Some(version) => version,
            None => {
                return Err(Column::Version);
            },
        };
        let commit = match commit {
            Some(commit) => commit,
            None => {
                return Err(Column::Commit);
            },
        };
        let created_at = match created_at {
            Some(created_at) => created_at,
            None => {
                return Err(Column::CreatedAt);
            },
        };
        let description = match description {
            Some(description) => description,
            None => String::new(),
        };
        Ok(
            Release {
                id,
                repo_id,
                readme_filename,
                readme,
                version,
                commit,
                description,
                created_at,
                meta_data,
                meta_data_errors,
                outputs,
                outputs_errors,
            },
        )
    }
}

/// The answer to a search or to the listing of recent releases.
#[derive(Clone, Debug)]
pub struct GetFlakeResponse {
    /// The releases, best match or newest first.
    pub releases: Vec<FlakeRelease>,
    /// How many releases the answer holds.
    pub count: usize,
    /// The text that was searched for, where there was one.
    pub query: Option<String>,
}

/// The answer to the listing of an owner's releases.
#[derive(Clone, Debug)]
pub struct GetOwnerResponse {
    /// The owner's releases, newest first.
    pub repos: Vec<FlakeRelease>,
}

/// The answer to the listing of a repository's releases.
#[derive(Clone, Debug)]
pub struct GetRepoResponse {
    /// The repository's releases.
    pub releases: Vec<FlakeRelease>,
}

} // verus!
