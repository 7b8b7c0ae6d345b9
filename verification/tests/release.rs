use backend_rs::error::{AppError, ErrorKind, Fault};
use backend_rs::release::{Column, FlakeRelease, Release};

fn text(value: &str) -> Option<String> {
    Some(value.to_string())
}

#[test]
fn a_summary_is_put_together_from_its_columns() {
    let release =
        FlakeRelease::from_columns(Some(3), text("nixos"), text("nixpkgs"), text("23.05"), text("packages"), Some(17))
            .unwrap();
    assert_eq!(release.id, 3);
    assert_eq!(release.owner, "nixos");
    assert_eq!(release.repo, "nixpkgs");
    assert_eq!(release.version, "23.05");
    assert_eq!(release.description, "packages");
    assert_eq!(release.created_at, 17);
}

#[test]
fn an_absent_description_is_empty_and_no_error() {
    let release =
        FlakeRelease::from_columns(Some(3), text("nixos"), text("nixpkgs"), text("23.05"), None, Some(17)).unwrap();
    assert_eq!(release.description, "");
}

#[test]
fn the_first_absent_column_of_a_summary_is_named() {
    let all = |id: Option<i32>,
               owner: Option<String>,
               repo: Option<String>,
               version: Option<String>,
               created_at: Option<i64>| {
        FlakeRelease::from_columns(id, owner, repo, version, text("d"), created_at).map(|release| release.id)
    };
    assert_eq!(all(None, None, None, None, None), Err(Column::Id));
    assert_eq!(all(None, text("o"), text("r"), text("v"), Some(1)), Err(Column::Id));
    assert_eq!(all(Some(1), None, None, None, None), Err(Column::Owner));
    assert_eq!(all(Some(1), text("o"), None, text("v"), None), Err(Column::Repo));
    assert_eq!(all(Some(1), text("o"), text("r"), None, None), Err(Column::Version));
    assert_eq!(all(Some(1), text("o"), text("r"), text("v"), None), Err(Column::CreatedAt));
    assert_eq!(all(Some(1), text("o"), text("r"), text("v"), Some(1)), Ok(1));
}

#[test]
fn summaries_are_equal_when_they_stand_for_one_release() {
    let one = FlakeRelease::from_columns(Some(3), text("a"), text("b"), text("c"), None, Some(1)).unwrap();
    let same = FlakeRelease::from_columns(Some(3), text("a"), text("b"), text("c"), text("told"), Some(1)).unwrap();
    let other = FlakeRelease::from_columns(Some(4), text("a"), text("b"), text("c"), None, Some(1)).unwrap();
    assert!(one == same);
    assert!(one != other);
}

#[test]
fn a_full_release_is_put_together_from_its_columns() {
    let meta: serde_json::Value = serde_json::from_str("{\"description\":\"x\"}").unwrap();
    let release = Release::from_columns(
        Some(8),
        Some(2),
        text("README.md"),
        text("# hello"),
        text("23.05"),
        text("abc123"),
        None,
        Some(99),
        Some(meta.clone()),
        None,
        None,
        Some(vec![String::from("no outputs")]),
    )
    .unwrap();
    assert_eq!(release.id, 8);
    assert_eq!(release.repo_id, 2);
    assert_eq!(release.readme_filename.as_deref(), Some("README.md"));
    assert_eq!(release.readme.as_deref(), Some("# hello"));
    assert_eq!(release.version, "23.05");
    assert_eq!(release.commit, "abc123");
    assert_eq!(release.description, "");
    assert_eq!(release.created_at, 99);
    assert_eq!(release.meta_data, Some(meta));
    assert_eq!(release.meta_data_errors, None);
    assert_eq!(release.outputs, None);
    assert_eq!(release.outputs_errors, Some(vec![String::from("no outputs")]));
}

#[test]
fn the_first_absent_column_of_a_full_release_is_named() {
    let all = |id: Option<i32>,
               repo_id: Option<i32>,
               version: Option<String>,
               commit: Option<String>,
               created_at: Option<i64>| {
        Release::from_columns(id, repo_id, None, None, version, commit, None, created_at, None, None, None, None)
            .map(|release| release.id)
    };
    assert_eq!(all(None, None, None, None, None), Err(Column::Id));
    assert_eq!(all(Some(1), None, None, None, None), Err(Column::RepoId));
    assert_eq!(all(Some(1), Some(2), None, None, None), Err(Column::Version));
    assert_eq!(all(Some(1), Some(2), text("v"), None, None), Err(Column::Commit));
    assert_eq!(all(Some(1), Some(2), text("v"), text("c"), None), Err(Column::CreatedAt));
    assert_eq!(all(Some(1), Some(2), text("v"), text("c"), Some(5)), Ok(1));
}

#[test]
fn columns_have_their_names() {
    assert_eq!(Column::Id.name(), "id");
    assert_eq!(Column::Owner.name(), "owner");
    assert_eq!(Column::Repo.name(), "repo");
    assert_eq!(Column::Version.name(), "version");
    assert_eq!(Column::CreatedAt.name(), "created_at");
    assert_eq!(Column::RepoId.name(), "repo_id");
    assert_eq!(Column::Commit.name(), "commit");
}

#[test]
fn each_fault_has_its_condition_status_and_words() {
    let table = vec![
        (Fault::RequestNotSent, ErrorKind::IndexUnavailable, 500, "Failed to send opensearch request"),
        (Fault::ResponseNotDecoded, ErrorKind::IndexUnavailable, 500, "Failed to decode opensearch response as json"),
        (Fault::HitsMissing, ErrorKind::IndexUnavailable, 500, "failed to extract hits from open search response"),
        (Fault::IdentifierNotText, ErrorKind::IndexUnavailable, 500, "failed to read id as string from open search hit"),
        (Fault::IdentifierNotNumber, ErrorKind::IndexUnavailable, 500, "failed to parse id from open search hit"),
        (Fault::ScoreNotNumber, ErrorKind::IndexUnavailable, 500, "failed to parse score from open search hit"),
        (Fault::FetchByIds, ErrorKind::StorageUnavailable, 500, "Failed to fetch flakes by id from database"),
        (Fault::FetchRecent, ErrorKind::StorageUnavailable, 500, "Failed to fetch flakes from database"),
        (Fault::FetchOwner, ErrorKind::StorageUnavailable, 500, "Failed to fetch owner from database"),
        (Fault::FetchRepo, ErrorKind::StorageUnavailable, 500, "Failed to fetch owner and repo from database"),
        (Fault::FetchVersion, ErrorKind::StorageUnavailable, 500, "Failed to fetch release by version from database"),
        (Fault::NoSuchRelease, ErrorKind::NotFound, 404, "Release not found"),
    ];
    for (fault, kind, status, words) in table {
        let error = AppError::from(fault);
        assert_eq!(error, AppError { fault });
        assert_eq!(fault.kind(), kind);
        assert_eq!(error.kind(), kind);
        assert_eq!(error.status(), status);
        assert_eq!(fault.message(), words);
        assert_eq!(error.message(), words);
    }
}
