use git2::Repository;
use skip_if_tree_ok_in_past::git::{get_tree_of_paths, oid_hex, refname_to_id};

struct Fixture {
    _dir: tempfile::TempDir,
    repo: Repository,
    commit: String,
    root_blob: String,
    nested_blob: String,
}

/// A bare repository whose one commit holds `root-1` at the top level and
/// `Service-A/file-A1` in a subdirectory.
fn fixture(root_content: &[u8], nested_content: &[u8]) -> Fixture {
    let dir = tempfile::tempdir().unwrap();
    let repo = Repository::init_bare(dir.path()).unwrap();
    let commit;
    let root_blob;
    let nested_blob;
    {
        let root_oid = repo.blob(root_content).unwrap();
        let nested_oid = repo.blob(nested_content).unwrap();
        let mut sub = repo.treebuilder(None).unwrap();
        sub.insert("file-A1", nested_oid, 0o100644).unwrap();
        let sub_oid = sub.write().unwrap();
        let mut top = repo.treebuilder(None).unwrap();
        top.insert("root-1", root_oid, 0o100644).unwrap();
        top.insert("Service-A", sub_oid, 0o040000).unwrap();
        let tree_oid = top.write().unwrap();
        let tree = repo.find_tree(tree_oid).unwrap();
        let sig = git2::Signature::now("tester", "tester@localhost").unwrap();
        let commit_oid = repo
            .commit(Some("HEAD"), &sig, &sig, "fixture", &tree, &[])
            .unwrap();
        commit = commit_oid.to_string();
        root_blob = root_oid.to_string();
        nested_blob = nested_oid.to_string();
    }
    Fixture {
        _dir: dir,
        repo,
        commit,
        root_blob,
        nested_blob,
    }
}

#[test]
fn fingerprint_of_one_path_is_its_object_id_line() {
    let fx = fixture(b"1\n", b"a\n");
    let tree = get_tree_of_paths(&fx.repo, &fx.commit, &vec!["root-1".to_string()]).unwrap();
    assert_eq!(tree, format!("{} root-1\n", fx.root_blob));
}

#[test]
fn fingerprint_lines_follow_the_input_order() {
    let fx = fixture(b"1\n", b"a\n");
    let paths = vec!["root-1".to_string(), "Service-A/file-A1".to_string()];
    let tree = get_tree_of_paths(&fx.repo, &fx.commit, &paths).unwrap();
    assert_eq!(
        tree,
        format!(
            "{} root-1\n{} Service-A/file-A1\n",
            fx.root_blob, fx.nested_blob
        )
    );
    let reversed = vec!["Service-A/file-A1".to_string(), "root-1".to_string()];
    let tree_reversed = get_tree_of_paths(&fx.repo, &fx.commit, &reversed).unwrap();
    assert_eq!(
        tree_reversed,
        format!(
            "{} Service-A/file-A1\n{} root-1\n",
            fx.nested_blob, fx.root_blob
        )
    );
    assert_ne!(tree, tree_reversed);
}

#[test]
fn an_empty_path_list_is_an_error_never_an_empty_fingerprint() {
    let fx = fixture(b"1\n", b"a\n");
    let err = get_tree_of_paths(&fx.repo, &fx.commit, &Vec::new())
        .err()
        .unwrap();
    assert_eq!(err.message(), "paths is empty");
}

#[test]
fn an_unparsable_commit_hash_is_an_error() {
    let fx = fixture(b"1\n", b"a\n");
    let err = get_tree_of_paths(&fx.repo, "zz", &vec!["root-1".to_string()])
        .err()
        .unwrap();
    assert_eq!(
        err.message(),
        "commit hash error: unable to parse OID - contains invalid characters; class=Invalid (3)"
    );
}

#[test]
fn a_missing_commit_is_an_error() {
    let fx = fixture(b"1\n", b"a\n");
    let err = get_tree_of_paths(
        &fx.repo,
        "0000000000000000000000000000000000000000",
        &vec!["root-1".to_string()],
    )
    .err()
    .unwrap();
    assert_eq!(
        err.message(),
        "commit 0000000000000000000000000000000000000000 not found error:: \
         odb: cannot read object: null OID cannot exist; class=Odb (9); code=NotFound (-3)"
    );
}

#[test]
fn a_path_missing_from_the_tree_is_an_error() {
    let fx = fixture(b"1\n", b"a\n");
    let paths = vec![
        "root-1".to_string(),
        "Service-A/file-A1".to_string(),
        "file-not-found".to_string(),
    ];
    let err = get_tree_of_paths(&fx.repo, &fx.commit, &paths).err().unwrap();
    assert_eq!(
        err.message(),
        format!(
            "tree of commit {} not found error: \
             the path 'file-not-found' does not exist in the given tree; \
             class=Tree (14); code=NotFound (-3)",
            fx.commit
        )
    );
}

#[test]
fn equal_content_gives_equal_fingerprints_across_commits() {
    let a = fixture(b"same\n", b"same nested\n");
    let b = fixture(b"same\n", b"same nested\n");
    let c = fixture(b"same\n", b"different nested\n");
    let paths = vec!["root-1".to_string(), "Service-A/file-A1".to_string()];
    let fp_a = get_tree_of_paths(&a.repo, &a.commit, &paths).unwrap();
    let fp_b = get_tree_of_paths(&b.repo, &b.commit, &paths).unwrap();
    let fp_c = get_tree_of_paths(&c.repo, &c.commit, &paths).unwrap();
    assert_eq!(fp_a, fp_b);
    assert_ne!(fp_a, fp_c);
}

fn history_job(id: u32, commit: &str) -> skip_if_tree_ok_in_past::jobs::GitlabJob {
    skip_if_tree_ok_in_past::jobs::GitlabJob {
        artifacts_expire_at: None,
        id,
        commit: skip_if_tree_ok_in_past::jobs::GitlabCommit {
            id: commit.to_string(),
        },
        job_ref: "branch1".to_string(),
        name: "jobA".to_string(),
        status: "success".to_string(),
        web_url: format!("https://gitlab.localhost/p/-/jobs/{id}"),
    }
}

#[test]
fn scan_page_finds_the_job_whose_commit_matches_head() {
    let fx = fixture(b"1\n", b"a\n");
    let other_blob = fx.repo.blob(b"2\n").unwrap();
    let mut top = fx.repo.treebuilder(None).unwrap();
    top.insert("root-1", other_blob, 0o100644).unwrap();
    let tree_oid = top.write().unwrap();
    let other_commit;
    {
        let tree = fx.repo.find_tree(tree_oid).unwrap();
        let sig = git2::Signature::now("tester", "tester@localhost").unwrap();
        other_commit = fx
            .repo
            .commit(None, &sig, &sig, "other", &tree, &[])
            .unwrap()
            .to_string();
    }
    let paths = vec!["root-1".to_string()];
    let head_tree = get_tree_of_paths(&fx.repo, &fx.commit, &paths).unwrap();
    let jobs = vec![
        history_job(1, &other_commit),
        history_job(2, &fx.commit),
        history_job(3, &fx.commit),
    ];
    let mut state = skip_if_tree_ok_in_past::search::SearchState::new();
    let found = state.scan_page(
        &fx.repo,
        &head_tree,
        &paths,
        &jobs,
        &"jobA".to_string(),
        &Some("branch1".to_string()),
    );
    assert_eq!(found.unwrap().id, 2);
    assert_eq!(state.examined, 2);
    assert_eq!(state.same_ref, 2);
    assert_eq!(state.pages_done, 1);
}

#[test]
fn scan_page_treats_an_unreadable_commit_as_a_non_match() {
    let fx = fixture(b"1\n", b"a\n");
    let paths = vec!["root-1".to_string()];
    let head_tree = get_tree_of_paths(&fx.repo, &fx.commit, &paths).unwrap();
    let jobs = vec![
        history_job(1, "0000000000000000000000000000000000000000"),
        history_job(2, &fx.commit),
    ];
    let mut state = skip_if_tree_ok_in_past::search::SearchState::new();
    let found = state.scan_page(
        &fx.repo,
        &head_tree,
        &paths,
        &jobs,
        &"jobA".to_string(),
        &None,
    );
    assert_eq!(found.unwrap().id, 2);
}

#[test]
fn head_resolves_to_the_fixture_commit() {
    let fx = fixture(b"1\n", b"a\n");
    let head = refname_to_id(&fx.repo, "HEAD").unwrap();
    let hex = oid_hex(&head);
    assert_eq!(hex, fx.commit);
    assert_eq!(hex.len(), 40);
}
