use mdbrowser::version::get_file_git_version;

fn commit_file(
    repo: &git2::Repository,
    content: &[u8],
    parent: Option<&git2::Commit>,
) -> git2::Oid {
    let blob = repo.blob(content).unwrap();
    let mut builder = repo.treebuilder(None).unwrap();
    builder.insert("notes.md", blob, 0o100644).unwrap();
    let tree_id = builder.write().unwrap();
    let tree = repo.find_tree(tree_id).unwrap();
    let sig = git2::Signature::now("tester", "tester@localhost").unwrap();
    let parents: Vec<&git2::Commit> = match parent {
        Some(p) => vec![p],
        None => vec![],
    };
    repo.commit(Some("HEAD"), &sig, &sig, "change notes", &tree, &parents).unwrap()
}

#[test]
fn annotation_matches_expected_shape() {
    let dir = "/tmp/mdbrowser_version_probe";
    let repo = git2::Repository::init(dir).unwrap();
    let existing = repo.head().ok().and_then(|h| h.peel_to_commit().ok());
    let first = commit_file(&repo, b"alpha\n", existing.as_ref());
    let first_commit = repo.find_commit(first).unwrap();
    let second = commit_file(&repo, b"beta\n", Some(&first_commit));
    let second_commit = repo.find_commit(second).unwrap();
    let mut checkout = git2::build::CheckoutBuilder::new();
    checkout.force();
    repo.checkout_head(Some(&mut checkout)).unwrap();

    let clean = get_file_git_version(dir, "/notes.md").unwrap();
    let clean_pattern = regex::Regex::new(
        r"^<div class='version'>version: [0-9a-f]{8}@\S+ last modified at \d{4}-\d{2}-\d{2} \d{2}:\d{2}:\d{2}</div>$",
    )
    .unwrap();
    assert!(clean_pattern.is_match(&clean), "unexpected annotation: {}", clean);

    commit_file(&repo, b"gamma\n", Some(&second_commit));
    let dirty = get_file_git_version(dir, "notes.md").unwrap();
    let dirty_pattern = regex::Regex::new(
        r"^<div class='version'>version: [0-9a-f]{8}\+@\S+ last modified at \d{4}-\d{2}-\d{2} \d{2}:\d{2}:\d{2}</div>$",
    )
    .unwrap();
    assert!(dirty_pattern.is_match(&dirty), "unexpected annotation: {}", dirty);
}

#[test]
fn missing_repository_yields_no_annotation() {
    let r = get_file_git_version("/tmp/mdbrowser_no_such_repo_here", "notes.md");
    assert!(r.is_none());
}

#[test]
fn selection_takes_first_single_parent_match() {
    let metas: Vec<(usize, i64)> = vec![(2, 10), (1, 9), (1, 8)];
    let changed: Vec<Vec<String>> = vec![
        vec!["notes.md".to_string()],
        vec!["other.md".to_string(), "notes.md".to_string()],
        vec!["notes.md".to_string()],
    ];
    let norm = "notes.md".to_string();
    assert_eq!(mdbrowser::version::pick_version(&metas, &changed, &norm), Some(1));
}

#[test]
fn selection_skips_merges_and_misses() {
    let metas: Vec<(usize, i64)> = vec![(2, 10), (0, 9), (1, 8)];
    let changed: Vec<Vec<String>> = vec![
        vec![],
        vec![],
        vec!["other.md".to_string()],
    ];
    let norm = "notes.md".to_string();
    assert_eq!(mdbrowser::version::pick_version(&metas, &changed, &norm), None);
}
