use tollgate::content_digest::ContentDigest;
use tollgate::clone_check::{verify_clone_tree, ObservedEntry};
use tollgate::clone_tree::{
    CloneError, CloneManifest, CloneWalk, EntryKind, FileFacts, FileKind, WalkAction,
};
use tollgate::paths::{absolute, join_path, plain_relative, validate_symlink};

fn facts(kind: FileKind, inode: u64, links: u64) -> FileFacts {
    FileFacts {
        kind,
        device: 1,
        inode,
        mode: 0o644,
        size: 5,
        links,
        owner: 501,
        modified: 0,
        modified_nanos: 0,
    }
}

#[test]
fn escaping_symlink_is_rejected() {
    assert!(validate_symlink("cache", "../../secret").is_err());
    assert!(validate_symlink("cache", "../shared/ok").is_ok());
}

#[test]
fn absolute_links_are_rejected() {
    assert!(validate_symlink("cache", "/etc/passwd").is_err());
    assert!(validate_symlink("a/b/c", "../../../x").is_ok());
    assert!(validate_symlink("a/b/c", "../../../../x").is_err());
}

#[test]
fn paths_are_told_apart() {
    assert!(absolute("/a"));
    assert!(!absolute("a"));
    assert_eq!(join_path("/a", "b"), "/a/b");
    assert_eq!(join_path("/a", "/b"), "/b");
    assert!(plain_relative("a/b"));
    assert!(!plain_relative("a/../b"));
    assert!(!plain_relative("/a"));
}

/// What is read of a file, in two pieces.
fn contents(bytes: &[u8]) -> ContentDigest {
    let mut contents = ContentDigest::new();
    contents.update(&bytes[..3]);
    contents.update(&bytes[3..]);
    contents
}

/// Clones a directory of two names of one file, and a link.
fn clone_small_tree() -> CloneManifest {
    let root = facts(FileKind::Directory, 10, 4);
    let (mut walk, action) =
        CloneWalk::begin("/source", &root, "/destination", false, Some(1), 501)
            .ok()
            .unwrap();
    assert!(matches!(action, WalkAction::List { ref path } if path.is_empty()));
    let action = walk
        .listed(&root, &vec!["b".into(), "a".into(), "l".into()])
        .ok()
        .unwrap();
    assert!(matches!(action, WalkAction::Look { ref path } if path == "a"));
    let action = walk
        .looked(&facts(FileKind::File, 20, 2), None)
        .ok()
        .unwrap();
    assert!(matches!(action, WalkAction::CloneFile { ref path } if path == "a"));
    let action = walk.made(Some(contents(b"one file")));
    assert!(matches!(action, WalkAction::LookAgain { ref path } if path == "a"));
    let action = walk
        .looked_again(&facts(FileKind::File, 20, 2))
        .ok()
        .unwrap();
    assert!(matches!(action, WalkAction::Look { ref path } if path == "b"));
    let action = walk
        .looked(&facts(FileKind::File, 20, 2), None)
        .ok()
        .unwrap();
    assert!(matches!(
        action,
        WalkAction::HardLink { ref path, ref original } if path == "b" && original == "a"
    ));
    walk.made(Some(contents(b"one file")));
    let action = walk
        .looked_again(&facts(FileKind::File, 20, 2))
        .ok()
        .unwrap();
    assert!(matches!(action, WalkAction::Look { ref path } if path == "l"));
    let action = walk
        .looked(&facts(FileKind::Symlink, 30, 1), Some("a"))
        .ok()
        .unwrap();
    assert!(matches!(
        action,
        WalkAction::MakeSymlink { ref path, ref target } if path == "l" && target == "a"
    ));
    walk.made(None);
    let action = walk
        .looked_again(&facts(FileKind::Symlink, 30, 1))
        .ok()
        .unwrap();
    assert!(matches!(action, WalkAction::LookAgain { ref path } if path.is_empty()));
    let action = walk.looked_again(&root).ok().unwrap();
    assert!(matches!(action, WalkAction::Done));
    walk.finish("/source", &root, &root).ok().unwrap()
}

#[test]
fn clone_tree_proves_regular_file_clones_and_preserves_hardlinks() {
    let manifest = clone_small_tree();
    assert!(manifest
        .entries
        .iter()
        .filter(|entry| matches!(entry.kind, EntryKind::File | EntryKind::Hardlink))
        .all(|entry| entry.clone_succeeded));
    let kinds: Vec<EntryKind> = manifest.entries.iter().map(|entry| entry.kind).collect();
    assert_eq!(
        kinds,
        [EntryKind::File, EntryKind::Hardlink, EntryKind::Symlink]
    );
    assert_eq!(manifest.entries[0].source_inode, manifest.entries[1].source_inode);
}

#[test]
fn what_cannot_be_cloned_is_refused() {
    let root = facts(FileKind::Directory, 10, 3);
    assert!(matches!(
        CloneWalk::begin("/s", &root, "/d", true, Some(1), 501),
        Err(CloneError::DestinationExists(_))
    ));
    assert!(matches!(
        CloneWalk::begin("/s", &root, "/d", false, Some(2), 501),
        Err(CloneError::CrossVolume)
    ));
    let (mut walk, _) = CloneWalk::begin("/s", &root, "/d", false, Some(1), 501)
        .ok()
        .unwrap();
    walk.listed(&root, &vec!["pipe".into()]).ok().unwrap();
    assert!(matches!(
        walk.looked(&facts(FileKind::Other, 40, 1), None),
        Err(CloneError::UnsafeEntry { .. })
    ));
}

#[test]
fn a_source_that_changes_is_noticed() {
    let root = facts(FileKind::Directory, 10, 3);
    let (mut walk, _) = CloneWalk::begin("/s", &root, "/d", false, Some(1), 501)
        .ok()
        .unwrap();
    walk.listed(&root, &vec!["a".into()]).ok().unwrap();
    walk.looked(&facts(FileKind::File, 20, 1), None).ok().unwrap();
    walk.made(Some(contents(b"one file")));
    let mut changed = facts(FileKind::File, 20, 1);
    changed.modified = 1;
    assert!(matches!(
        walk.looked_again(&changed),
        Err(CloneError::SourceChanged(_))
    ));
}

#[test]
fn a_clone_is_held_against_its_manifest() {
    let manifest = clone_small_tree();
    let root = facts(FileKind::Directory, 110, 4);
    let mut observed = vec![
        ObservedEntry {
            path: "a".into(),
            facts: facts(FileKind::File, 120, 2),
            contents: Some(contents(b"one file")),
            target: None,
        },
        ObservedEntry {
            path: "b".into(),
            facts: facts(FileKind::File, 120, 2),
            contents: Some(contents(b"one file")),
            target: None,
        },
        ObservedEntry {
            path: "l".into(),
            facts: facts(FileKind::Symlink, 130, 1),
            contents: None,
            target: Some("a".into()),
        },
    ];
    assert!(verify_clone_tree("/destination", &root, &manifest, &observed).is_ok());
    observed[0].contents = Some(contents(b"another file"));
    assert!(matches!(
        verify_clone_tree("/destination", &root, &manifest, &observed),
        Err(CloneError::SourceChanged(path)) if path == "a"
    ));
    observed[0].contents = Some(contents(b"one file"));
    observed.pop();
    assert!(matches!(
        verify_clone_tree("/destination", &root, &manifest, &observed),
        Err(CloneError::SourceChanged(path)) if path == "/destination"
    ));
}

#[test]
fn a_digest_is_that_of_all_pieces() {
    assert_eq!(
        ContentDigest::new().finish(),
        "af1349b9f5f9a1a6a0404dea36dcc9499bcb25c9adc112b7cc9a93cae41f3262"
    );
    let whole = blake3::hash(b"one file").to_hex().to_string();
    assert_eq!(contents(b"one file").finish(), whole);
    let manifest = clone_small_tree();
    assert_eq!(manifest.entries[0].structural_hash, Some(whole.clone()));
    assert_eq!(manifest.entries[1].structural_hash, Some(whole));
    assert_eq!(manifest.entries[2].structural_hash, None);
}
