use dupe_scan::fingerprint::{ContentHasher, Fingerprint};
use dupe_scan::scan::{DupeScan, EntryKind, EntryOutcome, SkipReason};

fn fingerprint(data: &[u8]) -> Fingerprint {
    let mut hasher = ContentHasher::new();
    hasher.absorb(data);
    hasher.finish()
}

fn file(data: &[u8]) -> EntryOutcome {
    EntryOutcome::File(fingerprint(data))
}

fn names(scan: &DupeScan, group: usize) -> Vec<String> {
    scan.index()[group].files.iter().map(|f| f.name.clone()).collect()
}

#[test]
fn new_session_is_empty() {
    let scan = DupeScan::new();
    assert!(scan.directories().is_empty());
    assert!(scan.index().is_empty());
    assert!(scan.skipped().is_empty());
    assert!(scan.groups_with_duplicates().is_empty());
}

#[test]
fn identical_files_form_one_duplicate_group() {
    let mut scan = DupeScan::new();
    let root = scan.register_root("R".to_string());
    assert_eq!(scan.scan_entry("a".to_string(), root, file(b"hello")), None);
    assert_eq!(scan.scan_entry("b".to_string(), root, file(b"hello")), None);
    assert_eq!(scan.scan_entry("c".to_string(), root, file(b"world")), None);

    assert_eq!(scan.index().len(), 2);
    assert_eq!(names(&scan, 0), vec!["a", "b"]);
    assert_eq!(names(&scan, 1), vec!["c"]);
    let dups = scan.groups_with_duplicates();
    assert_eq!(dups.len(), 1);
    assert_eq!(dups[0].fingerprint, fingerprint(b"hello"));
    assert_eq!(dups[0].files.len(), 2);
}

#[test]
fn duplicates_across_directories_share_a_group() {
    let mut scan = DupeScan::new();
    let root = scan.register_root("R".to_string());
    let sub = scan.scan_entry("S".to_string(), root, EntryOutcome::Directory);
    assert_eq!(sub, Some(1));
    let sub = sub.unwrap();
    scan.scan_entry("d".to_string(), sub, file(b"hello"));
    scan.scan_entry("a".to_string(), root, file(b"hello"));

    let dups = scan.groups_with_duplicates();
    assert_eq!(dups.len(), 1);
    let parents: Vec<usize> = dups[0].files.iter().map(|f| f.parent_id).collect();
    assert_eq!(parents, vec![sub, root]);
    assert_eq!(names(&scan, 0), vec!["d", "a"]);
}

#[test]
fn unsupported_entry_is_only_logged() {
    let mut scan = DupeScan::new();
    let root = scan.register_root("R".to_string());
    assert_eq!(scan.scan_entry("pipe".to_string(), root, EntryOutcome::Unsupported), None);
    scan.scan_entry("a".to_string(), root, file(b"hello"));

    assert_eq!(scan.directories().len(), 1);
    assert_eq!(scan.index().len(), 1);
    assert_eq!(names(&scan, 0), vec!["a"]);
    assert_eq!(scan.skipped().len(), 1);
    assert_eq!(scan.skipped()[0].name, "pipe");
    assert_eq!(scan.skipped()[0].parent_id, root);
    assert_eq!(scan.skipped()[0].reason, SkipReason::UnsupportedType);
}

#[test]
fn failed_entry_is_skipped_and_siblings_continue() {
    let mut scan = DupeScan::new();
    let root = scan.register_root("R".to_string());
    assert_eq!(scan.scan_entry("locked".to_string(), root, EntryOutcome::Failed), None);
    scan.scan_entry("a".to_string(), root, file(b"x"));
    scan.scan_entry("b".to_string(), root, file(b"x"));

    assert_eq!(scan.directories().len(), 1);
    assert_eq!(scan.skipped().len(), 1);
    assert_eq!(scan.skipped()[0].reason, SkipReason::Unreadable);
    assert_eq!(scan.groups_with_duplicates().len(), 1);
}

#[test]
fn directory_ids_increase_and_parents_come_first() {
    let mut scan = DupeScan::new();
    let r0 = scan.register_root("R".to_string());
    let a = scan.register_dir("A".to_string(), r0);
    let b = scan.register_dir("B".to_string(), a);
    let r1 = scan.register_root("Q".to_string());
    let c = scan.register_dir("C".to_string(), r0);
    assert_eq!(vec![r0, a, b, r1, c], vec![0, 1, 2, 3, 4]);
    for (id, dir) in scan.directories().iter().enumerate() {
        assert!(dir.parent_id <= id);
    }
    assert_eq!(scan.directories()[r1].parent_id, r1);
    assert_eq!(scan.directories()[r1].name, "Q");
}

#[test]
fn ancestors_walk_up_to_the_root() {
    let mut scan = DupeScan::new();
    let _other = scan.register_root("Q".to_string());
    let root = scan.register_root("R".to_string());
    let a = scan.register_dir("A".to_string(), root);
    let b = scan.register_dir("B".to_string(), a);
    assert_eq!(scan.ancestors(b), vec![b, a, root]);
    assert_eq!(scan.ancestors(root), vec![root]);
}

#[test]
fn group_of_finds_by_fingerprint() {
    let mut scan = DupeScan::new();
    let root = scan.register_root("R".to_string());
    assert_eq!(scan.record_file(fingerprint(b"one"), "x".to_string(), root), 0);
    assert_eq!(scan.record_file(fingerprint(b"two"), "y".to_string(), root), 1);
    assert_eq!(scan.record_file(fingerprint(b"one"), "z".to_string(), root), 0);
    let g = scan.group_of(&fingerprint(b"one")).unwrap();
    assert_eq!(g.files.len(), 2);
    assert_eq!(g.files[1].name, "z");
    assert!(scan.group_of(&fingerprint(b"three")).is_none());
    assert_eq!(scan.find_group(&fingerprint(b"two")), Some(1));
}

#[test]
fn classify_prefers_file_then_directory() {
    assert_eq!(EntryKind::classify(true, false), EntryKind::File);
    assert_eq!(EntryKind::classify(true, true), EntryKind::File);
    assert_eq!(EntryKind::classify(false, true), EntryKind::Directory);
    assert_eq!(EntryKind::classify(false, false), EntryKind::Unsupported);
}

#[test]
fn same_entries_give_the_same_grouping() {
    let run = || {
        let mut scan = DupeScan::new();
        let root = scan.register_root("R".to_string());
        let s = scan.scan_entry("S".to_string(), root, EntryOutcome::Directory).unwrap();
        scan.scan_entry("d".to_string(), s, file(b"hello"));
        scan.scan_entry("a".to_string(), root, file(b"hello"));
        scan.scan_entry("c".to_string(), root, file(b"world"));
        scan.scan_entry("p".to_string(), root, EntryOutcome::Unsupported);
        scan
    };
    let first = run();
    let second = run();
    assert_eq!(first.index().len(), second.index().len());
    for g in 0..first.index().len() {
        assert_eq!(first.index()[g].fingerprint, second.index()[g].fingerprint);
        assert_eq!(names(&first, g), names(&second, g));
    }
}

#[test]
fn fingerprints_sharing_a_bucket_stay_apart() {
    let mut scan = DupeScan::new();
    let root = scan.register_root("R".to_string());
    let mut first = [7u8; 32];
    let mut second = [7u8; 32];
    first[31] = 1;
    second[31] = 2;
    assert_eq!(scan.record_file(first, "x".to_string(), root), 0);
    assert_eq!(scan.record_file(second, "y".to_string(), root), 1);
    assert_eq!(scan.record_file(second, "z".to_string(), root), 1);
    assert_eq!(scan.record_file(first, "w".to_string(), root), 0);
    assert_eq!(names(&scan, 0), vec!["x", "w"]);
    assert_eq!(names(&scan, 1), vec!["y", "z"]);
    assert_eq!(scan.group_of(&[7u8; 32]).map(|g| g.files.len()), None);
}
