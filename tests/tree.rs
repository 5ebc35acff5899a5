use repliktor::fingerprint::{fingerprint, FingerprintMap};
use repliktor::paths::FilePath;
use repliktor::tree::{
    classify, folder_compare, get_files_tree, needs_fingerprint, Classification, SourceEntry, WalkEntry,
};

fn entry(rel: &[&str], depth: usize, is_dir: bool) -> WalkEntry {
    let name = if rel.is_empty() { "root".to_string() } else { rel[rel.len() - 1].to_string() };
    WalkEntry {
        name,
        rel: FilePath { parts: rel.iter().map(|p| p.to_string()).collect() },
        depth,
        is_dir,
    }
}

#[test]
fn empty_directory_lists_root_only() {
    let entries = vec![entry(&[], 0, true)];
    let (text, count) = get_files_tree("/data/empty", &entries);
    assert_eq!(text, ". /data/empty\n");
    assert_eq!(count, 0);
}

#[test]
fn listing_counts_files_not_directories() {
    let entries = vec![
        entry(&[], 0, true),
        entry(&["d"], 1, true),
        entry(&["d", "x"], 2, false),
        entry(&["y"], 1, false),
    ];
    let (text, count) = get_files_tree("r", &entries);
    assert_eq!(count, 2);
    assert_eq!(text, ". r\n├── d\n├   ├── x\n└── y\n");
}

#[test]
fn nested_last_entry_rendering() {
    let entries = vec![entry(&[], 0, true), entry(&["d"], 1, true), entry(&["d", "x"], 2, false)];
    let (text, count) = get_files_tree("r", &entries);
    assert_eq!(count, 1);
    assert_eq!(text, ". r\n├── d\n└──── x\n");
}

#[test]
fn comparison_labels_unchanged_and_new() {
    let mut dest = FingerprintMap::new();
    dest.insert_file(FilePath { parts: vec!["a.txt".to_string()] }, b"alpha");
    let h1 = fingerprint(b"alpha");
    let source = vec![
        SourceEntry { entry: entry(&[], 0, true), fingerprint: None },
        SourceEntry { entry: entry(&["a.txt"], 1, false), fingerprint: Some(h1) },
        SourceEntry { entry: entry(&["b.txt"], 1, false), fingerprint: None },
    ];
    assert_eq!(classify(&dest, &source[1]), Classification::Unchanged);
    assert_eq!(classify(&dest, &source[2]), Classification::New);
    let (text, count) = folder_compare("src", &dest, &source);
    assert_eq!(text, ". src\n├── a.txt\n└── [NEW] b.txt\n");
    assert_eq!(count, 2);
}

#[test]
fn comparison_labels_changed_content() {
    let mut dest = FingerprintMap::new();
    dest.insert_file(FilePath { parts: vec!["a.txt".to_string()] }, b"alpha");
    let source = vec![
        SourceEntry { entry: entry(&[], 0, true), fingerprint: None },
        SourceEntry { entry: entry(&["a.txt"], 1, false), fingerprint: Some(fingerprint(b"beta")) },
    ];
    assert_eq!(classify(&dest, &source[1]), Classification::Changed);
    let (text, count) = folder_compare("src", &dest, &source);
    assert_eq!(text, ". src\n└── [CHANGED] a.txt\n");
    assert_eq!(count, 1);
}

#[test]
fn directories_are_not_classified() {
    let dest = FingerprintMap::new();
    let source = vec![
        SourceEntry { entry: entry(&[], 0, true), fingerprint: None },
        SourceEntry { entry: entry(&["d"], 1, true), fingerprint: None },
        SourceEntry { entry: entry(&["d", "n"], 2, false), fingerprint: None },
    ];
    assert_eq!(classify(&dest, &source[1]), Classification::Directory);
    let (text, count) = folder_compare("s", &dest, &source);
    assert_eq!(text, ". s\n├── d\n└──── [NEW] n\n");
    assert_eq!(count, 1);
}

#[test]
fn fingerprint_of_empty_input() {
    assert_eq!(fingerprint(b""), 0x2D06800538D394C2);
    assert_ne!(fingerprint(b"a"), fingerprint(b"b"));
}

#[test]
fn fingerprint_map_replaces_and_looks_up() {
    let mut m = FingerprintMap::new();
    let k = FilePath { parts: vec!["x".to_string(), "y".to_string()] };
    assert_eq!(m.get(&k), None);
    m.insert(FilePath { parts: vec!["x".to_string(), "y".to_string()] }, 5);
    assert_eq!(m.get(&k), Some(5));
    m.insert(FilePath { parts: vec!["x".to_string(), "y".to_string()] }, 6);
    assert_eq!(m.get(&k), Some(6));
    assert_eq!(m.get(&FilePath { parts: vec!["x".to_string()] }), None);
}

#[test]
fn fingerprint_needed_only_for_files_with_counterpart() {
    let mut dest = FingerprintMap::new();
    dest.insert_file(FilePath { parts: vec!["a.txt".to_string()] }, b"alpha");
    assert!(needs_fingerprint(&dest, &entry(&["a.txt"], 1, false)));
    assert!(!needs_fingerprint(&dest, &entry(&["b.txt"], 1, false)));
    assert!(!needs_fingerprint(&dest, &entry(&["a.txt"], 1, true)));
}

#[test]
fn listing_after_leaving_a_directory() {
    let entries = vec![
        entry(&[], 0, true),
        entry(&["d"], 1, true),
        entry(&["d", "x"], 2, false),
        entry(&["e"], 1, true),
        entry(&["e", "y"], 2, false),
        entry(&["z"], 1, false),
    ];
    let (text, count) = get_files_tree("r", &entries);
    assert_eq!(count, 3);
    assert_eq!(text, ". r\n├── d\n├   ├── x\n├── e\n├   ├── y\n└── z\n");
}
