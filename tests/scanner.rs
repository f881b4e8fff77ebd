use std::collections::HashMap;

use disk_maid::filter::{file_matches, same_ignoring_ascii_case, wanted_extension};
use disk_maid::scan::{DirChild, EntryMeta, FileInfo, ScanStep, Scanner, MAX_DEPTH, MAX_ENTRIES};

fn file(path: &str, len: u64) -> DirChild {
    let ext = std::path::Path::new(path)
        .extension()
        .and_then(|e| e.to_str())
        .map(|e| e.to_string());
    DirChild { path: path.to_string(), meta: Some(EntryMeta { is_dir: false, len }), extension: ext }
}

fn dir(path: &str) -> DirChild {
    DirChild { path: path.to_string(), meta: Some(EntryMeta { is_dir: true, len: 4096 }), extension: None }
}

fn unreadable(path: &str) -> DirChild {
    DirChild { path: path.to_string(), meta: None, extension: None }
}

fn run(fs: &HashMap<String, Vec<DirChild>>, root: &str, filter: &str) -> (Vec<FileInfo>, Vec<String>) {
    let mut s = Scanner::new(root.to_string(), filter);
    let mut listed = Vec::new();
    loop {
        match s.next_step() {
            ScanStep::ListDir(p) => {
                listed.push(p.clone());
                s.supply_listing(fs.get(&p).cloned());
            }
            ScanStep::Finished => break,
        }
    }
    (s.into_files(), listed)
}

fn entry(path: &str, size: u64, is_dir: bool) -> FileInfo {
    FileInfo { path: path.to_string(), size, is_dir }
}

#[test]
fn small_tree_in_pre_order() {
    let mut fs = HashMap::new();
    fs.insert("r".to_string(), vec![dir("r/a"), file("r/x.txt", 10), dir("r/b")]);
    fs.insert("r/a".to_string(), vec![file("r/a/1.rs", 3), dir("r/a/c")]);
    fs.insert("r/a/c".to_string(), vec![file("r/a/c/z", 7)]);
    fs.insert("r/b".to_string(), vec![]);
    let (files, _) = run(&fs, "r", "*");
    assert_eq!(
        files,
        vec![
            entry("r/a", 0, true),
            entry("r/a/1.rs", 3, false),
            entry("r/a/c", 0, true),
            entry("r/a/c/z", 7, false),
            entry("r/x.txt", 10, false),
            entry("r/b", 0, true),
        ]
    );
}

#[test]
fn directory_of_filtered_files_still_reported() {
    let mut fs = HashMap::new();
    fs.insert("r".to_string(), vec![dir("r/d")]);
    fs.insert("r/d".to_string(), vec![file("r/d/a.jpg", 1), file("r/d/b.png", 2)]);
    let (files, _) = run(&fs, "r", "*.txt");
    assert_eq!(files, vec![entry("r/d", 0, true)]);
}

#[test]
fn depth_cap_cuts_deep_tree() {
    // d1 is a child of the root, d(k+1) a child of dk; each dk holds fk.
    let mut fs = HashMap::new();
    fs.insert("r".to_string(), vec![dir("r/d1")]);
    let mut path = "r/d1".to_string();
    for k in 1..=7 {
        let child = format!("{}/d{}", path, k + 1);
        fs.insert(path.clone(), vec![file(&format!("{}/f{}", path, k), k as u64), dir(&child)]);
        path = child;
    }
    let (files, listed) = run(&fs, "r", "*");
    assert_eq!(listed.len(), MAX_DEPTH + 1);
    // directories d1..d6 are reported, files f1..f5 too; nothing below d6.
    let dirs = files.iter().filter(|f| f.is_dir).count();
    let plain = files.iter().filter(|f| !f.is_dir).count();
    assert_eq!(dirs, 6);
    assert_eq!(plain, 5);
    assert!(files.iter().all(|f| !f.path.contains("/d7")));
    assert!(files.iter().any(|f| f.path.ends_with("/d6") && f.is_dir));
}

#[test]
fn extension_filter_ignores_case() {
    assert!(file_matches("*.TXT", &Some("txt".to_string())));
    assert!(file_matches("*", &None));
    assert!(file_matches("*.*", &None));
    assert!(!file_matches("*.txt", &None));
    assert!(!file_matches("*.txt", &Some("text".to_string())));
    assert!(file_matches("notes", &None));
    let mut fs = HashMap::new();
    fs.insert("r".to_string(), vec![file("r/report.txt", 5), file("r/README", 6)]);
    assert_eq!(run(&fs, "r", "*.TXT").0, vec![entry("r/report.txt", 5, false)]);
    assert_eq!(run(&fs, "r", "*").0.len(), 2);
}

#[test]
fn wanted_extension_strips_every_star_dot() {
    assert_eq!(wanted_extension("*"), None);
    assert_eq!(wanted_extension("*.*"), None);
    assert_eq!(wanted_extension("x.txt"), None);
    assert_eq!(wanted_extension("*.txt"), Some("txt".to_string()));
    assert_eq!(wanted_extension("*.*.txt"), Some("txt".to_string()));
    assert_eq!(wanted_extension("*."), Some(String::new()));
    assert!(same_ignoring_ascii_case("JpG", "jpg"));
    assert!(!same_ignoring_ascii_case("jpg", "jpeg"));
}

#[test]
fn rescan_gives_same_entries() {
    let mut fs = HashMap::new();
    fs.insert("r".to_string(), vec![file("r/b.txt", 2), dir("r/s"), file("r/a.txt", 1)]);
    fs.insert("r/s".to_string(), vec![file("r/s/c.txt", 3)]);
    let first = run(&fs, "r", "*.txt");
    let second = run(&fs, "r", "*.txt");
    assert_eq!(first, second);
    assert_eq!(first.0.len(), 4);
}

#[test]
fn failures_are_absorbed() {
    let mut fs = HashMap::new();
    fs.insert("r".to_string(), vec![unreadable("r/gone"), dir("r/locked"), file("r/ok", 9)]);
    // "r/locked" has no listing: it is reported, with nothing inside.
    let (files, _) = run(&fs, "r", "*");
    assert_eq!(files, vec![entry("r/locked", 0, true), entry("r/ok", 9, false)]);
    let empty: HashMap<String, Vec<DirChild>> = HashMap::new();
    assert!(run(&empty, "r", "*").0.is_empty());
}

#[test]
fn count_cap_stops_listing() {
    let mut root = Vec::new();
    for k in 0..MAX_ENTRIES + 1 {
        root.push(file(&format!("r/f{}", k), 1));
    }
    root.push(dir("r/late"));
    let mut fs = HashMap::new();
    fs.insert("r".to_string(), root);
    fs.insert("r/late".to_string(), vec![file("r/late/x", 1)]);
    let (files, listed) = run(&fs, "r", "*");
    assert_eq!(files.len(), MAX_ENTRIES + 2);
    assert_eq!(listed, vec!["r".to_string()]);
    assert!(files.last().unwrap().is_dir);
}
