use fswp::discovery::{selects, arrange_files, keep_selected, stable_sort};
use fswp::domain::{DiscoveryOptions, FileEntry, FileType, SortBy, Timestamp};

fn entry(name: &str, size: u64, secs: i64, file_type: FileType) -> FileEntry {
    FileEntry {
        path: format!("/d/{}", name),
        name: name.to_string(),
        size,
        modified_date: Timestamp { secs, nanos: 0 },
        file_type,
    }
}

fn names(v: &[FileEntry]) -> Vec<String> {
    v.iter().map(|e| e.name.clone()).collect()
}

fn sample() -> Vec<FileEntry> {
    vec![
        entry("b.txt", 300, 30, FileType::Text),
        entry(".hidden", 10, 5, FileType::Binary),
        entry("A.png", 100, 20, FileType::Image),
        entry("c.pdf", 200, 10, FileType::Pdf),
    ]
}

#[test]
fn default_options_hide_dot_files_and_sort_by_date() {
    let r = arrange_files(sample(), &DiscoveryOptions::default());
    assert_eq!(names(&r), vec!["c.pdf", "A.png", "b.txt"]);
}

#[test]
fn show_hidden_keeps_dot_files() {
    let mut o = DiscoveryOptions::default();
    o.show_hidden = true;
    let r = arrange_files(sample(), &o);
    assert_eq!(names(&r), vec![".hidden", "c.pdf", "A.png", "b.txt"]);
}

#[test]
fn sort_by_name_ignores_case() {
    let mut o = DiscoveryOptions::default();
    o.sort_by = SortBy::Name;
    let r = arrange_files(sample(), &o);
    assert_eq!(names(&r), vec!["A.png", "b.txt", "c.pdf"]);
}

#[test]
fn sort_by_size_reversed() {
    let mut o = DiscoveryOptions::default();
    o.sort_by = SortBy::Size;
    o.reverse = true;
    let r = arrange_files(sample(), &o);
    assert_eq!(names(&r), vec!["b.txt", "c.pdf", "A.png"]);
}

#[test]
fn sort_by_type_is_stable() {
    let files = vec![
        entry("z.png", 1, 0, FileType::Image),
        entry("y.txt", 1, 0, FileType::Text),
        entry("x.png", 1, 0, FileType::Image),
        entry("w.txt", 1, 0, FileType::Text),
    ];
    let r = stable_sort(files, SortBy::Type);
    assert_eq!(names(&r), vec!["y.txt", "w.txt", "z.png", "x.png"]);
}

#[test]
fn type_and_size_filters() {
    let mut o = DiscoveryOptions::default();
    o.file_types = Some(vec![FileType::Text, FileType::Pdf]);
    o.min_size = Some(150);
    o.max_size = Some(250);
    let r = keep_selected(sample(), &o);
    assert_eq!(names(&r), vec!["c.pdf"]);
    assert!(!selects(&o, &entry("big.txt", 251, 0, FileType::Text)));
    assert!(selects(&o, &entry("ok.txt", 250, 0, FileType::Text)));
}

#[test]
fn empty_scan_gives_nothing() {
    assert!(arrange_files(vec![], &DiscoveryOptions::default()).is_empty());
}
