use dirscan::greet;
use dirscan::scan::{scan, try_scan};
use dirscan::types::{Listing, MetaOutcome, RawEntry, RawItem, ScanError, TimeOutcome, Timestamp};

fn ts(secs: i64) -> Timestamp {
    Timestamp { secs, nanos: 0 }
}

fn child(name: &str, size: u64, is_directory: bool) -> RawItem {
    RawItem::Entry(RawEntry {
        name: name.to_string(),
        path: format!("/base/{}", name),
        meta: MetaOutcome::Available {
            size,
            is_directory,
            modified: TimeOutcome::At(ts(1_700_000_000)),
        },
    })
}

#[test]
fn greet_formats_the_greeting() {
    assert_eq!(greet("World"), "Hello, World! You've been greeted from Rust!");
}

#[test]
fn missing_path_is_not_found() {
    let r = scan(Listing::Missing);
    let err = r.unwrap_err();
    assert!(matches!(err, ScanError::NotFound));
    assert_eq!(err.message(), "Directory does not exist");
}

#[test]
fn file_path_is_not_a_directory() {
    let r = scan(Listing::NotDirectory);
    let err = r.unwrap_err();
    assert!(matches!(err, ScanError::NotADirectory));
    assert_eq!(err.message(), "Path is not a directory");
}

#[test]
fn failed_listing_reports_the_cause() {
    let r = scan(Listing::ListFailed("permission denied".to_string()));
    let err = r.unwrap_err();
    assert!(matches!(err, ScanError::ReadDirectoryFailed(_)));
    assert_eq!(err.message(), "Failed to read directory: permission denied");
}

#[test]
fn failed_entry_record_aborts_the_scan() {
    let items = vec![
        child("ok.txt", 1, false),
        RawItem::Failed("io error".to_string()),
        child("later.txt", 2, false),
    ];
    let r = scan(Listing::Entries(items));
    let err = r.unwrap_err();
    assert!(matches!(err, ScanError::ReadEntryFailed(_)));
    assert_eq!(err.message(), "Failed to read entry: io error");
}

#[test]
fn unreadable_timestamp_aborts_the_scan() {
    let items = vec![RawItem::Entry(RawEntry {
        name: "odd.bin".to_string(),
        path: "/base/odd.bin".to_string(),
        meta: MetaOutcome::Available {
            size: 3,
            is_directory: false,
            modified: TimeOutcome::Unavailable("clock error".to_string()),
        },
    })];
    let r = scan(Listing::Entries(items));
    let err = r.unwrap_err();
    assert!(matches!(err, ScanError::TimestampUnavailable(_)));
    assert_eq!(err.message(), "Failed to get modification time: clock error");
}

#[test]
fn unreadable_metadata_skips_the_entry() {
    let items = vec![
        child("kept.txt", 7, false),
        RawItem::Entry(RawEntry {
            name: "gone.txt".to_string(),
            path: "/base/gone.txt".to_string(),
            meta: MetaOutcome::Unavailable,
        }),
    ];
    let sr = scan(Listing::Entries(items)).unwrap();
    assert_eq!(sr.total_count, 1);
    assert_eq!(sr.total_size, 7);
    assert_eq!(sr.files.len(), 1);
    assert_eq!(sr.files[0].name, "kept.txt");
}

#[test]
fn scenario_three_children() {
    let items = vec![child("B.txt", 10, false), child("a.md", 5, false), child("C", 0, true)];
    let sr = scan(Listing::Entries(items)).unwrap();
    assert_eq!(sr.total_count, 3);
    assert_eq!(sr.total_size, 15);
    let names: Vec<&str> = sr.files.iter().map(|f| f.name.as_str()).collect();
    assert_eq!(names, vec!["a.md", "B.txt", "C"]);
    assert!(sr.files[2].is_directory);
    assert_eq!(sr.files[2].file_type, "Directory");
    assert_eq!(sr.files[2].extension, None);
    assert_eq!(sr.files[0].extension.as_deref(), Some("md"));
    assert_eq!(sr.files[0].file_type, "md");
    assert_eq!(sr.files[1].extension.as_deref(), Some("txt"));
    assert_eq!(sr.files[1].file_type, "txt");
    assert_eq!(sr.files[0].path, "/base/a.md");
}

#[test]
fn extensions_are_folded_to_lowercase() {
    let items = vec![child("REPORT.TXT", 1, false), child("archive.tar.GZ", 2, false)];
    let sr = scan(Listing::Entries(items)).unwrap();
    assert_eq!(sr.files[1].extension.as_deref(), Some("txt"));
    assert_eq!(sr.files[1].file_type, "txt");
    assert_eq!(sr.files[0].extension.as_deref(), Some("gz"));
    assert_eq!(sr.files[0].file_type, "gz");
}

#[test]
fn hidden_and_plain_names_have_no_extension() {
    let items = vec![child(".gitignore", 1, false), child("Makefile", 2, false)];
    let sr = scan(Listing::Entries(items)).unwrap();
    assert_eq!(sr.files[0].name, ".gitignore");
    assert_eq!(sr.files[0].extension, None);
    assert_eq!(sr.files[0].file_type, "File");
    assert_eq!(sr.files[1].extension, None);
    assert_eq!(sr.files[1].file_type, "File");
}

#[test]
fn trailing_dot_keeps_empty_extension_distinct() {
    let items = vec![child("notes.", 1, false)];
    let sr = scan(Listing::Entries(items)).unwrap();
    assert_eq!(sr.files[0].extension.as_deref(), Some(""));
    assert_eq!(sr.files[0].file_type, "");
}

#[test]
fn sort_is_case_insensitive_and_stable() {
    let items = vec![
        child("banana", 1, false),
        child("DUP.txt", 2, false),
        child("Apple", 3, false),
        child("dup.txt", 4, false),
    ];
    let sr = scan(Listing::Entries(items)).unwrap();
    let names: Vec<&str> = sr.files.iter().map(|f| f.name.as_str()).collect();
    assert_eq!(names, vec!["Apple", "banana", "DUP.txt", "dup.txt"]);
    // equal folded keys keep their listing order
    assert_eq!(sr.files[2].size, 2);
    assert_eq!(sr.files[3].size, 4);
}

#[test]
fn empty_directory_scans_to_empty_result() {
    let sr = scan(Listing::Entries(Vec::new())).unwrap();
    assert_eq!(sr.total_count, 0);
    assert_eq!(sr.total_size, 0);
    assert!(sr.files.is_empty());
}

#[test]
fn directory_sizes_count_toward_the_total() {
    let items = vec![child("sub", 4096, true), child("f.rs", 10, false)];
    let sr = scan(Listing::Entries(items)).unwrap();
    assert_eq!(sr.total_size, 4106);
}

#[test]
fn timestamps_are_carried_through() {
    let items = vec![RawItem::Entry(RawEntry {
        name: "t.log".to_string(),
        path: "/base/t.log".to_string(),
        meta: MetaOutcome::Available {
            size: 1,
            is_directory: false,
            modified: TimeOutcome::At(Timestamp { secs: 123, nanos: 456 }),
        },
    })];
    let sr = scan(Listing::Entries(items)).unwrap();
    assert_eq!(sr.files[0].modified, Timestamp { secs: 123, nanos: 456 });
}

#[test]
fn scanning_twice_gives_identical_results() {
    let items = vec![child("B.txt", 10, false), child("a.md", 5, false), child("C", 0, true)];
    let first = scan(Listing::Entries(items.clone())).unwrap();
    let second = scan(Listing::Entries(items)).unwrap();
    assert_eq!(first, second);
}

#[test]
fn overflowing_sizes_are_refused() {
    let items = vec![child("a", u64::MAX, false), child("b", 1, false)];
    assert!(try_scan(Listing::Entries(items)).is_none());
}

#[test]
fn try_scan_agrees_with_scan() {
    let items = vec![child("x.c", 1, false), child("y.h", 2, false)];
    let via_try = try_scan(Listing::Entries(items.clone())).unwrap().unwrap();
    let direct = scan(Listing::Entries(items)).unwrap();
    assert_eq!(via_try, direct);
}
