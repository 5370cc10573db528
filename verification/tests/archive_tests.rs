use tar2::archive::{
    apply_transform, components_below, encoder_level, extract_target, list_entry, name_in_archive,
    needs_update, pack_name, replaced_by, strip_components, unix_perm_string, zstd_level,
    try_list_entry, EntryInfo, RawEntry, TransformError, VerifyTally, MAX_MTIME_SECS,
};
use tar2::filter::FileFilter;
use tar2::path::path_components;

fn s(x: &str) -> String {
    x.to_string()
}

fn entry(path: &str) -> EntryInfo {
    EntryInfo {
        path: s(path),
        size: 0,
        mtime: None,
        utc_offset: 0,
        perm: None,
        is_dir: false,
        is_link: false,
        link_target: None,
    }
}

fn chars(v: Vec<Vec<char>>) -> Vec<String> {
    v.into_iter().map(|c| c.into_iter().collect()).collect()
}

#[test]
fn permission_strings() {
    assert_eq!(unix_perm_string(0o100644), "-rw-r--r--");
    assert_eq!(unix_perm_string(0o040755), "drwxr-xr-x");
    assert_eq!(unix_perm_string(0o120777), "lrwxrwxrwx");
    assert_eq!(unix_perm_string(0o000000), "----------");
    assert_eq!(unix_perm_string(0o4755), "-rwxr-xr-x");
    assert_eq!(unix_perm_string(0o060640), "-rw-r-----");
}

#[test]
fn entry_texts() {
    let mut e = entry("a");
    assert_eq!(e.perm_str(), "?????????");
    e.perm = Some(0o100600);
    assert_eq!(e.perm_str(), "-rw-------");
    assert_eq!(e.perm_str().chars().count(), 10);
    assert_eq!(e.mtime_str("%Y"), "?");
    assert_eq!(e.mtime_text("%Y"), Some(s("?")));
    e.size = 100;
    assert_eq!(e.size_human(), "100 B");
    e.size = 2048;
    assert_eq!(e.size_human(), "2 KiB");
    e.size = 1536;
    assert_eq!(e.size_human(), "1.50 KiB");
    e.size = 0;
    assert_eq!(e.size_human(), "0 B");
}

#[test]
fn dates_that_cannot_be_formatted() {
    let mut e = entry("a");
    e.mtime = Some(0);
    assert_eq!(e.mtime_text("%%"), Some(s("%")));
    assert_eq!(e.mtime_text("%Q"), None);
    e.mtime = Some(MAX_MTIME_SECS);
    assert_eq!(e.mtime_text("%Y"), Some(s("+262142")));
    e.mtime = Some(MAX_MTIME_SECS + 1);
    assert_eq!(e.mtime_text("%%"), None);
    e.mtime = Some(0);
    e.utc_offset = 86_400;
    assert_eq!(e.mtime_text("%%"), None);
}

#[test]
fn dates_in_the_entrys_offset() {
    let mut e = entry("a");
    e.mtime = Some(0);
    assert_eq!(e.mtime_str("%Y-%m-%d %H:%M %z"), "1970-01-01 00:00 +0000");
    e.utc_offset = 3600;
    assert_eq!(e.mtime_str("%Y-%m-%d %H:%M %z"), "1970-01-01 01:00 +0100");
    e.utc_offset = -5400;
    e.mtime = Some(86_400);
    assert_eq!(e.mtime_text("%d %H:%M"), Some(s("01 22:30")));
    e.mtime = Some(MAX_MTIME_SECS);
    e.utc_offset = 86_399;
    assert!(e.mtime_text("%Y").is_some());
}

#[test]
fn stripping_components() {
    assert_eq!(strip_components("a/b/c", 0), Some(s("a/b/c")));
    assert_eq!(strip_components("a//b/", 0), Some(s("a//b/")));
    assert_eq!(strip_components("a/b/c", 1), Some(s("b/c")));
    assert_eq!(strip_components("a/b/c", 2), Some(s("c")));
    assert_eq!(strip_components("a/b/c", 3), None);
    assert_eq!(strip_components("a/b/c", 7), None);
    assert_eq!(strip_components("a//b/", 1), Some(s("b")));
    assert_eq!(strip_components("/a/b", 1), Some(s("a/b")));
    assert_eq!(strip_components("./a/b", 1), Some(s("a/b")));
    assert_eq!(strip_components("a/./b", 1), Some(s("b")));
}

#[test]
fn transforms_rename() {
    assert_eq!(apply_transform("a/b", None), Ok(s("a/b")));
    assert_eq!(apply_transform("old.txt", Some("s/old/new/")), Ok(s("new.txt")));
    assert_eq!(apply_transform("foo/boo", Some("s/o/0/")), Ok(s("f0o/boo")));
    assert_eq!(apply_transform("foo/boo", Some("s/o/0/g")), Ok(s("f00/b00")));
    assert_eq!(apply_transform("a/b", Some("s|/|_|")), Ok(s("a_b")));
    assert_eq!(apply_transform("ab", Some("s/(a)/$1x/")), Ok(s("$1xb")));
    assert_eq!(apply_transform("ab", Some("s/^a+/z/")), Ok(s("zb")));
    assert_eq!(apply_transform("ab", Some("s/a/b")), Err(TransformError::Malformed(s("s/a/b"))));
    assert_eq!(apply_transform("ab", Some("s/a/b/x")), Err(TransformError::Malformed(s("s/a/b/x"))));
    assert_eq!(apply_transform("ab", Some("y/a/b/")), Err(TransformError::Malformed(s("y/a/b/"))));
    match apply_transform("ab", Some("s/(/b/")) {
        Err(TransformError::InvalidRegex(p, _)) => assert_eq!(p, "("),
        _ => panic!("pattern accepted"),
    }
    assert_eq!(
        TransformError::Malformed(s("q")).message(),
        "Invalid transform 'q': use s/old/new/ or s/old/new/g"
    );
}

#[test]
fn extraction_targets() {
    let t = extract_target("/tmp/out", "a/b.txt");
    assert_eq!(t.dest_path, "/tmp/out/a/b.txt");
    assert!(t.create_parent);
    let t = extract_target("out/", "f");
    assert_eq!(t.dest_path, "out/f");
    let t = extract_target(".", "/abs/x");
    assert_eq!(t.dest_path, "/abs/x");
}

#[test]
fn names_below_a_source() {
    assert_eq!(chars(components_below("src", "src/a/b.rs")), vec![s("a"), s("b.rs")]);
    assert_eq!(chars(components_below("./src", "src/a")), vec![s("src"), s("a")]);
    assert_eq!(chars(components_below("/x", "/y/z")), vec![s("/"), s("y"), s("z")]);
    assert_eq!(pack_name("src", "src/a/b.rs"), Some(s("a/b.rs")));
    assert_eq!(pack_name("src", "src"), None);
    assert_eq!(pack_name("src/", "src"), None);
    assert_eq!(pack_name("src", "other/x"), Some(s("other/x")));
    assert_eq!(name_in_archive("/home/u/file.txt"), "file.txt");
    assert_eq!(name_in_archive("dir/.."), "dir/..");
}

#[test]
fn newer_files_are_updated() {
    let existing = vec![(s("a.txt"), 100), (s("b/c.txt"), 50), (s("a.txt"), 300)];
    assert!(!needs_update(&existing, "src", "src/a.txt", 300));
    assert!(needs_update(&existing, "src", "src/a.txt", 301));
    assert!(!needs_update(&existing, "src", "src/b/c.txt", 50));
    assert!(needs_update(&existing, "src", "src/b/c.txt", 51));
    assert!(needs_update(&existing, "src", "src/new.txt", 1));
    assert!(!needs_update(&existing, "src", "src/new.txt", 0));
}

#[test]
fn replaced_entries() {
    let to_add = vec![s("/src/a.txt"), s("/src/sub/b.txt")];
    assert!(replaced_by(&to_add, "a.txt"));
    assert!(replaced_by(&to_add, "b.txt/"));
    assert!(!replaced_by(&to_add, "./b.txt"));
    assert!(!replaced_by(&to_add, "sub/b.txt"));
    assert!(!replaced_by(&to_add, "c.txt"));
}

#[test]
fn compression_levels() {
    assert_eq!(encoder_level(None), 6);
    assert_eq!(encoder_level(Some(1)), 1);
    assert_eq!(encoder_level(Some(9)), 9);
    assert_eq!(encoder_level(Some(22)), 9);
    assert_eq!(zstd_level(None), 3);
    assert_eq!(zstd_level(Some(19)), 19);
    assert_eq!(zstd_level(Some(4_294_967_295)), -1);
}

#[test]
fn verify_tally() {
    let mut t = VerifyTally::new();
    assert_eq!((t.ok, t.errors), (0, 0));
    t.entry_read(false);
    t.entry_read(true);
    t.entry_failed();
    assert_eq!((t.ok, t.errors), (2, 2));
}

#[test]
fn listed_entries_follow_the_filter() {
    let f = FileFilter::new(&vec![], &vec![s("*.o")], &vec![], &vec![]).unwrap();
    let raw = RawEntry {
        path: s("src/main.rs"),
        size: None,
        mtime: Some(5),
        utc_offset: 3600,
        mode: Some(0o644),
        is_dir: false,
        is_symlink: false,
        is_hard_link: true,
        link_target: Some(s("other.rs")),
    };
    let e = list_entry(&f, raw).unwrap();
    assert_eq!(e.path, "src/main.rs");
    assert_eq!(e.size, 0);
    assert_eq!(e.mtime, Some(5));
    assert_eq!(e.utc_offset, 3600);
    assert_eq!(e.perm, Some(0o644));
    assert!(e.is_link && !e.is_dir);
    assert_eq!(e.link_target, Some(s("other.rs")));
    let raw = RawEntry {
        path: s("x/y.o"),
        size: Some(9),
        mtime: None,
        utc_offset: 0,
        mode: None,
        is_dir: false,
        is_symlink: false,
        is_hard_link: false,
        link_target: None,
    };
    assert!(list_entry(&f, raw).is_none());
}

#[test]
fn stripping_removes_exactly_the_leading_components() {
    for (p, n) in [("/x/./y//z/", 2u32), ("./a/../b/c", 1), ("a/b/c/d", 3), ("/r", 1)] {
        let all = chars(path_components(p));
        match strip_components(p, n) {
            Some(q) => assert_eq!(chars(path_components(&q)), all[n as usize..].to_vec()),
            None => assert!(all.len() <= n as usize),
        }
    }
}

#[test]
fn listing_when_the_filter_can_be_asked() {
    let f = FileFilter::new(&vec![], &vec![s("*.o")], &vec![], &vec![]).unwrap();
    let raw = |p: &str| RawEntry {
        path: s(p),
        size: Some(1),
        mtime: None,
        utc_offset: 0,
        mode: None,
        is_dir: false,
        is_symlink: false,
        is_hard_link: false,
        link_target: None,
    };
    assert_eq!(try_list_entry(&f, raw("a.c")).map(|o| o.map(|e| e.path)), Some(Some(s("a.c"))));
    assert_eq!(try_list_entry(&f, raw("a.o")).map(|o| o.is_none()), Some(true));
}
