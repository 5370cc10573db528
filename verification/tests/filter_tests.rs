use tar2::filter::{FileFilter, FilterError};
use tar2::ignorefile::{
    file_lines_of, standard_ignore_files, strip_for_ignore, IgnoreError, IgnoreSetBuilder,
};

fn s(x: &str) -> String {
    x.to_string()
}

fn v(xs: &[&str]) -> Vec<String> {
    xs.iter().map(|x| s(x)).collect()
}

#[test]
fn no_patterns_take_everything() {
    let f = FileFilter::new(&vec![], &vec![], &vec![], &vec![]).unwrap();
    assert!(f.matches_typed("a/b.c", false));
    assert!(f.matches_typed("dir", true));
    assert!(f.ignore_sources().is_empty());
}

#[test]
fn exclude_beats_include() {
    let f = FileFilter::new(&v(&["*.rs"]), &v(&["main.rs"]), &vec![], &vec![]).unwrap();
    assert!(f.matches_typed("src/lib.rs", false));
    assert!(!f.matches_typed("src/main.rs", false));
    assert!(!f.matches_typed("README.md", false));
}

#[test]
fn globs_match_the_path_or_the_name() {
    let f = FileFilter::new(&vec![], &v(&["target*", "*.o"]), &vec![], &vec![]).unwrap();
    assert!(!f.matches_typed("target/debug/x", false));
    assert!(!f.matches_typed("a/b/c.o", false));
    assert!(f.matches_typed("src/target.rs", true) == false);
    assert!(f.matches_typed("src/lib.rs", false));
}

#[test]
fn regexes() {
    let f = FileFilter::new(&vec![], &vec![], &v(&["^src/"]), &v(&["test"])).unwrap();
    assert!(f.matches_typed("src/lib.rs", false));
    assert!(!f.matches_typed("src/tests.rs", false));
    assert!(!f.matches_typed("docs/x.md", false));
    let g = FileFilter::new(&v(&["*.md"]), &vec![], &v(&["^src/"]), &vec![]).unwrap();
    assert!(g.matches_typed("docs/x.md", false));
    assert!(g.matches_typed("src/lib.rs", false));
    assert!(!g.matches_typed("other/lib.rs", false));
}

#[test]
fn refused_patterns() {
    match FileFilter::new(&v(&["ok*", "a["]), &vec![], &vec![], &vec![]) {
        Err(FilterError::InvalidGlob(p, _)) => assert_eq!(p, "a["),
        _ => panic!("glob accepted"),
    }
    match FileFilter::new(&vec![], &vec![], &vec![], &v(&["("])) {
        Err(FilterError::InvalidRegex(p, _)) => assert_eq!(p, "("),
        _ => panic!("regex accepted"),
    }
    match FileFilter::new(&vec![], &vec![], &vec![], &v(&["("])) {
        Err(e) => assert!(e.message().starts_with("Invalid regex '(': ")),
        _ => panic!("regex accepted"),
    }
}

#[test]
fn ignore_rules_drop_paths() {
    let mut b = IgnoreSetBuilder::new("/p");
    assert!(b.is_empty());
    assert!(b.begin_scan("/p"));
    assert!(!b.begin_scan("/p/"));
    assert_eq!(b.add_file("/p/.gitignore", "*.log\n!keep.log\nbuild/\n"), Ok(()));
    assert!(!b.is_empty());
    let set = b.build().unwrap().unwrap();
    assert_eq!(set.sources(), &v(&["/p/.gitignore"]));
    assert!(set.is_ignored("x.log", false));
    assert!(set.is_ignored("/p/sub/x.log", false));
    assert!(!set.is_ignored("keep.log", false));
    assert!(set.is_ignored("build", true));
    assert!(!set.is_ignored("build", false));
    assert!(set.is_ignored("build/a.txt", false));
    assert!(!set.is_ignored("src/main.rs", false));

    let f = FileFilter::with_ignore(&vec![], &vec![], &vec![], &vec![], Some(set), false).unwrap();
    assert_eq!(f.ignore_sources(), v(&["/p/.gitignore"]));
    assert!(!f.matches_typed("x.log", false));
    assert!(f.matches_typed("src/main.rs", false));
    // The ignore file itself stays out of a pack...
    assert!(!f.matches_for_pack("/p/.gitignore", false, None, &vec![None]));
    assert!(!f.matches_for_pack("x", false, Some("/real/.gitignore"), &vec![Some(s("/real/.gitignore"))]));
    assert!(f.matches_for_pack("/p/other", false, None, &vec![None]));
    // ...but is listed like any entry.
    assert!(f.matches_typed("/p/.gitignore", false));
}

#[test]
fn kept_ignore_files_are_packed() {
    let mut b = IgnoreSetBuilder::new("/p");
    assert_eq!(b.add_file("/p/.tarignore", "*.tmp"), Ok(()));
    let set = b.build().unwrap().unwrap();
    let f = FileFilter::with_ignore(&vec![], &vec![], &vec![], &vec![], Some(set), true).unwrap();
    assert!(f.matches_for_pack("/p/.tarignore", false, None, &vec![None]));
    assert!(!f.matches_for_pack("/p/a.tmp", false, None, &vec![None]));
}

#[test]
fn added_lines_take_effect() {
    let mut b = IgnoreSetBuilder::new("/p");
    assert!(IgnoreSetBuilder::new("/p").build().unwrap().is_none());
    assert_eq!(b.add_line("*.log"), Ok(()));
    let set = b.build().unwrap().unwrap();
    assert!(set.sources().is_empty());
    assert!(set.is_ignored("x.log", false));
    assert!(!set.is_ignored("x.txt", false));
}

#[test]
fn ignore_file_lines() {
    assert_eq!(file_lines_of("a\nb\r\n\nc"), v(&["a", "b", "", "c"]));
    assert_eq!(file_lines_of("\u{feff}x\n"), v(&["x"]));
    assert_eq!(file_lines_of(""), Vec::<String>::new());
}

#[test]
fn invalid_ignore_file() {
    let mut b = IgnoreSetBuilder::new("/p");
    let r = b.add_file("/p/.gitignore", "ok\n[z-a]\n");
    assert_eq!(r, Err(IgnoreError::InvalidIgnoreFile(s("/p/.gitignore"))));
    assert_eq!(
        IgnoreError::InvalidIgnoreFile(s("/p/.gitignore")).message(),
        "Invalid ignore file: /p/.gitignore"
    );
    assert!(b.is_empty());
}

#[test]
fn standard_names_in_priority() {
    assert_eq!(
        standard_ignore_files(),
        vec![".tar2ignore", ".tarignore", ".gitignore", ".dockerignore", ".npmignore", ".hgignore", ".ignore"]
    );
}

#[test]
fn stripping_the_root() {
    let st = |r: &str, p: &str| -> String { strip_for_ignore(r, p).into_iter().collect() };
    assert_eq!(st("/p", "/p/a/b"), "a/b");
    assert_eq!(st("/p", "a/b"), "a/b");
    assert_eq!(st("/p", "/q/a"), "/q/a");
    assert_eq!(st("/p", "./a"), "a");
}

#[test]
fn asking_only_where_the_rules_can_answer() {
    let mut b = IgnoreSetBuilder::new("/p");
    assert_eq!(b.add_line("*.log"), Ok(()));
    let set = b.build().unwrap().unwrap();
    assert_eq!(set.try_is_ignored("a.log", false), Some(true));
    assert_eq!(set.try_is_ignored("/p/a.txt", false), Some(false));
    assert_eq!(set.try_is_ignored("/q/a.log", false), None);
    let f = FileFilter::with_ignore(&vec![], &vec![], &vec![], &vec![], Some(set), false).unwrap();
    assert_eq!(f.try_matches_typed("a.log", false), Some(false));
    assert_eq!(f.try_matches_typed("a.txt", false), Some(true));
    assert_eq!(f.try_matches_typed("/q/a.txt", false), None);
}
