use tar2::archive::detect_compression;
use tar2::cli::{
    extract_destination, is_verbose, operation, resolve_compression,
    run_excludes, run_includes, run_sources, shows_progress, split_key, tree_ascii, tree_depth,
    apply_overrides, ignore_dirs, trim, Cli, Compression, Operation,
};
use tar2::config::{Config, DisplayConfig};

fn s(x: &str) -> String {
    x.to_string()
}

fn base() -> Cli {
    Cli {
        create: false,
        extract: false,
        list: false,
        append: false,
        update: false,
        file: None,
        gzip: false,
        bzip2: false,
        xz: false,
        zstd: false,
        verbose: 0,
        directory: None,
        dereference: false,
        preserve_permissions: false,
        numeric_owner: false,
        strip_components: 0,
        exclude_patterns: vec![],
        exclude_regex: vec![],
        exclude_from: None,
        include_patterns: vec![],
        include_regex: vec![],
        ignore_file: vec![],
        no_auto_ignore: false,
        keep_ignore_files: false,
        compression_level: None,
        test: false,
        progress: true,
        no_color: false,
        no_emoji: false,
        config: None,
        transform: None,
        command: None,
        files: vec![],
    }
}

#[test]
fn compression_from_names() {
    assert_eq!(detect_compression("a.tar.gz"), Compression::Gzip);
    assert_eq!(detect_compression("dir/A.TGZ"), Compression::Gzip);
    assert_eq!(detect_compression("a.tar.bz2"), Compression::Bzip2);
    assert_eq!(detect_compression("a.tbz"), Compression::Bzip2);
    assert_eq!(detect_compression("a.tbz2"), Compression::Bzip2);
    assert_eq!(detect_compression("a.tar.xz"), Compression::Xz);
    assert_eq!(detect_compression("a.txz"), Compression::Xz);
    assert_eq!(detect_compression("a.tar.zst"), Compression::Zstd);
    assert_eq!(detect_compression("a.tzst"), Compression::Zstd);
    assert_eq!(detect_compression("a.tar"), Compression::Uncompressed);
    assert_eq!(detect_compression("a.gz"), Compression::Uncompressed);
    assert_eq!(detect_compression("x.tar.gz/.."), Compression::Uncompressed);
    assert_eq!(detect_compression(""), Compression::Uncompressed);
}

#[test]
fn compression_labels() {
    assert_eq!(Compression::Uncompressed.label(), "none");
    assert_eq!(Compression::Gzip.label(), "gzip");
    assert_eq!(Compression::Bzip2.label(), "bzip2");
    assert_eq!(Compression::Xz.label(), "xz");
    assert_eq!(Compression::Zstd.label(), "zstd");
}

#[test]
fn flags_win_over_names() {
    let mut a = base();
    assert_eq!(resolve_compression(&a, "a.tar.xz"), Compression::Xz);
    a.zstd = true;
    assert_eq!(resolve_compression(&a, "a.tar.xz"), Compression::Zstd);
    a.bzip2 = true;
    assert_eq!(resolve_compression(&a, "a.tar.xz"), Compression::Bzip2);
    a.gzip = true;
    assert_eq!(resolve_compression(&a, "a.tar"), Compression::Gzip);
}

#[test]
fn operations_in_priority() {
    let mut a = base();
    assert_eq!(operation(&a), None);
    a.update = true;
    assert_eq!(operation(&a), Some(Operation::Update));
    a.list = true;
    assert_eq!(operation(&a), Some(Operation::List));
    a.extract = true;
    assert_eq!(operation(&a), Some(Operation::Extract));
    a.create = true;
    assert_eq!(operation(&a), Some(Operation::Create));
    a.test = true;
    assert_eq!(operation(&a), Some(Operation::Test));
}

#[test]
fn includes_take_file_arguments_when_reading() {
    let mut a = base();
    a.include_patterns = vec![s("*.rs")];
    a.files = vec![s("src/main.rs")];
    assert_eq!(run_includes(&a), vec![s("*.rs")]);
    a.list = true;
    assert_eq!(run_includes(&a), vec![s("*.rs"), s("src/main.rs")]);
    assert_eq!(run_sources(&a), Vec::<String>::new());
    a.list = false;
    a.create = true;
    assert_eq!(run_sources(&a), vec![s("src/main.rs")]);
}

#[test]
fn excludes_read_pattern_lines() {
    let mut a = base();
    a.exclude_patterns = vec![s("*.o")];
    assert_eq!(run_excludes(&a, None), vec![s("*.o")]);
    let text = "  target/**  \n# comment\n\n\t*.tmp\r\n   #also\n";
    assert_eq!(run_excludes(&a, Some(text)), vec![s("*.o"), s("target/**"), s("*.tmp")]);
}

#[test]
fn trimming() {
    let v: Vec<char> = " \t a b \u{3000}".chars().collect();
    let t: String = trim(&v).into_iter().collect();
    assert_eq!(t, "a b");
    let e: Vec<char> = "   ".chars().collect();
    assert!(trim(&e).is_empty());
}

#[test]
fn verbosity_and_progress() {
    let mut a = base();
    let mut d = DisplayConfig::default();
    assert!(!is_verbose(&a, &d));
    d.verbose = true;
    assert!(is_verbose(&a, &d));
    d.verbose = false;
    a.verbose = 2;
    assert!(is_verbose(&a, &d));
    assert!(shows_progress(&a, &d));
    d.progress_style = s("none");
    assert!(!shows_progress(&a, &d));
    d.progress_style = s("spinner");
    a.progress = false;
    assert!(!shows_progress(&a, &d));
}

#[test]
fn overrides() {
    let mut c = Config::default();
    apply_overrides(&mut c, false, false, false);
    assert!(c.display.colors && c.display.emoji);
    apply_overrides(&mut c, false, true, false);
    assert!(c.display.colors && !c.display.emoji);
    let mut c = Config::default();
    apply_overrides(&mut c, false, false, true);
    assert!(!c.display.colors && c.display.emoji);
    let mut c = Config::default();
    apply_overrides(&mut c, true, false, false);
    assert!(!c.display.colors);
}

#[test]
fn destination() {
    let mut a = base();
    assert_eq!(extract_destination(&a), ".");
    a.directory = Some(s("/tmp/out"));
    assert_eq!(extract_destination(&a), "/tmp/out");
}

#[test]
fn tree_settings() {
    let mut d = DisplayConfig::default();
    assert_eq!(tree_depth(0, &d), 0);
    d.tree_depth = 4;
    assert_eq!(tree_depth(0, &d), 4);
    assert_eq!(tree_depth(2, &d), 2);
    assert!(!tree_ascii(false, &d));
    assert!(tree_ascii(true, &d));
    d.tree_style = s("ascii");
    assert!(tree_ascii(false, &d));
}

#[test]
fn keys_split_at_first_dot() {
    assert_eq!(split_key("colors.dir"), (s("colors"), s("dir")));
    assert_eq!(split_key("a.b.c"), (s("a"), s("b.c")));
    assert_eq!(split_key("plain"), (s("plain"), s("plain")));
    assert_eq!(split_key(".x"), (s(""), s("x")));
}

#[test]
fn directories_scanned_for_ignore_files() {
    let mut a = base();
    a.files = vec![s("src"), s("README.md"), s("docs")];
    let flags = vec![true, false, true];
    assert_eq!(ignore_dirs(&a, "/w", &flags), vec![s("/w")]);
    a.create = true;
    assert_eq!(ignore_dirs(&a, "/w", &flags), vec![s("/w"), s("src"), s("docs")]);
    a.create = false;
    a.update = true;
    assert_eq!(ignore_dirs(&a, "/w", &flags), vec![s("/w"), s("src"), s("docs")]);
    a.test = true;
    assert_eq!(ignore_dirs(&a, "/w", &flags), vec![s("/w")]);
}
