//! The command line: the options the program takes, and the decisions made
//! from them before any archive is touched (which operation runs, which
//! compression is used, which patterns select and drop entries).

use vstd::prelude::*;
use crate::archive::{detect_compression, detect_spec};
use crate::config::{Config, ConfigView, DisplayConfig, DisplayView};
use crate::text::{chars_of, owned, split_chars, split_on, str_views, string_of, views};

verus! {

/// How an archive is compressed.
#[derive(Debug, Clone, Copy, PartialEq, Eq, Structural)]
pub enum Compression {
    Uncompressed,
    Gzip,
    Bzip2,
    Xz,
    Zstd,
}

impl Compression {
    /// The compression's name.
    pub open spec fn label_spec(self) -> Seq<char> {
        match self {
            Compression::Uncompressed => "none"@,
            Compression::Gzip => "gzip"@,
            Compression::Bzip2 => "bzip2"@,
            Compression::Xz => "xz"@,
            Compression::Zstd => "zstd"@,
        }
    }

    /// The compression's name.
    pub fn label(self) -> (r: &'static str)
        ensures
            r@ == self.label_spec(),
    {
        match self {
            Compression::Uncompressed => "none",
            Compression::Gzip => "gzip",
            Compression::Bzip2 => "bzip2",
            Compression::Xz => "xz",
            Compression::Zstd => "zstd",
        }
    }
}

/// Different compressions have different names.
pub proof fn law_labels_distinct(a: Compression, b: Compression)
    requires
        a != b,
    ensures
        a.label_spec() != b.label_spec(),
{
    reveal_strlit("none");
    reveal_strlit("gzip");
    reveal_strlit("bzip2");
    reveal_strlit("xz");
    reveal_strlit("zstd");
    assert(a.label_spec().len() != b.label_spec().len() || a.label_spec()[0] != b.label_spec()[0]
        || a.label_spec()[1] != b.label_spec()[1]);
}

/// What to do with the configuration.
#[derive(Debug, Clone)]
pub enum ConfigAction {
    /// Show one value.
    Get { key: String },
    /// Change one value and save.
    SetValue { key: String, value: String },
    /// Show every value.
    List,
    /// Show where configuration files are looked for.
    Paths,
    /// Show the configuration file in use.
    Which,
    /// Save the defaults.
    Reset,
    /// Open the configuration file in an editor.
    Edit,
}

/// The subcommands.
#[derive(Debug, Clone)]
pub enum Commands {
    /// Show an archive as a directory tree.
    Tree {
        archive: String,
        depth: u32,
        size: bool,
        time: bool,
        perm: bool,
        ascii: bool,
        include_patterns: Vec<String>,
        exclude_patterns: Vec<String>,
        ignore_file: Vec<String>,
        no_auto_ignore: bool,
    },
    /// Read or change the configuration.
    Config { action: ConfigAction },
}

/// The options given on the command line.
#[derive(Debug, Clone)]
pub struct Cli {
    pub create: bool,
    pub extract: bool,
    pub list: bool,
    pub append: bool,
    pub update: bool,
    pub file: Option<String>,
    pub gzip: bool,
    pub bzip2: bool,
    pub xz: bool,
    pub zstd: bool,
    pub verbose: u8,
    pub directory: Option<String>,
    pub dereference: bool,
    pub preserve_permissions: bool,
    pub numeric_owner: bool,
    pub strip_components: u32,
    pub exclude_patterns: Vec<String>,
    pub exclude_regex: Vec<String>,
    pub exclude_from: Option<String>,
    pub include_patterns: Vec<String>,
    pub include_regex: Vec<String>,
    pub ignore_file: Vec<String>,
    pub no_auto_ignore: bool,
    pub keep_ignore_files: bool,
    pub compression_level: Option<u32>,
    pub test: bool,
    pub progress: bool,
    pub no_color: bool,
    pub no_emoji: bool,
    pub config: Option<String>,
    pub transform: Option<String>,
    pub command: Option<Commands>,
    pub files: Vec<String>,
}

/// The compression to use: the first of `-z`, `-j`, `-J`, `--zstd` given,
/// else what the archive's name implies.
pub open spec fn resolve_spec(args: Cli, path: Seq<char>) -> Compression {
    if args.gzip {
        Compression::Gzip
    } else if args.bzip2 {
        Compression::Bzip2
    } else if args.xz {
        Compression::Xz
    } else if args.zstd {
        Compression::Zstd
    } else {
        detect_spec(path)
    }
}

/// The compression to use (see [`resolve_spec`]).
pub fn resolve_compression(args: &Cli, path: &str) -> (c: Compression)
    ensures
        c == resolve_spec(*args, path@),
{
    if args.gzip {
        return Compression::Gzip;
    }
    if args.bzip2 {
        return Compression::Bzip2;
    }
    if args.xz {
        return Compression::Xz;
    }
    if args.zstd {
        return Compression::Zstd;
    }
    detect_compression(path)
}

/// Without a compression flag, the compression is taken from the archive's
/// name.
pub proof fn law_compression_from_name(args: Cli, path: Seq<char>)
    requires
        !args.gzip && !args.bzip2 && !args.xz && !args.zstd,
    ensures
        resolve_spec(args, path) == detect_spec(path),
{
}

/// The operations on an archive.
#[derive(Debug, Clone, Copy, PartialEq, Eq, Structural)]
pub enum Operation {
    Test,
    Create,
    Extract,
    List,
    Update,
}

/// The operation the options ask for: checking (`-W`) first, then
/// creating, extracting, listing, and appending or updating.
pub open spec fn operation_spec(args: Cli) -> Option<Operation> {
    if args.test {
        Some(Operation::Test)
    } else if args.create {
        Some(Operation::Create)
    } else if args.extract {
        Some(Operation::Extract)
    } else if args.list {
        Some(Operation::List)
    } else if args.append || args.update {
        Some(Operation::Update)
    } else {
        None
    }
}

/// The operation the options ask for (see [`operation_spec`]).
pub fn operation(args: &Cli) -> (r: Option<Operation>)
    ensures
        r == operation_spec(*args),
{
    if args.test {
        Some(Operation::Test)
    } else if args.create {
        Some(Operation::Create)
    } else if args.extract {
        Some(Operation::Extract)
    } else if args.list {
        Some(Operation::List)
    } else if args.append || args.update {
        Some(Operation::Update)
    } else {
        None
    }
}

/// A copy of a list of strings.
pub fn copy_strings(v: &Vec<String>) -> (r: Vec<String>)
    ensures
        str_views(r@) == str_views(v@),
{
    let mut r: Vec<String> = Vec::new();
    let mut i: usize = 0;
    while i < v.len()
        invariant
            i <= v.len(),
            str_views(r@) == str_views(v@).take(i as int),
        decreases v.len() - i,
    {
        let c = v[i].clone();
        let ghost before = str_views(r@);
        r.push(c);
        assert(str_views(r@) =~= before.push(v@[i as int]@));
        i = i + 1;
        assert(str_views(r@) =~= str_views(v@).take(i as int));
    }
    assert(str_views(v@).take(v.len() as int) =~= str_views(v@));
    r
}

/// The include_patterns patterns: those of `--include_patterns`, followed by the file
/// arguments when extracting, listing or checking.
pub open spec fn includes_spec(args: Cli) -> Seq<Seq<char>> {
    if args.files.len() > 0 && (args.extract || args.list || args.test) {
        str_views(args.include_patterns@) + str_views(args.files@)
    } else {
        str_views(args.include_patterns@)
    }
}

/// The include_patterns patterns (see [`includes_spec`]).
pub fn run_includes(args: &Cli) -> (r: Vec<String>)
    ensures
        str_views(r@) == includes_spec(*args),
{
    let mut r = copy_strings(&args.include_patterns);
    if args.files.len() > 0 && (args.extract || args.list || args.test) {
        let mut more = copy_strings(&args.files);
        r.append(&mut more);
        assert(str_views(r@) =~= includes_spec(*args));
    }
    r
}

/// The sources to pack: the file arguments when creating, appending or
/// updating, else none.
pub open spec fn sources_spec(args: Cli) -> Seq<Seq<char>> {
    if args.create || args.append || args.update {
        str_views(args.files@)
    } else {
        Seq::empty()
    }
}

/// The sources to pack (see [`sources_spec`]).
pub fn run_sources(args: &Cli) -> (r: Vec<String>)
    ensures
        str_views(r@) == sources_spec(*args),
{
    if args.create || args.append || args.update {
        copy_strings(&args.files)
    } else {
        let r: Vec<String> = Vec::new();
        assert(str_views(r@) =~= Seq::<Seq<char>>::empty());
        r
    }
}

/// The paths among `paths` whose flag in `is_dir` is set, in order.
pub open spec fn dirs_among(paths: Seq<Seq<char>>, is_dir: Seq<bool>) -> Seq<Seq<char>>
    decreases paths.len(),
{
    if paths.len() == 0 {
        Seq::empty()
    } else {
        let rest = dirs_among(paths.drop_last(), is_dir.drop_last());
        if is_dir.last() {
            rest.push(paths.last())
        } else {
            rest
        }
    }
}

/// The directories looked in for ignore files: the working directory; when
/// creating, appending or updating, then each file argument that is a
/// directory (`is_dir` tells which are).
pub open spec fn ignore_dirs_spec(args: Cli, cwd: Seq<char>, is_dir: Seq<bool>) -> Seq<Seq<char>> {
    seq![cwd] + if operation_spec(args) == Some(Operation::Create) || operation_spec(args) == Some(
        Operation::Update,
    ) {
        dirs_among(str_views(args.files@), is_dir)
    } else {
        Seq::empty()
    }
}

/// The directories looked in for ignore files (see [`ignore_dirs_spec`]);
/// `files_are_dirs` tells which file arguments are directories.
pub fn ignore_dirs(args: &Cli, cwd: &str, files_are_dirs: &Vec<bool>) -> (r: Vec<String>)
    requires
        files_are_dirs.len() == args.files.len(),
    ensures
        str_views(r@) == ignore_dirs_spec(*args, cwd@, files_are_dirs@),
{
    let mut r: Vec<String> = Vec::new();
    r.push(owned(cwd));
    assert(str_views(r@) =~= seq![cwd@]);
    let op = operation(args);
    if op == Some(Operation::Create) || op == Some(Operation::Update) {
        let ghost start = str_views(r@);
        let ghost fs = str_views(args.files@);
        let mut i: usize = 0;
        while i < args.files.len()
            invariant
                i <= args.files.len(),
                files_are_dirs.len() == args.files.len(),
                fs == str_views(args.files@),
                start == seq![cwd@],
                str_views(r@) == start + dirs_among(fs.take(i as int), files_are_dirs@.take(i as int)),
            decreases args.files.len() - i,
        {
            let ghost before = str_views(r@);
            assert(fs.take(i as int + 1).drop_last() =~= fs.take(i as int));
            assert(files_are_dirs@.take(i as int + 1).drop_last() =~= files_are_dirs@.take(i as int));
            assert(fs[i as int] == args.files@[i as int]@);
            if files_are_dirs[i] {
                r.push(args.files[i].clone());
                assert(str_views(r@) =~= before.push(args.files@[i as int]@));
            }
            i = i + 1;
        }
        assert(fs.take(args.files.len() as int) =~= fs);
        assert(files_are_dirs@.take(args.files.len() as int) =~= files_are_dirs@);
    }
    r
}

/// Whether a character is white space in Unicode (what `char::is_whitespace`
/// tests).
pub open spec fn is_white(c: char) -> bool {
    let u = c as u32;
    (0x09 <= u && u <= 0x0D) || u == 0x20 || u == 0x85 || u == 0xA0 || u == 0x1680 || (0x2000
        <= u && u <= 0x200A) || u == 0x2028 || u == 0x2029 || u == 0x202F || u == 0x205F || u
        == 0x3000
}

fn white(c: char) -> (r: bool)
    ensures
        r == is_white(c),
{
    let u = c as u32;
    (0x09 <= u && u <= 0x0D) || u == 0x20 || u == 0x85 || u == 0xA0 || u == 0x1680 || (0x2000
        <= u && u <= 0x200A) || u == 0x2028 || u == 0x2029 || u == 0x202F || u == 0x205F || u
        == 0x3000
}

/// The number of white-space characters at the start of `s`.
pub open spec fn lead_white(s: Seq<char>) -> nat
    decreases s.len(),
{
    if s.len() > 0 && is_white(s[0]) {
        1 + lead_white(s.drop_first())
    } else {
        0
    }
}

/// The number of white-space characters at the end of `s`.
pub open spec fn trail_white(s: Seq<char>) -> nat
    decreases s.len(),
{
    if s.len() > 0 && is_white(s.last()) {
        1 + trail_white(s.drop_last())
    } else {
        0
    }
}

/// `s` without white space at either end (`str::trim`).
pub open spec fn trim_spec(s: Seq<char>) -> Seq<char> {
    let t = s.skip(lead_white(s) as int);
    t.take(t.len() - trail_white(t))
}

proof fn lemma_lead_white_bound(s: Seq<char>)
    ensures
        lead_white(s) <= s.len(),
    decreases s.len(),
{
    if s.len() > 0 && is_white(s[0]) {
        lemma_lead_white_bound(s.drop_first());
    }
}

proof fn lemma_trail_white_bound(s: Seq<char>)
    ensures
        trail_white(s) <= s.len(),
    decreases s.len(),
{
    if s.len() > 0 && is_white(s.last()) {
        lemma_trail_white_bound(s.drop_last());
    }
}

/// `s` without white space at either end (see [`trim_spec`]).
pub fn trim(s: &Vec<char>) -> (r: Vec<char>)
    ensures
        r@ == trim_spec(s@),
{
    let mut a: usize = 0;
    assert(s@.skip(0) =~= s@);
    while a < s.len() && white(s[a])
        invariant
            a <= s.len(),
            lead_white(s@) == a + lead_white(s@.skip(a as int)),
        decreases s.len() - a,
    {
        assert(s@.skip(a as int).drop_first() =~= s@.skip(a + 1));
        a = a + 1;
    }
    assert(lead_white(s@.skip(a as int)) == 0);
    let ghost t = s@.skip(a as int);
    let mut b: usize = s.len();
    assert(t.take(t.len() as int) =~= t);
    while b > a && white(s[b - 1])
        invariant
            a <= b <= s.len(),
            t == s@.skip(a as int),
            trail_white(t) == (s.len() - b) + trail_white(t.take(b - a)),
        decreases b,
    {
        assert(t.take(b - a).drop_last() =~= t.take(b - a - 1));
        assert(t.take(b - a).last() == s@[b - 1]);
        b = b - 1;
    }
    assert(trail_white(t.take(b - a)) == 0);
    let mut r: Vec<char> = Vec::new();
    let mut i: usize = a;
    while i < b
        invariant
            a <= i <= b,
            b <= s.len(),
            r@ == s@.subrange(a as int, i as int),
        decreases b - i,
    {
        r.push(s[i]);
        i = i + 1;
        assert(r@ =~= s@.subrange(a as int, i as int));
    }
    assert(r@ =~= trim_spec(s@));
    r
}

/// The pieces of `lines` that name a pattern: each line trimmed, blank
/// lines and lines starting with `#` left out.
pub open spec fn pattern_lines(lines: Seq<Seq<char>>) -> Seq<Seq<char>>
    decreases lines.len(),
{
    if lines.len() == 0 {
        Seq::empty()
    } else {
        let rest = pattern_lines(lines.drop_last());
        let t = trim_spec(lines.last());
        if t.len() > 0 && t[0] != '#' {
            rest.push(t)
        } else {
            rest
        }
    }
}

/// The exclude patterns: those of `--exclude`, followed by those read from
/// the `--exclude-from` file (one per line, see [`pattern_lines`]).
pub open spec fn excludes_spec(args: Cli, exclude_from: Option<Seq<char>>) -> Seq<Seq<char>> {
    str_views(args.exclude_patterns@) + match exclude_from {
        Some(text) => pattern_lines(split_on(text, '\n')),
        None => Seq::empty(),
    }
}

/// The exclude patterns (see [`excludes_spec`]); `exclude_from` is the
/// text of the `--exclude-from` file, when one was given.
pub fn run_excludes(args: &Cli, exclude_from: Option<&str>) -> (r: Vec<String>)
    ensures
        str_views(r@) == excludes_spec(
            *args,
            match exclude_from {
                Some(t) => Some(t@),
                None => None,
            },
        ),
{
    let mut r = copy_strings(&args.exclude_patterns);
    match exclude_from {
        Some(text) => {
            let cs = chars_of(text);
            let lines = split_chars(&cs, '\n');
            let ghost start = str_views(r@);
            let mut i: usize = 0;
            while i < lines.len()
                invariant
                    i <= lines.len(),
                    str_views(r@) == start + pattern_lines(views(lines@).take(i as int)),
                decreases lines.len() - i,
            {
                assert(views(lines@).take(i as int + 1).drop_last() =~= views(lines@).take(
                    i as int,
                ));
                assert(views(lines@).take(i as int + 1).last() == lines@[i as int]@);
                let t = trim(&lines[i]);
                let ghost before = str_views(r@);
                if t.len() > 0 && t[0] != '#' {
                    r.push(string_of(&t));
                    assert(str_views(r@) =~= before.push(t@));
                }
                i = i + 1;
                assert(str_views(r@) =~= start + pattern_lines(views(lines@).take(i as int)));
            }
            assert(views(lines@).take(lines.len() as int) =~= views(lines@));
        },
        None => {
            assert(str_views(r@) =~= excludes_spec(*args, None));
        },
    }
    r
}

/// Whether output is verbose: `-v` given, or verbose by configuration.
pub fn is_verbose(args: &Cli, display: &DisplayConfig) -> (r: bool)
    ensures
        r == (args.verbose > 0 || display.verbose),
{
    args.verbose > 0 || display.verbose
}

/// Whether progress is shown: `--progress` (on by default) unless the
/// configured progress style is `none`.
pub fn shows_progress(args: &Cli, display: &DisplayConfig) -> (r: bool)
    ensures
        r == (args.progress && display.progress_style@ != "none"@),
{
    args.progress && !crate::text::same_text(display.progress_style.as_str(), "none")
}

/// The configuration after the command line and the environment had their
/// say: colors off with `--no-color` or `NO_COLOR`, emoji off with
/// `--no-emoji`.
pub open spec fn overridden(c: ConfigView, no_color: bool, no_emoji: bool, env_no_color: bool) -> ConfigView {
    ConfigView {
        display: DisplayView {
            colors: c.display.colors && !no_color && !env_no_color,
            emoji: c.display.emoji && !no_emoji,
            ..c.display
        },
        ..c
    }
}

/// Applies `--no-color`, `--no-emoji` and `NO_COLOR` (see [`overridden`]).
pub fn apply_overrides(cfg: &mut Config, no_color: bool, no_emoji: bool, env_no_color: bool)
    ensures
        final(cfg)@ == overridden(old(cfg)@, no_color, no_emoji, env_no_color),
{
    if no_color {
        cfg.display.colors = false;
    }
    if no_emoji {
        cfg.display.emoji = false;
    }
    if env_no_color {
        cfg.display.colors = false;
    }
}

/// Where extracted entries go: `-C DIR`, else the working directory.
pub fn extract_destination(args: &Cli) -> (r: String)
    ensures
        r@ == match args.directory {
            Some(d) => d@,
            None => "."@,
        },
{
    match &args.directory {
        Some(d) => d.clone(),
        None => owned("."),
    }
}

/// The depth a tree is shown to: `-d N` when given (not 0), else the
/// configured default (0 means unlimited).
pub fn tree_depth(depth: u32, display: &DisplayConfig) -> (r: u32)
    ensures
        r == (if depth > 0 { depth } else { display.tree_depth }),
{
    if depth > 0 {
        depth
    } else {
        display.tree_depth
    }
}

/// Whether a tree is drawn in ASCII: `--ascii`, or the configured tree style
/// is `ascii`.
pub fn tree_ascii(ascii: bool, display: &DisplayConfig) -> (r: bool)
    ensures
        r == (ascii || display.tree_style@ == "ascii"@),
{
    ascii || crate::text::same_text(display.tree_style.as_str(), "ascii")
}

/// Splits `section.name` at its first `.`: the section, and the rest (the
/// whole key when there is no `.`).
pub open spec fn key_halves(k: Seq<char>) -> (Seq<char>, Seq<char>) {
    let parts = split_on(k, '.');
    if parts.len() == 1 {
        (k, k)
    } else {
        (parts[0], k.skip((parts[0].len() + 1) as int))
    }
}

/// Splits a listed key into its section and field (see [`key_halves`]).
pub fn split_key(k: &str) -> (r: (String, String))
    ensures
        r.0@ == key_halves(k@).0,
        r.1@ == key_halves(k@).1,
{
    let cs = chars_of(k);
    let parts = split_chars(&cs, '.');
    proof {
        crate::text::lemma_split_on_nonempty(k@, '.');
        lemma_first_piece(k@, '.');
    }
    if parts.len() == 1 {
        return (owned(k), owned(k));
    }
    assert(views(parts@)[0] == parts@[0]@);
    assert(views(parts@).len() == parts@.len());
    assert(parts@[0]@.len() + 1 <= cs@.len());
    let first = &parts[0];
    assert(first@.len() + 1 <= cs.len());
    let sec = string_of(first);
    let start = first.len() + 1;
    let mut rest: Vec<char> = Vec::new();
    let mut i: usize = start;
    while i < cs.len()
        invariant
            start <= i <= cs.len(),
            rest@ == cs@.subrange(start as int, i as int),
        decreases cs.len() - i,
    {
        rest.push(cs[i]);
        i = i + 1;
        assert(rest@ =~= cs@.subrange(start as int, i as int));
    }
    assert(rest@ =~= k@.skip(start as int));
    (sec, string_of(&rest))
}

/// With more than one piece, the first piece and the separator begin `s`.
pub proof fn lemma_first_piece(s: Seq<char>, sep: char)
    ensures
        split_on(s, sep).len() >= 1,
        split_on(s, sep).len() > 1 ==> split_on(s, sep)[0].len() + 1 <= s.len() && s[split_on(
            s,
            sep,
        )[0].len() as int] == sep && s.take(split_on(s, sep)[0].len() as int) == split_on(
            s,
            sep,
        )[0],
        split_on(s, sep).len() == 1 ==> split_on(s, sep)[0] == s,
    decreases s.len(),
{
    crate::text::lemma_split_on_nonempty(s, sep);
    if s.len() > 0 {
        lemma_first_piece(s.drop_last(), sep);
        crate::text::lemma_split_on_nonempty(s.drop_last(), sep);
        let r = split_on(s.drop_last(), sep);
        if r.len() == 1 {
            if s.last() != sep {
                assert(split_on(s, sep)[0] =~= s);
            } else {
                assert(s.take(r[0].len() as int) =~= r[0]);
            }
        } else {
            assert(s.take(r[0].len() as int) =~= s.drop_last().take(r[0].len() as int));
        }
    }
}

} // verus!
