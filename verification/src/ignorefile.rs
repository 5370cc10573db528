//! Ignore files (`.gitignore`, `.dockerignore`, `.tarignore`, ...): their
//! pattern lines are gathered here, and the `ignore` crate decides which
//! paths they exclude.

use vstd::prelude::*;
use crate::path::same_path;
use crate::text::{chars_of, is_prefix, owned, split_chars, split_on, str_views, string_of, views};

verus! {

/// Whether `ignore`'s `GitignoreBuilder::add_line` accepts a pattern line.
pub uninterp spec fn gitignore_line_valid(line: Seq<char>) -> bool;

/// Whether `ignore`'s `GitignoreBuilder::build` succeeds on these lines.
pub uninterp spec fn gitignore_compiles(lines: Seq<Seq<char>>) -> bool;

/// Whether the matcher built from these lines has no glob at all
/// (`Gitignore::is_empty`).
pub uninterp spec fn gitignore_empty(lines: Seq<Seq<char>>) -> bool;

/// Whether the matcher built under `root` from these lines ignores `path`
/// or one of its parent directories (`matched_path_or_any_parents` gives
/// `Match::Ignore`).
pub uninterp spec fn gitignore_ignored(
    root: Seq<char>,
    lines: Seq<Seq<char>>,
    path: Seq<char>,
    is_dir: bool,
) -> bool;

/// `ignore`'s `GitignoreBuilder::add_line`: whether the line is accepted.
#[verifier::external_body]
fn gitignore_line_ok(line: &str) -> (r: bool)
    ensures
        r == gitignore_line_valid(line@),
{
    let mut b = ignore::gitignore::GitignoreBuilder::new("");
    b.add_line(None, line).is_ok()
}

/// `ignore`'s `GitignoreBuilder::build` on the given lines: whether it
/// succeeds.
#[verifier::external_body]
fn gitignore_builds(lines: &Vec<String>) -> (r: bool)
    ensures
        r == gitignore_compiles(str_views(lines@)),
{
    let mut b = ignore::gitignore::GitignoreBuilder::new("");
    for l in lines {
        let _ = b.add_line(None, l);
    }
    b.build().is_ok()
}

/// `ignore`'s `Gitignore::is_empty` on the matcher built from the lines.
#[verifier::external_body]
fn gitignore_is_empty(lines: &Vec<String>) -> (r: bool)
    requires
        gitignore_compiles(str_views(lines@)),
    ensures
        r == gitignore_empty(str_views(lines@)),
{
    let mut b = ignore::gitignore::GitignoreBuilder::new("");
    for l in lines {
        let _ = b.add_line(None, l);
    }
    b.build().map(|g| g.is_empty()).unwrap_or(true)
}

/// The path the matcher looks at once it has taken away a leading `./` and,
/// for a path with a `/` in it, the matcher's root (both compared byte by
/// byte) and a `/` after it. A root of `.` is never taken away.
pub open spec fn ignore_strip(root: Seq<char>, path: Seq<char>) -> Seq<char> {
    let r = if is_prefix("./"@, root) {
        root.skip(2)
    } else {
        root
    };
    let p = if is_prefix("./"@, path) {
        path.skip(2)
    } else {
        path
    };
    if !same_path(r, "."@) && p.contains('/') && is_prefix(r, p) {
        let q = p.skip(r.len() as int);
        if q.len() > 0 && q[0] == '/' {
            q.skip(1)
        } else {
            q
        }
    } else {
        p
    }
}

/// `ignore`'s `matched_path_or_any_parents` on the matcher built under
/// `root` from the lines: whether the answer is `Match::Ignore`. The crate
/// panics when the matcher has globs and the path, after
/// [`ignore_strip`], still starts with `/`; that input is excluded.
#[verifier::external_body]
fn gitignore_matches(root: &str, lines: &Vec<String>, path: &str, is_dir: bool) -> (r: bool)
    requires
        gitignore_compiles(str_views(lines@)),
        gitignore_empty(str_views(lines@)) || !(ignore_strip(root@, path@).len() > 0 && ignore_strip(
            root@,
            path@,
        )[0] == '/'),
    ensures
        r == gitignore_ignored(root@, str_views(lines@), path@, is_dir),
{
    let mut b = ignore::gitignore::GitignoreBuilder::new(root);
    for l in lines {
        let _ = b.add_line(None, l);
    }
    match b.build() {
        Ok(g) => g.matched_path_or_any_parents(path, is_dir).is_ignore(),
        Err(_) => false,
    }
}

/// The names of the ignore files looked for in a directory, in order.
pub open spec fn standard_ignore_files_spec() -> Seq<Seq<char>> {
    seq![
        ".tar2ignore"@,
        ".tarignore"@,
        ".gitignore"@,
        ".dockerignore"@,
        ".npmignore"@,
        ".hgignore"@,
        ".ignore"@,
    ]
}

/// The names of the ignore files looked for in a directory, in order.
pub fn standard_ignore_files() -> (r: Vec<&'static str>)
    ensures
        r@.map_values(|s: &str| s@) == standard_ignore_files_spec(),
{
    let r = vec![
        ".tar2ignore",
        ".tarignore",
        ".gitignore",
        ".dockerignore",
        ".npmignore",
        ".hgignore",
        ".ignore",
    ];
    assert(r@.map_values(|s: &str| s@) =~= standard_ignore_files_spec());
    r
}

/// Why ignore rules could not be gathered.
#[derive(Debug, Clone, PartialEq, Eq)]
pub enum IgnoreError {
    /// A line of this ignore file is not a valid pattern.
    InvalidIgnoreFile(String),
    /// This pattern line is not valid.
    InvalidPattern(String),
    /// The patterns could not be compiled together.
    CompileFailed,
}

impl IgnoreError {
    /// The message that reports a failure: the ignore file's path, the
    /// refused pattern in quotes, or that compiling failed.
    pub open spec fn message_spec(&self) -> Seq<char> {
        match self {
            IgnoreError::InvalidIgnoreFile(p) => "Invalid ignore file: "@ + p@,
            IgnoreError::InvalidPattern(l) => "Invalid ignore pattern '"@ + l@ + "'"@,
            IgnoreError::CompileFailed => "Failed to compile ignore patterns"@,
        }
    }

    /// The message that reports the failure (see [`IgnoreError::message_spec`]).
    pub fn message(&self) -> (r: String)
        ensures
            r@ == self.message_spec(),
    {
        match self {
            IgnoreError::InvalidIgnoreFile(p) => {
                let mut m = owned("Invalid ignore file: ");
                crate::text::push_str(&mut m, p.as_str());
                m
            },
            IgnoreError::InvalidPattern(l) => {
                let mut m = owned("Invalid ignore pattern '");
                crate::text::push_str(&mut m, l.as_str());
                crate::text::push_str(&mut m, "'");
                m
            },
            IgnoreError::CompileFailed => owned("Failed to compile ignore patterns"),
        }
    }
}

/// The lines of a file as a buffered reader yields them: split at `\n`,
/// a `\r` before the `\n` dropped, no empty piece after a final `\n`.
pub open spec fn file_lines(text: Seq<char>) -> Seq<Seq<char>> {
    let pieces = split_on(text, '\n');
    let n = if pieces.last().len() == 0 {
        pieces.len() - 1
    } else {
        pieces.len() as int
    };
    Seq::new(n as nat, |i: int| line_at(pieces, i))
}

/// Piece `i` of a file's text as a line: a `\r` before its `\n` dropped.
pub open spec fn line_at(pieces: Seq<Seq<char>>, i: int) -> Seq<char> {
    if i < pieces.len() - 1 && pieces[i].len() > 0 && pieces[i].last() == '\r' {
        pieces[i].drop_last()
    } else {
        pieces[i]
    }
}

/// `s` without any leading byte-order marks.
pub open spec fn without_boms(s: Seq<char>) -> Seq<char>
    decreases s.len(),
{
    if s.len() > 0 && s[0] == '\u{feff}' {
        without_boms(s.drop_first())
    } else {
        s
    }
}

/// The pattern lines a file contributes: its lines, the first without
/// byte-order marks.
pub open spec fn ignore_file_lines(text: Seq<char>) -> Seq<Seq<char>> {
    let ls = file_lines(text);
    if ls.len() == 0 {
        ls
    } else {
        ls.update(0, without_boms(ls[0]))
    }
}

/// The lines of `ls` that are valid patterns, in order.
pub open spec fn valid_lines(ls: Seq<Seq<char>>) -> Seq<Seq<char>>
    decreases ls.len(),
{
    if ls.len() == 0 {
        Seq::empty()
    } else if gitignore_line_valid(ls.last()) {
        valid_lines(ls.drop_last()).push(ls.last())
    } else {
        valid_lines(ls.drop_last())
    }
}

/// Ignore rules ready to be matched against paths.
pub struct IgnoreSet {
    root: String,
    lines: Vec<String>,
    sources: Vec<String>,
}

impl IgnoreSet {
    #[verifier::type_invariant]
    spec fn compiled(&self) -> bool {
        gitignore_compiles(str_views(self.lines@))
    }

    /// The directory patterns are relative to.
    pub closed spec fn root_spec(&self) -> Seq<char> {
        self.root@
    }

    /// The pattern lines, in the order they were added.
    pub closed spec fn lines_spec(&self) -> Seq<Seq<char>> {
        str_views(self.lines@)
    }

    /// The ignore files the rules were read from.
    pub closed spec fn sources_spec(&self) -> Seq<Seq<char>> {
        str_views(self.sources@)
    }

    /// The ignore files the rules were read from.
    pub fn sources(&self) -> (r: &Vec<String>)
        ensures
            str_views(r@) == self.sources_spec(),
    {
        &self.sources
    }

    /// Whether asking about `path` is safe: the rules have no glob, or the
    /// path does not start with `/` once the root is taken away.
    pub open spec fn accepts(&self, path: Seq<char>) -> bool {
        gitignore_empty(self.lines_spec()) || !(ignore_strip(self.root_spec(), path).len() > 0
            && ignore_strip(self.root_spec(), path)[0] == '/')
    }

    /// Whether `path` may be asked about (see [`IgnoreSet::accepts`]).
    pub fn can_match(&self, path: &str) -> (r: bool)
        ensures
            r == self.accepts(path@),
    {
        proof {
            use_type_invariant(self);
        }
        if gitignore_is_empty(&self.lines) {
            return true;
        }
        let s = strip_for_ignore(self.root.as_str(), path);
        !(s.len() > 0 && s[0] == '/')
    }

    /// Whether `path` (a directory when `is_dir`) or one of its parents is
    /// ignored and not re-included by a later `!pattern`.
    pub fn is_ignored(&self, path: &str, is_dir: bool) -> (r: bool)
        requires
            self.accepts(path@),
        ensures
            r == gitignore_ignored(self.root_spec(), self.lines_spec(), path@, is_dir),
    {
        proof {
            use_type_invariant(self);
        }
        gitignore_matches(self.root.as_str(), &self.lines, path, is_dir)
    }

    /// Whether `path` is ignored, when it may be asked about (see
    /// [`IgnoreSet::accepts`]); nothing otherwise.
    pub fn try_is_ignored(&self, path: &str, is_dir: bool) -> (r: Option<bool>)
        ensures
            r is Some <==> self.accepts(path@),
            r matches Some(b) ==> b == gitignore_ignored(
                self.root_spec(),
                self.lines_spec(),
                path@,
                is_dir,
            ),
    {
        if self.can_match(path) {
            Some(self.is_ignored(path, is_dir))
        } else {
            None
        }
    }
}

/// What [`ignore_strip`] gives.
pub fn strip_for_ignore(root: &str, path: &str) -> (r: Vec<char>)
    ensures
        r@ == ignore_strip(root@, path@),
{
    let rc0 = chars_of(root);
    let pc0 = chars_of(path);
    proof {
        reveal_strlit("./");
    }
    let rc = if crate::text::starts_with(&rc0, "./") {
        skip_chars(&rc0, 2)
    } else {
        rc0
    };
    let pc = if crate::text::starts_with(&pc0, "./") {
        skip_chars(&pc0, 2)
    } else {
        pc0
    };
    let rs = string_of(&rc);
    let has_slash = contains_char(&pc, '/');
    if !crate::path::paths_equal(rs.as_str(), ".") && has_slash && prefix_of(&rc, &pc) {
        let q = skip_chars(&pc, rc.len());
        if q.len() > 0 && q[0] == '/' {
            skip_chars(&q, 1)
        } else {
            q
        }
    } else {
        pc
    }
}

pub(crate) fn skip_chars(v: &Vec<char>, n: usize) -> (r: Vec<char>)
    requires
        n <= v.len(),
    ensures
        r@ == v@.skip(n as int),
{
    let mut r: Vec<char> = Vec::new();
    let mut i: usize = n;
    while i < v.len()
        invariant
            n <= i <= v.len(),
            r@ == v@.subrange(n as int, i as int),
        decreases v.len() - i,
    {
        r.push(v[i]);
        i = i + 1;
        assert(r@ =~= v@.subrange(n as int, i as int));
    }
    r
}

fn contains_char(v: &Vec<char>, c: char) -> (r: bool)
    ensures
        r == v@.contains(c),
{
    let mut i: usize = 0;
    while i < v.len()
        invariant
            i <= v.len(),
            forall|j: int| 0 <= j < i ==> v@[j] != c,
        decreases v.len() - i,
    {
        if v[i] == c {
            assert(v@[i as int] == c);
            return true;
        }
        i = i + 1;
    }
    false
}

fn prefix_of(p: &Vec<char>, s: &Vec<char>) -> (r: bool)
    ensures
        r == is_prefix(p@, s@),
{
    if p.len() > s.len() {
        return false;
    }
    let mut i: usize = 0;
    while i < p.len()
        invariant
            p.len() <= s.len(),
            i <= p.len(),
            forall|j: int| 0 <= j < i ==> s@[j] == p@[j],
        decreases p.len() - i,
    {
        if s[i] != p[i] {
            assert(s@.take(p@.len() as int)[i as int] != p@[i as int]);
            return false;
        }
        i = i + 1;
    }
    assert(s@.take(p@.len() as int) =~= p@);
    true
}

/// Gathers ignore rules from files and single lines.
pub struct IgnoreSetBuilder {
    root: String,
    lines: Vec<String>,
    sources: Vec<String>,
    scanned_dirs: Vec<String>,
}

/// What an [`IgnoreSetBuilder`] holds.
pub struct IgnoreSetBuilderView {
    pub root: Seq<char>,
    pub lines: Seq<Seq<char>>,
    pub sources: Seq<Seq<char>>,
    pub scanned_dirs: Seq<Seq<char>>,
}

impl View for IgnoreSetBuilder {
    type V = IgnoreSetBuilderView;

    closed spec fn view(&self) -> IgnoreSetBuilderView {
        IgnoreSetBuilderView {
            root: self.root@,
            lines: str_views(self.lines@),
            sources: str_views(self.sources@),
            scanned_dirs: str_views(self.scanned_dirs@),
        }
    }
}

/// Whether `dirs` holds a path equal to `d` (component by component).
pub open spec fn scanned(dirs: Seq<Seq<char>>, d: Seq<char>) -> bool {
    exists|i: int| 0 <= i < dirs.len() && same_path(#[trigger] dirs[i], d)
}

/// A directory is looked in once: once recorded, it counts as scanned, so
/// [`IgnoreSetBuilder::begin_scan`] refuses it (and any path equal to it)
/// from then on.
pub proof fn law_scan_once(dirs: Seq<Seq<char>>, d: Seq<char>)
    ensures
        scanned(dirs.push(d), d),
{
    assert(dirs.push(d)[dirs.len() as int] == d);
    assert(same_path(dirs.push(d)[dirs.len() as int], d));
}

impl IgnoreSetBuilder {
    /// An empty builder; relative patterns are resolved against `root`.
    pub fn new(root: &str) -> (b: IgnoreSetBuilder)
        ensures
            b@.root == root@,
            b@.lines.len() == 0,
            b@.sources.len() == 0,
            b@.scanned_dirs.len() == 0,
    {
        let b = IgnoreSetBuilder {
            root: owned(root),
            lines: Vec::new(),
            sources: Vec::new(),
            scanned_dirs: Vec::new(),
        };
        assert(b@.lines =~= Seq::<Seq<char>>::empty());
        assert(b@.sources =~= Seq::<Seq<char>>::empty());
        assert(b@.scanned_dirs =~= Seq::<Seq<char>>::empty());
        b
    }

    /// Records that a directory (by its canonical path) is being looked in
    /// for ignore files; false, with nothing changed, when it already was.
    pub fn begin_scan(&mut self, canonical: &str) -> (fresh: bool)
        ensures
            fresh == !scanned(old(self)@.scanned_dirs, canonical@),
            final(self)@.root == old(self)@.root,
            final(self)@.lines == old(self)@.lines,
            final(self)@.sources == old(self)@.sources,
            final(self)@.scanned_dirs == if fresh {
                old(self)@.scanned_dirs.push(canonical@)
            } else {
                old(self)@.scanned_dirs
            },
    {
        let mut i: usize = 0;
        while i < self.scanned_dirs.len()
            invariant
                i <= self.scanned_dirs.len(),
                forall|j: int|
                    0 <= j < i ==> !same_path(
                        #[trigger] str_views(self.scanned_dirs@)[j],
                        canonical@,
                    ),
            decreases self.scanned_dirs.len() - i,
        {
            if crate::path::paths_equal(self.scanned_dirs[i].as_str(), canonical) {
                assert(str_views(self.scanned_dirs@)[i as int] == self.scanned_dirs@[i as int]@);
                return false;
            }
            i = i + 1;
        }
        let ghost before = str_views(self.scanned_dirs@);
        self.scanned_dirs.push(owned(canonical));
        assert(str_views(self.scanned_dirs@) =~= before.push(canonical@));
        true
    }

    /// Adds the pattern lines of an ignore file read from `path` (see
    /// [`ignore_file_lines`]): the valid ones are kept; when every line is
    /// valid the file is recorded as a source, else it is refused.
    pub fn add_file(&mut self, path: &str, text: &str) -> (r: Result<(), IgnoreError>)
        ensures
            final(self)@.root == old(self)@.root,
            final(self)@.scanned_dirs == old(self)@.scanned_dirs,
            final(self)@.lines == old(self)@.lines + valid_lines(ignore_file_lines(text@)),
            match r {
                Ok(()) => valid_lines(ignore_file_lines(text@)) == ignore_file_lines(text@)
                    && final(self)@.sources == old(self)@.sources.push(path@),
                Err(e) => valid_lines(ignore_file_lines(text@)) != ignore_file_lines(text@)
                    && final(self)@.sources == old(self)@.sources && e is InvalidIgnoreFile,
            },
    {
        let ls = file_lines_of(text);
        let mut all_ok = true;
        let ghost start = str_views(self.lines@);
        let ghost lsv = ignore_file_lines(text@);
        assert(lsv.take(0) =~= Seq::<Seq<char>>::empty());
        let mut i: usize = 0;
        while i < ls.len()
            invariant
                i <= ls.len(),
                str_views(ls@) == lsv,
                str_views(self.lines@) == start + valid_lines(lsv.take(i as int)),
                all_ok == (valid_lines(lsv.take(i as int)) == lsv.take(i as int)),
                self@.root == old(self)@.root,
                self@.sources == old(self)@.sources,
                self@.scanned_dirs == old(self)@.scanned_dirs,
            decreases ls.len() - i,
        {
            let line = &ls[i];
            assert(str_views(ls@)[i as int] == line@);
            proof {
                lemma_valid_step(lsv, i as int);
            }
            let ghost before = str_views(self.lines@);
            let ok = gitignore_line_ok(line.as_str());
            if ok {
                self.lines.push(line.clone());
                assert(str_views(self.lines@) =~= before.push(line@));
            }
            all_ok = all_ok && ok;
            i = i + 1;
        }
        assert(lsv.take(ls.len() as int) =~= lsv);
        if !all_ok {
            return Err(IgnoreError::InvalidIgnoreFile(owned(path)));
        }
        let ghost sb = str_views(self.sources@);
        self.sources.push(owned(path));
        assert(str_views(self.sources@) =~= sb.push(path@));
        Ok(())
    }

    /// Adds a single pattern line; it is refused when not valid.
    pub fn add_line(&mut self, line: &str) -> (r: Result<(), IgnoreError>)
        ensures
            final(self)@.root == old(self)@.root,
            final(self)@.sources == old(self)@.sources,
            final(self)@.scanned_dirs == old(self)@.scanned_dirs,
            match r {
                Ok(()) => gitignore_line_valid(line@) && final(self)@.lines == old(self)@.lines.push(
                    line@,
                ),
                Err(e) => !gitignore_line_valid(line@) && final(self)@.lines == old(self)@.lines
                    && e is InvalidPattern,
            },
    {
        if !gitignore_line_ok(line) {
            return Err(IgnoreError::InvalidPattern(owned(line)));
        }
        let ghost before = str_views(self.lines@);
        self.lines.push(owned(line));
        assert(str_views(self.lines@) =~= before.push(line@));
        Ok(())
    }

    /// Whether no ignore file has been added.
    pub fn is_empty(&self) -> (r: bool)
        ensures
            r == (self@.sources.len() == 0),
    {
        self.sources.len() == 0
    }

    /// The finished rules: none when neither an ignore file nor a line was
    /// added; refused when the patterns do not compile together.
    pub fn build(self) -> (r: Result<Option<IgnoreSet>, IgnoreError>)
        ensures
            match r {
                Ok(None) => self@.sources.len() == 0 && self@.lines.len() == 0,
                Ok(Some(set)) => (self@.sources.len() > 0 || self@.lines.len() > 0)
                    && gitignore_compiles(self@.lines) && set.root_spec() == self@.root
                    && set.lines_spec() == self@.lines && set.sources_spec() == self@.sources,
                Err(e) => (self@.sources.len() > 0 || self@.lines.len() > 0) && !gitignore_compiles(
                    self@.lines,
                ) && e is CompileFailed,
            },
    {
        if self.sources.len() == 0 && self.lines.len() == 0 {
            return Ok(None);
        }
        if !gitignore_builds(&self.lines) {
            return Err(IgnoreError::CompileFailed);
        }
        Ok(Some(IgnoreSet { root: self.root, lines: self.lines, sources: self.sources }))
    }
}

proof fn lemma_valid_lines_len(ls: Seq<Seq<char>>)
    ensures
        valid_lines(ls).len() <= ls.len(),
    decreases ls.len(),
{
    if ls.len() > 0 {
        lemma_valid_lines_len(ls.drop_last());
    }
}

proof fn lemma_valid_step(ls: Seq<Seq<char>>, i: int)
    requires
        0 <= i < ls.len(),
    ensures
        valid_lines(ls.take(i + 1)) == if gitignore_line_valid(ls[i]) {
            valid_lines(ls.take(i)).push(ls[i])
        } else {
            valid_lines(ls.take(i))
        },
        (valid_lines(ls.take(i + 1)) == ls.take(i + 1)) == (valid_lines(ls.take(i)) == ls.take(i)
            && gitignore_line_valid(ls[i])),
{
    let t = ls.take(i);
    assert(ls.take(i + 1) =~= t.push(ls[i]));
    assert(t.push(ls[i]).drop_last() =~= t);
    lemma_valid_lines_len(t);
    if gitignore_line_valid(ls[i]) {
        if valid_lines(t) != t {
            lemma_valid_lines_push_ne(t, ls[i]);
        }
    } else {
        assert(valid_lines(t.push(ls[i])).len() < t.push(ls[i]).len());
    }
}

proof fn lemma_valid_lines_push_ne(ls: Seq<Seq<char>>, l: Seq<char>)
    requires
        valid_lines(ls) != ls,
    ensures
        valid_lines(ls.push(l)) != ls.push(l),
{
    lemma_valid_lines_len(ls);
    assert(ls.push(l).drop_last() =~= ls);
    if gitignore_line_valid(l) {
        if valid_lines(ls.push(l)) == ls.push(l) {
            assert(valid_lines(ls) =~= valid_lines(ls.push(l)).drop_last());
            assert(ls =~= ls.push(l).drop_last());
        }
    } else {
        lemma_valid_lines_len(ls);
    }
}

/// The lines of a file's text (see [`file_lines`]).
fn split_file_lines(text: &str) -> (r: Vec<String>)
    ensures
        str_views(r@) == file_lines(text@),
{
    let cs = chars_of(text);
    let pieces = split_chars(&cs, '\n');
    proof {
        crate::text::lemma_split_on_nonempty(text@, '\n');
    }
    let ghost pv = views(pieces@);
    assert(pv.last() == pieces@[pieces.len() - 1]@);
    let n = if pieces[pieces.len() - 1].len() == 0 {
        pieces.len() - 1
    } else {
        pieces.len()
    };
    let mut out: Vec<String> = Vec::new();
    let mut i: usize = 0;
    while i < n
        invariant
            i <= n <= pieces.len(),
            pv == views(pieces@),
            pv == split_on(text@, '\n'),
            n == file_lines(text@).len(),
            str_views(out@) == file_lines(text@).take(i as int),
        decreases n - i,
    {
        let p = &pieces[i];
        assert(pv[i as int] == p@);
        let line = if i + 1 < pieces.len() && p.len() > 0 && p[p.len() - 1] == '\r' {
            let mut q = crate::path::copy_chars(p);
            q.pop();
            assert(q@ =~= p@.drop_last());
            q
        } else {
            crate::path::copy_chars(p)
        };
        assert(line@ == line_at(pv, i as int));
        assert(file_lines(text@)[i as int] == line_at(pv, i as int));
        let ghost before = str_views(out@);
        out.push(string_of(&line));
        assert(str_views(out@) =~= before.push(line@));
        i = i + 1;
        assert(str_views(out@) =~= file_lines(text@).take(i as int));
    }
    assert(file_lines(text@).take(n as int) =~= file_lines(text@));
    out
}

/// `s` without leading byte-order marks (see [`without_boms`]).
fn strip_boms(s: &String) -> (r: String)
    ensures
        r@ == without_boms(s@),
{
    let fc = chars_of(s.as_str());
    let mut k: usize = 0;
    assert(fc@.skip(0) =~= fc@);
    while k < fc.len() && fc[k] == '\u{feff}'
        invariant
            k <= fc.len(),
            without_boms(fc@) == without_boms(fc@.skip(k as int)),
        decreases fc.len() - k,
    {
        assert(fc@.skip(k as int).drop_first() =~= fc@.skip(k + 1));
        k = k + 1;
    }
    let rest = skip_chars(&fc, k);
    string_of(&rest)
}

/// The pattern lines of a file's text (see [`ignore_file_lines`]).
pub fn file_lines_of(text: &str) -> (r: Vec<String>)
    ensures
        str_views(r@) == ignore_file_lines(text@),
{
    let mut out = split_file_lines(text);
    if out.len() > 0 {
        let first = strip_boms(&out[0]);
        let ghost before = str_views(out@);
        out.set(0, first);
        assert(str_views(out@) =~= before.update(0, first@));
    }
    out
}

} // verus!
