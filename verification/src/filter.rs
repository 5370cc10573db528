//! Which entries an operation takes: ignore rules, exclude and include
//! globs (the `glob` crate) and regular expressions (the `regex` crate).

use vstd::prelude::*;
use crate::ignorefile::{IgnoreSet, gitignore_ignored};
use crate::path::{file_name, path_file_name, same_path};
use crate::text::{owned, push_str, str_views, string_of};

verus! {

/// Why `glob::Pattern::new` refuses a pattern (its error shown as text),
/// or nothing when it accepts it.
pub uninterp spec fn glob_problem_spec(pattern: Seq<char>) -> Option<Seq<char>>;

/// Whether the compiled glob `pattern` matches `text` (`Pattern::matches`).
pub uninterp spec fn glob_match_spec(pattern: Seq<char>, text: Seq<char>) -> bool;

/// Why `regex::Regex::new` refuses a pattern (its error shown as text), or
/// nothing when it accepts it.
pub uninterp spec fn regex_problem_spec(pattern: Seq<char>) -> Option<Seq<char>>;

/// Whether the compiled regular expression `pattern` matches somewhere in
/// `text` (`Regex::is_match`).
pub uninterp spec fn regex_match_spec(pattern: Seq<char>, text: Seq<char>) -> bool;

/// `glob::Pattern::new`: the error it reports as text, if any.
#[verifier::external_body]
fn glob_problem(pattern: &str) -> (r: Option<String>)
    ensures
        crate::config::opt_view(r) == glob_problem_spec(pattern@),
{
    match glob::Pattern::new(pattern) {
        Ok(_) => None,
        Err(e) => Some(e.to_string()),
    }
}

/// `glob::Pattern::new` then `Pattern::matches`.
#[verifier::external_body]
fn glob_matches(pattern: &str, text: &str) -> (r: bool)
    requires
        glob_problem_spec(pattern@) is None,
    ensures
        r == glob_match_spec(pattern@, text@),
{
    match glob::Pattern::new(pattern) {
        Ok(p) => p.matches(text),
        Err(_) => false,
    }
}

/// `regex::Regex::new`: the error it reports as text, if any.
#[verifier::external_body]
pub(crate) fn regex_problem(pattern: &str) -> (r: Option<String>)
    ensures
        crate::config::opt_view(r) == regex_problem_spec(pattern@),
{
    match regex::Regex::new(pattern) {
        Ok(_) => None,
        Err(e) => Some(e.to_string()),
    }
}

/// `regex::Regex::new` then `Regex::is_match`.
#[verifier::external_body]
fn regex_matches(pattern: &str, text: &str) -> (r: bool)
    requires
        regex_problem_spec(pattern@) is None,
    ensures
        r == regex_match_spec(pattern@, text@),
{
    match regex::Regex::new(pattern) {
        Ok(re) => re.is_match(text),
        Err(_) => false,
    }
}

/// Why a filter could not be built.
#[derive(Debug, Clone, PartialEq, Eq)]
pub enum FilterError {
    /// A glob was refused: the pattern and the reason.
    InvalidGlob(String, String),
    /// A regular expression was refused: the pattern and the reason.
    InvalidRegex(String, String),
}

impl FilterError {
    /// The message that reports the failure.
    pub fn message(&self) -> (r: String)
        ensures
            r@ == match self {
                FilterError::InvalidGlob(p, e) => "Invalid glob '"@ + p@ + "': "@ + e@,
                FilterError::InvalidRegex(p, e) => "Invalid regex '"@ + p@ + "': "@ + e@,
            },
    {
        let (pre, p, e) = match self {
            FilterError::InvalidGlob(p, e) => ("Invalid glob '", p, e),
            FilterError::InvalidRegex(p, e) => ("Invalid regex '", p, e),
        };
        let mut m = owned(pre);
        push_str(&mut m, p.as_str());
        push_str(&mut m, "': ");
        push_str(&mut m, e.as_str());
        m
    }
}

/// What a [`FileFilter`] holds.
pub struct FilterView {
    pub include_globs: Seq<Seq<char>>,
    pub exclude_globs: Seq<Seq<char>>,
    pub include_regex: Seq<Seq<char>>,
    pub exclude_regex: Seq<Seq<char>>,
    /// The ignore rules' root and lines, when there are any.
    pub ignore: Option<(Seq<char>, Seq<Seq<char>>)>,
    /// The ignore files the rules came from.
    pub ignore_sources: Seq<Seq<char>>,
    pub keep_ignore_files: bool,
}

/// Whether some glob of `pats` matches `text`.
pub open spec fn any_glob(pats: Seq<Seq<char>>, text: Seq<char>) -> bool {
    exists|i: int| 0 <= i < pats.len() && glob_match_spec(#[trigger] pats[i], text)
}

/// Whether some regular expression of `pats` matches `text`.
pub open spec fn any_regex(pats: Seq<Seq<char>>, text: Seq<char>) -> bool {
    exists|i: int| 0 <= i < pats.len() && regex_match_spec(#[trigger] pats[i], text)
}

/// Whether the ignore rules drop `path`.
pub open spec fn ignored_by(f: FilterView, path: Seq<char>, is_dir: bool) -> bool {
    match f.ignore {
        Some((root, lines)) => gitignore_ignored(root, lines, path, is_dir),
        None => false,
    }
}

/// Whether a filter takes `path` (a directory when `is_dir`): ignored
/// paths never; then a path matched by an exclude glob (on the whole path or
/// on its file name) or an exclude regular expression is dropped; then,
/// when there are include globs, a path is taken when one matches (path or
/// file name), or else when an include regular expression matches it; with
/// only include regular expressions, when one matches; with no include
/// pattern, always.
pub open spec fn accepts_spec(f: FilterView, path: Seq<char>, is_dir: bool) -> bool {
    let name = match file_name(path) {
        Some(n) => n,
        None => Seq::empty(),
    };
    if ignored_by(f, path, is_dir) {
        false
    } else if any_glob(f.exclude_globs, path) || any_glob(f.exclude_globs, name) {
        false
    } else if any_regex(f.exclude_regex, path) {
        false
    } else if f.include_globs.len() > 0 {
        if any_glob(f.include_globs, path) || any_glob(f.include_globs, name) {
            true
        } else {
            f.include_regex.len() > 0 && any_regex(f.include_regex, path)
        }
    } else if f.include_regex.len() > 0 {
        any_regex(f.include_regex, path)
    } else {
        true
    }
}

/// Which entries an operation takes.
pub struct FileFilter {
    include_globs: Vec<String>,
    exclude_globs: Vec<String>,
    exclude_regex: Vec<String>,
    include_regex: Vec<String>,
    ignore: Option<IgnoreSet>,
    keep_ignore_files: bool,
}

/// Whether every glob of `pats` is accepted.
pub open spec fn globs_ok(pats: Seq<Seq<char>>) -> bool {
    forall|i: int| 0 <= i < pats.len() ==> glob_problem_spec(#[trigger] pats[i]) is None
}

/// Whether every regular expression of `pats` is accepted.
pub open spec fn regexes_ok(pats: Seq<Seq<char>>) -> bool {
    forall|i: int| 0 <= i < pats.len() ==> regex_problem_spec(#[trigger] pats[i]) is None
}

impl View for FileFilter {
    type V = FilterView;

    closed spec fn view(&self) -> FilterView {
        FilterView {
            include_globs: str_views(self.include_globs@),
            exclude_globs: str_views(self.exclude_globs@),
            include_regex: str_views(self.include_regex@),
            exclude_regex: str_views(self.exclude_regex@),
            ignore: match self.ignore {
                Some(s) => Some((s.root_spec(), s.lines_spec())),
                None => None,
            },
            ignore_sources: match self.ignore {
                Some(s) => s.sources_spec(),
                None => Seq::empty(),
            },
            keep_ignore_files: self.keep_ignore_files,
        }
    }
}

/// Checks each glob; the first refused one is reported.
fn check_globs(pats: &Vec<String>) -> (r: Result<(), FilterError>)
    ensures
        r is Ok <==> globs_ok(str_views(pats@)),
{
    let mut i: usize = 0;
    while i < pats.len()
        invariant
            i <= pats.len(),
            forall|j: int| 0 <= j < i ==> glob_problem_spec(#[trigger] str_views(pats@)[j]) is None,
        decreases pats.len() - i,
    {
        assert(str_views(pats@)[i as int] == pats@[i as int]@);
        match glob_problem(pats[i].as_str()) {
            Some(e) => {
                return Err(FilterError::InvalidGlob(pats[i].clone(), e));
            },
            None => {},
        }
        i = i + 1;
    }
    Ok(())
}

/// Checks each regular expression; the first refused one is reported.
fn check_regexes(pats: &Vec<String>) -> (r: Result<(), FilterError>)
    ensures
        r is Ok <==> regexes_ok(str_views(pats@)),
{
    let mut i: usize = 0;
    while i < pats.len()
        invariant
            i <= pats.len(),
            forall|j: int| 0 <= j < i ==> regex_problem_spec(#[trigger] str_views(pats@)[j]) is None,
        decreases pats.len() - i,
    {
        assert(str_views(pats@)[i as int] == pats@[i as int]@);
        match regex_problem(pats[i].as_str()) {
            Some(e) => {
                return Err(FilterError::InvalidRegex(pats[i].clone(), e));
            },
            None => {},
        }
        i = i + 1;
    }
    Ok(())
}

/// Whether some glob of `pats` matches `text`.
fn some_glob(pats: &Vec<String>, text: &str) -> (r: bool)
    requires
        globs_ok(str_views(pats@)),
    ensures
        r == any_glob(str_views(pats@), text@),
{
    let mut i: usize = 0;
    while i < pats.len()
        invariant
            i <= pats.len(),
            globs_ok(str_views(pats@)),
            forall|j: int| 0 <= j < i ==> !glob_match_spec(#[trigger] str_views(pats@)[j], text@),
        decreases pats.len() - i,
    {
        assert(str_views(pats@)[i as int] == pats@[i as int]@);
        if glob_matches(pats[i].as_str(), text) {
            return true;
        }
        i = i + 1;
    }
    false
}

/// Whether some regular expression of `pats` matches `text`.
fn some_regex(pats: &Vec<String>, text: &str) -> (r: bool)
    requires
        regexes_ok(str_views(pats@)),
    ensures
        r == any_regex(str_views(pats@), text@),
{
    let mut i: usize = 0;
    while i < pats.len()
        invariant
            i <= pats.len(),
            regexes_ok(str_views(pats@)),
            forall|j: int| 0 <= j < i ==> !regex_match_spec(#[trigger] str_views(pats@)[j], text@),
        decreases pats.len() - i,
    {
        assert(str_views(pats@)[i as int] == pats@[i as int]@);
        if regex_matches(pats[i].as_str(), text) {
            return true;
        }
        i = i + 1;
    }
    false
}

impl FileFilter {
    #[verifier::type_invariant]
    spec fn well_formed(&self) -> bool {
        &&& globs_ok(str_views(self.include_globs@))
        &&& globs_ok(str_views(self.exclude_globs@))
        &&& regexes_ok(str_views(self.include_regex@))
        &&& regexes_ok(str_views(self.exclude_regex@))
    }

    /// A filter with no ignore rules (see [`FileFilter::with_ignore`]).
    pub fn new(
        include_globs: &Vec<String>,
        exclude_globs: &Vec<String>,
        include_re: &Vec<String>,
        exclude_re: &Vec<String>,
    ) -> (r: Result<FileFilter, FilterError>)
        ensures
            match r {
                Ok(f) => globs_ok(str_views(include_globs@)) && globs_ok(str_views(exclude_globs@))
                    && regexes_ok(str_views(include_re@)) && regexes_ok(str_views(exclude_re@))
                    && f@ == (FilterView {
                    include_globs: str_views(include_globs@),
                    exclude_globs: str_views(exclude_globs@),
                    include_regex: str_views(include_re@),
                    exclude_regex: str_views(exclude_re@),
                    ignore: None,
                    ignore_sources: Seq::empty(),
                    keep_ignore_files: false,
                }),
                Err(_) => !(globs_ok(str_views(include_globs@)) && globs_ok(
                    str_views(exclude_globs@),
                ) && regexes_ok(str_views(include_re@)) && regexes_ok(str_views(exclude_re@))),
            },
    {
        FileFilter::with_ignore(include_globs, exclude_globs, include_re, exclude_re, None, false)
    }

    /// A filter from include and exclude globs, include and exclude regular
    /// expressions and optional ignore rules. Every pattern is checked, in
    /// that order, and the first refused one is reported.
    pub fn with_ignore(
        include_globs: &Vec<String>,
        exclude_globs: &Vec<String>,
        include_re: &Vec<String>,
        exclude_re: &Vec<String>,
        ignore: Option<IgnoreSet>,
        keep_ignore_files: bool,
    ) -> (r: Result<FileFilter, FilterError>)
        ensures
            match r {
                Ok(f) => globs_ok(str_views(include_globs@)) && globs_ok(str_views(exclude_globs@))
                    && regexes_ok(str_views(include_re@)) && regexes_ok(str_views(exclude_re@))
                    && f@ == (FilterView {
                    include_globs: str_views(include_globs@),
                    exclude_globs: str_views(exclude_globs@),
                    include_regex: str_views(include_re@),
                    exclude_regex: str_views(exclude_re@),
                    ignore: match ignore {
                        Some(s) => Some((s.root_spec(), s.lines_spec())),
                        None => None,
                    },
                    ignore_sources: match ignore {
                        Some(s) => s.sources_spec(),
                        None => Seq::empty(),
                    },
                    keep_ignore_files,
                }),
                Err(_) => !(globs_ok(str_views(include_globs@)) && globs_ok(
                    str_views(exclude_globs@),
                ) && regexes_ok(str_views(include_re@)) && regexes_ok(str_views(exclude_re@))),
            },
    {
        check_globs(include_globs)?;
        check_globs(exclude_globs)?;
        check_regexes(include_re)?;
        check_regexes(exclude_re)?;
        Ok(
            FileFilter {
                include_globs: crate::cli::copy_strings(include_globs),
                exclude_globs: crate::cli::copy_strings(exclude_globs),
                exclude_regex: crate::cli::copy_strings(exclude_re),
                include_regex: crate::cli::copy_strings(include_re),
                ignore,
                keep_ignore_files,
            },
        )
    }

    /// The ignore files whose rules are in use.
    pub fn ignore_sources(&self) -> (r: Vec<String>)
        ensures
            str_views(r@) == self@.ignore_sources,
    {
        match &self.ignore {
            Some(s) => crate::cli::copy_strings(s.sources()),
            None => {
                let r: Vec<String> = Vec::new();
                assert(str_views(r@) =~= Seq::<Seq<char>>::empty());
                r
            },
        }
    }

    /// Whether the ignore rules can be asked about `path` (see
    /// [`IgnoreSet::accepts`]); always so without ignore rules.
    pub open spec fn can_ask(&self, path: Seq<char>) -> bool {
        match self@.ignore {
            Some((root, lines)) => crate::ignorefile::gitignore_empty(lines) || !(
            crate::ignorefile::ignore_strip(root, path).len() > 0
                && crate::ignorefile::ignore_strip(root, path)[0] == '/'),
            None => true,
        }
    }

    /// Whether [`FileFilter::matches_typed`] may be asked about `path`.
    pub fn can_match(&self, path: &str) -> (r: bool)
        ensures
            r == self.can_ask(path@),
    {
        match &self.ignore {
            Some(s) => s.can_match(path),
            None => true,
        }
    }

    /// Whether the filter takes `path`, when it may be asked about it (see
    /// [`FileFilter::can_ask`]); nothing otherwise.
    pub fn try_matches_typed(&self, path: &str, is_dir: bool) -> (r: Option<bool>)
        ensures
            r is Some <==> self.can_ask(path@),
            r matches Some(b) ==> b == accepts_spec(self@, path@, is_dir),
    {
        if self.can_match(path) {
            Some(self.matches_typed(path, is_dir))
        } else {
            None
        }
    }

    /// Whether the filter takes `path` (see [`accepts_spec`]).
    pub fn matches_typed(&self, path: &str, is_dir: bool) -> (r: bool)
        requires
            self.can_ask(path@),
        ensures
            r == accepts_spec(self@, path@, is_dir),
    {
        proof {
            use_type_invariant(self);
        }
        if let Some(ig) = &self.ignore {
            if ig.is_ignored(path, is_dir) {
                return false;
            }
        }
        let fname = match path_file_name(path) {
            Some(f) => string_of(&f),
            None => String::new(),
        };
        let name = fname.as_str();
        if some_glob(&self.exclude_globs, path) || some_glob(&self.exclude_globs, name) {
            return false;
        }
        if some_regex(&self.exclude_regex, path) {
            return false;
        }
        if self.include_globs.len() > 0 {
            let matched = some_glob(&self.include_globs, path) || some_glob(
                &self.include_globs,
                name,
            );
            if !matched {
                if self.include_regex.len() == 0 {
                    return false;
                }
                return some_regex(&self.include_regex, path);
            }
            return true;
        }
        if self.include_regex.len() > 0 {
            return some_regex(&self.include_regex, path);
        }
        true
    }

    /// Whether `path` is one of the ignore files in use: equal to one of
    /// them, or the same file once both are made canonical. `canonical` is
    /// `path` made canonical and `source_canonicals[i]` the `i`th ignore
    /// file made canonical, each when that succeeded.
    pub open spec fn is_ignore_source(
        &self,
        path: Seq<char>,
        canonical: Option<Seq<char>>,
        source_canonicals: Seq<Option<Seq<char>>>,
    ) -> bool {
        exists|i: int|
            0 <= i < self@.ignore_sources.len() && (same_path(
                #[trigger] self@.ignore_sources[i],
                path,
            ) || (canonical is Some && source_canonicals[i] is Some && same_path(
                source_canonicals[i]->Some_0,
                canonical->Some_0,
            )))
    }

    /// Like [`FileFilter::matches_typed`], for packing: unless ignore files
    /// are kept, a file that is one of the ignore files in use is left out
    /// (see [`FileFilter::is_ignore_source`]).
    pub fn matches_for_pack(
        &self,
        path: &str,
        is_dir: bool,
        canonical: Option<&str>,
        source_canonicals: &Vec<Option<String>>,
    ) -> (r: bool)
        requires
            self.can_ask(path@),
            source_canonicals.len() == self@.ignore_sources.len(),
        ensures
            r == if !self@.keep_ignore_files && !is_dir && self.is_ignore_source(
                path@,
                match canonical {
                    Some(c) => Some(c@),
                    None => None,
                },
                source_canonicals@.map_values(|o: Option<String>| crate::config::opt_view(o)),
            ) {
                false
            } else {
                accepts_spec(self@, path@, is_dir)
            },
    {
        if !self.keep_ignore_files && !is_dir {
            let sources = self.ignore_sources();
            let ghost cv = match canonical {
                Some(c) => Some(c@),
                None => None,
            };
            let ghost scv = source_canonicals@.map_values(
                |o: Option<String>| crate::config::opt_view(o),
            );
            let mut i: usize = 0;
            while i < sources.len()
                invariant
                    i <= sources.len(),
                    str_views(sources@) == self@.ignore_sources,
                    source_canonicals.len() == sources.len(),
                    !self.keep_ignore_files && !is_dir,
                    cv == match canonical {
                        Some(c) => Some(c@),
                        None => None,
                    },
                    scv == source_canonicals@.map_values(
                        |o: Option<String>| crate::config::opt_view(o),
                    ),
                    forall|j: int|
                        0 <= j < i ==> !(same_path(#[trigger] self@.ignore_sources[j], path@) || (
                        cv is Some && scv[j] is Some && same_path(scv[j]->Some_0, cv->Some_0))),
                decreases sources.len() - i,
            {
                assert(str_views(sources@)[i as int] == sources@[i as int]@);
                assert(scv[i as int] == crate::config::opt_view(source_canonicals@[i as int]));
                let mut hit = crate::path::paths_equal(sources[i].as_str(), path);
                if !hit {
                    match (canonical, &source_canonicals[i]) {
                        (Some(c), Some(sc)) => {
                            hit = crate::path::paths_equal(sc.as_str(), c);
                        },
                        _ => {},
                    }
                }
                if hit {
                    assert(same_path(self@.ignore_sources[i as int], path@) || (cv is Some
                        && scv[i as int] is Some && same_path(scv[i as int]->Some_0, cv->Some_0)));
                    assert(self.is_ignore_source(path@, cv, scv));
                    return false;
                }
                i = i + 1;
            }
        }
        self.matches_typed(path, is_dir)
    }
}

/// Ignore rules come first: a path they drop is dropped whatever the include
/// patterns say.
pub proof fn law_ignored_is_dropped(f: FilterView, path: Seq<char>, is_dir: bool)
    requires
        ignored_by(f, path, is_dir),
    ensures
        !accepts_spec(f, path, is_dir),
{
}

/// Excluding wins over including: a path an exclude glob matches is dropped
/// even when an include glob matches it too.
pub proof fn law_exclude_beats_include(f: FilterView, path: Seq<char>, is_dir: bool)
    requires
        any_glob(f.exclude_globs, path),
    ensures
        !accepts_spec(f, path, is_dir),
{
}

/// A filter with no pattern and no ignore rules takes every path.
pub proof fn law_empty_filter_takes_all(f: FilterView, path: Seq<char>, is_dir: bool)
    requires
        f.include_globs.len() == 0,
        f.exclude_globs.len() == 0,
        f.include_regex.len() == 0,
        f.exclude_regex.len() == 0,
        f.ignore is None,
    ensures
        accepts_spec(f, path, is_dir),
{
}

/// Include globs are tried on the file name as well as on the whole path:
/// a path that no ignore rule or exclude pattern drops is taken when an
/// include glob matches its file name.
pub proof fn law_include_glob_on_file_name(
    f: FilterView,
    path: Seq<char>,
    name: Seq<char>,
    is_dir: bool,
    i: int,
)
    requires
        file_name(path) == Some(name),
        !ignored_by(f, path, is_dir),
        !any_glob(f.exclude_globs, path),
        !any_glob(f.exclude_globs, name),
        !any_regex(f.exclude_regex, path),
        0 <= i < f.include_globs.len(),
        glob_match_spec(f.include_globs[i], name),
    ensures
        accepts_spec(f, path, is_dir),
{
}

/// A path that no ignore rule or exclude pattern drops is taken when an
/// include glob matches the whole path.
pub proof fn law_include_glob_on_path(
    f: FilterView,
    path: Seq<char>,
    name: Seq<char>,
    is_dir: bool,
    i: int,
)
    requires
        file_name(path) == Some(name),
        !ignored_by(f, path, is_dir),
        !any_glob(f.exclude_globs, path),
        !any_glob(f.exclude_globs, name),
        !any_regex(f.exclude_regex, path),
        0 <= i < f.include_globs.len(),
        glob_match_spec(f.include_globs[i], path),
    ensures
        accepts_spec(f, path, is_dir),
{
}

/// Exclude globs are tried on the file name too: a path whose file name an
/// exclude glob matches is dropped, whatever the include patterns say.
pub proof fn law_exclude_glob_on_file_name(
    f: FilterView,
    path: Seq<char>,
    name: Seq<char>,
    is_dir: bool,
    i: int,
)
    requires
        file_name(path) == Some(name),
        0 <= i < f.exclude_globs.len(),
        glob_match_spec(f.exclude_globs[i], name),
    ensures
        !accepts_spec(f, path, is_dir),
{
}

} // verus!
