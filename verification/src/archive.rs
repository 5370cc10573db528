//! Archive entries and the decisions taken about them while creating,
//! extracting, listing, updating and checking archives: names in the
//! archive, stripped paths, compression levels, the permission string, and
//! the sizes and dates shown for an entry.

use vstd::prelude::*;
use crate::filter::{FileFilter, accepts_spec};
use crate::path::{
    components, components_after, file_name, join, join_path, join_slash, join_with_slashes,
    path_components, path_file_name, same_path,
};
use crate::cli::Compression;
use crate::text::{
    chars_of, ends_with, is_suffix, owned, push_char, split_on, str_views, string_of, to_lowercase,
    unicode_lowercase, views,
};

verus! {

// ---------------------------------------------------------------------
// Compression by name
// ---------------------------------------------------------------------

/// The compression an archive name implies: its file name, lowercased,
/// ends in `.tar.gz`/`.tgz` (gzip), `.tar.bz2`/`.tbz2`/`.tbz` (bzip2),
/// `.tar.xz`/`.txz` (xz), `.tar.zst`/`.tzst` (zstd); anything else is not
/// compressed.
pub open spec fn compression_of_name(lower: Seq<char>) -> Compression {
    if is_suffix(".tar.gz"@, lower) || is_suffix(".tgz"@, lower) {
        Compression::Gzip
    } else if is_suffix(".tar.bz2"@, lower) || is_suffix(".tbz2"@, lower) || is_suffix(
        ".tbz"@,
        lower,
    ) {
        Compression::Bzip2
    } else if is_suffix(".tar.xz"@, lower) || is_suffix(".txz"@, lower) {
        Compression::Xz
    } else if is_suffix(".tar.zst"@, lower) || is_suffix(".tzst"@, lower) {
        Compression::Zstd
    } else {
        Compression::Uncompressed
    }
}

/// The compression a path implies (see [`compression_of_name`]); a path
/// without a file name implies none.
pub open spec fn detect_spec(path: Seq<char>) -> Compression {
    let name = match file_name(path) {
        Some(f) => f,
        None => Seq::empty(),
    };
    compression_of_name(unicode_lowercase(name))
}

/// The compression a path implies (see [`detect_spec`]).
pub fn detect_compression(path: &str) -> (c: Compression)
    ensures
        c == detect_spec(path@),
{
    let name = match path_file_name(path) {
        Some(f) => string_of(&f),
        None => String::new(),
    };
    let lower = to_lowercase(name.as_str());
    let l = chars_of(lower.as_str());
    if ends_with(&l, ".tar.gz") || ends_with(&l, ".tgz") {
        Compression::Gzip
    } else if ends_with(&l, ".tar.bz2") || ends_with(&l, ".tbz2") || ends_with(&l, ".tbz") {
        Compression::Bzip2
    } else if ends_with(&l, ".tar.xz") || ends_with(&l, ".txz") {
        Compression::Xz
    } else if ends_with(&l, ".tar.zst") || ends_with(&l, ".tzst") {
        Compression::Zstd
    } else {
        Compression::Uncompressed
    }
}


// ---------------------------------------------------------------------
// Entries
// ---------------------------------------------------------------------

/// What is known of one entry of an archive.
#[derive(Debug, Clone)]
pub struct EntryInfo {
    /// The entry's path in the archive.
    pub path: String,
    /// Its size in bytes.
    pub size: u64,
    /// Its modification time, in seconds since the Unix epoch.
    pub mtime: Option<u64>,
    /// The offset from UTC, in seconds east, of the local time zone at that
    /// time (what its dates are shown in).
    pub utc_offset: i32,
    /// Its mode bits.
    pub perm: Option<u32>,
    pub is_dir: bool,
    /// Whether it is a symbolic or hard link.
    pub is_link: bool,
    /// Where a link points.
    pub link_target: Option<String>,
}

/// What an [`EntryInfo`] holds.
pub struct EntryView {
    pub path: Seq<char>,
    pub size: u64,
    pub mtime: Option<u64>,
    pub utc_offset: i32,
    pub perm: Option<u32>,
    pub is_dir: bool,
    pub is_link: bool,
    pub link_target: Option<Seq<char>>,
}

impl View for EntryInfo {
    type V = EntryView;

    open spec fn view(&self) -> EntryView {
        EntryView {
            path: self.path@,
            size: self.size,
            mtime: self.mtime,
            utc_offset: self.utc_offset,
            perm: self.perm,
            is_dir: self.is_dir,
            is_link: self.is_link,
            link_target: crate::config::opt_view(self.link_target),
        }
    }
}

impl EntryInfo {
    /// A copy of the entry.
    pub fn duplicate(&self) -> (r: EntryInfo)
        ensures
            r@ == self@,
    {
        EntryInfo {
            path: self.path.clone(),
            size: self.size,
            mtime: self.mtime,
            utc_offset: self.utc_offset,
            perm: self.perm,
            is_dir: self.is_dir,
            is_link: self.is_link,
            link_target: match &self.link_target {
                Some(t) => Some(t.clone()),
                None => None,
            },
        }
    }
}

/// The type letter of a mode: `d` for a directory, `l` for a symbolic
/// link, `-` otherwise.
pub open spec fn type_char(mode: u32) -> char {
    if mode & 0o170000u32 == 0o040000u32 {
        'd'
    } else if mode & 0o170000u32 == 0o120000u32 {
        'l'
    } else {
        '-'
    }
}

/// `c` when the mode has `bit`, `-` otherwise.
pub open spec fn bit_char(mode: u32, bit: u32, c: char) -> char {
    if mode & bit != 0 {
        c
    } else {
        '-'
    }
}

/// The `ls`-style permission string of a mode: the type letter, then
/// read, write and execute for owner, group and others.
pub open spec fn perm_text(mode: u32) -> Seq<char> {
    seq![
        type_char(mode),
        bit_char(mode, 0o400u32, 'r'),
        bit_char(mode, 0o200u32, 'w'),
        bit_char(mode, 0o100u32, 'x'),
        bit_char(mode, 0o040u32, 'r'),
        bit_char(mode, 0o020u32, 'w'),
        bit_char(mode, 0o010u32, 'x'),
        bit_char(mode, 0o004u32, 'r'),
        bit_char(mode, 0o002u32, 'w'),
        bit_char(mode, 0o001u32, 'x'),
    ]
}

fn bit(mode: u32, b: u32, c: char) -> (r: char)
    ensures
        r == bit_char(mode, b, c),
{
    if mode & b != 0 {
        c
    } else {
        '-'
    }
}

/// The `ls`-style permission string of a mode (see [`perm_text`]).
pub fn unix_perm_string(mode: u32) -> (s: String)
    ensures
        s@ == perm_text(mode),
{
    let t = if mode & 0o170000u32 == 0o040000u32 {
        'd'
    } else if mode & 0o170000u32 == 0o120000u32 {
        'l'
    } else {
        '-'
    };
    let v: Vec<char> = vec![
        t,
        bit(mode, 0o400u32, 'r'),
        bit(mode, 0o200u32, 'w'),
        bit(mode, 0o100u32, 'x'),
        bit(mode, 0o040u32, 'r'),
        bit(mode, 0o020u32, 'w'),
        bit(mode, 0o010u32, 'x'),
        bit(mode, 0o004u32, 'r'),
        bit(mode, 0o002u32, 'w'),
        bit(mode, 0o001u32, 'x'),
    ];
    assert(v@ =~= perm_text(mode));
    string_of(&v)
}

/// Every permission string has ten characters.
pub proof fn law_perm_text_length(mode: u32)
    ensures
        perm_text(mode).len() == 10,
{
}

/// Each of the nine permission characters shows its own mode bit, in `ls`
/// order: character `i` (counting the type letter as 0) is the `i`-th
/// letter of `rwxrwxrwx` when the bit worth 2^(9 - i) is set in `mode`, and
/// `-` when it is not; so owner, group and others read 0o400 down to 0o001.
pub proof fn law_perm_chars_follow_bits(mode: u32, i: int)
    requires
        1 <= i <= 9,
    ensures
        perm_text(mode)[i] == if mode & (1u32 << ((9 - i) as u32)) != 0 {
            "rwxrwxrwx"@[i - 1]
        } else {
            '-'
        },
{
    reveal_strlit("rwxrwxrwx");
    if i == 1 {
        assert(1u32 << 8u32 == 0o400u32) by (bit_vector);
    } else if i == 2 {
        assert(1u32 << 7u32 == 0o200u32) by (bit_vector);
    } else if i == 3 {
        assert(1u32 << 6u32 == 0o100u32) by (bit_vector);
    } else if i == 4 {
        assert(1u32 << 5u32 == 0o040u32) by (bit_vector);
    } else if i == 5 {
        assert(1u32 << 4u32 == 0o020u32) by (bit_vector);
    } else if i == 6 {
        assert(1u32 << 3u32 == 0o010u32) by (bit_vector);
    } else if i == 7 {
        assert(1u32 << 2u32 == 0o004u32) by (bit_vector);
    } else if i == 8 {
        assert(1u32 << 1u32 == 0o002u32) by (bit_vector);
    } else {
        assert(1u32 << 0u32 == 0o001u32) by (bit_vector);
    }
}

/// The first character of a permission string tells the file type from
/// the mode's type bits: `d` for a directory (0o040000), `l` for a symbolic
/// link (0o120000), `-` for anything else.
pub proof fn law_perm_type_letter(mode: u32)
    ensures
        (perm_text(mode)[0] == 'd') == (mode & 0o170000u32 == 0o040000u32),
        (perm_text(mode)[0] == 'l') == (mode & 0o170000u32 == 0o120000u32),
        (perm_text(mode)[0] == '-') == (mode & 0o170000u32 != 0o040000u32 && mode & 0o170000u32
            != 0o120000u32),
{
}

/// The size of `n` bytes as `humansize` writes it with binary units
/// (`1.20 KiB`, `3 B`).
pub uninterp spec fn binary_size_text(n: u64) -> Seq<char>;

/// `humansize::format_size` with the `BINARY` options.
#[verifier::external_body]
fn format_binary_size(n: u64) -> (r: String)
    ensures
        r@ == binary_size_text(n),
{
    humansize::format_size(n, humansize::BINARY)
}

/// Whether `chrono` accepts a `strftime`-style format
/// (`StrftimeItems::parse` succeeds).
pub uninterp spec fn strftime_accepts(fmt: Seq<char>) -> bool;

/// `chrono`'s `StrftimeItems::new(fmt).parse()`: whether it succeeds.
#[verifier::external_body]
fn time_format_ok(fmt: &str) -> (r: bool)
    ensures
        r == strftime_accepts(fmt@),
{
    chrono::format::StrftimeItems::new(fmt).parse().is_ok()
}

/// The latest modification time `chrono` can hold (the last second of its
/// last year); a later one cannot be read as a date.
pub const MAX_MTIME_SECS: u64 = 8_210_266_876_799;

/// A time, given in seconds since the epoch, in the time zone `offset`
/// seconds east of UTC, formatted with `chrono`'s `strftime`-style format
/// `fmt` (`DateTime::format`).
pub uninterp spec fn local_time_text(secs: int, offset: int, fmt: Seq<char>) -> Seq<char>;

/// `chrono`: the UTC time `secs` seconds after the epoch
/// (`DateTime::from_timestamp`), moved to the fixed offset `offset`
/// (`FixedOffset::east_opt`, `with_timezone`), formatted with `fmt`.
/// Neither call fails on the inputs `requires` admits, and formatting an
/// accepted format does not fail.
#[verifier::external_body]
fn format_local_time(secs: u64, offset: i32, fmt: &str) -> (r: String)
    requires
        secs <= MAX_MTIME_SECS,
        -86_400 < offset < 86_400,
        strftime_accepts(fmt@),
    ensures
        r@ == local_time_text(secs as int, offset as int, fmt@),
{
    let utc = chrono::DateTime::from_timestamp(secs as i64, 0).unwrap();
    let zone = chrono::FixedOffset::east_opt(offset).unwrap();
    utc.with_timezone(&zone).format(fmt).to_string()
}

/// Whether an entry's date can be formatted with `fmt`: always when its
/// time is unknown; else when the time is within `chrono`'s range, its
/// offset is less than a day and `chrono` accepts the format.
pub open spec fn date_formattable(e: EntryView, fmt: Seq<char>) -> bool {
    match e.mtime {
        Some(s) => s <= MAX_MTIME_SECS && -86_400 < e.utc_offset < 86_400 && strftime_accepts(fmt),
        None => true,
    }
}

/// The date an entry is shown with: its time in its offset, formatted
/// with `fmt`; `?` when the time is unknown.
pub open spec fn entry_date_text(e: EntryView, fmt: Seq<char>) -> Seq<char> {
    match e.mtime {
        Some(t) => local_time_text(t as int, e.utc_offset as int, fmt),
        None => "?"@,
    }
}

impl EntryInfo {
    /// The size with binary units (see [`binary_size_text`]).
    pub fn size_human(&self) -> (r: String)
        ensures
            r@ == binary_size_text(self.size),
    {
        format_binary_size(self.size)
    }

    /// The modification time formatted with `fmt` in the entry's time zone;
    /// `?` when it is unknown (see [`entry_date_text`]).
    pub fn mtime_str(&self, fmt: &str) -> (r: String)
        requires
            date_formattable(self@, fmt@),
        ensures
            r@ == entry_date_text(self@, fmt@),
    {
        match self.mtime {
            Some(secs) => format_local_time(secs, self.utc_offset, fmt),
            None => owned("?"),
        }
    }

    /// The modification time formatted with `fmt`, when it can be (see
    /// [`date_formattable`]): nothing when `chrono` refuses the format or
    /// the time is out of its range.
    pub fn mtime_text(&self, fmt: &str) -> (r: Option<String>)
        ensures
            r is Some <==> date_formattable(self@, fmt@),
            r matches Some(s) ==> s@ == entry_date_text(self@, fmt@),
    {
        match self.mtime {
            Some(secs) => {
                if secs <= MAX_MTIME_SECS && -86_400 < self.utc_offset && self.utc_offset < 86_400
                    && time_format_ok(fmt) {
                    Some(self.mtime_str(fmt))
                } else {
                    None
                }
            },
            None => Some(owned("?")),
        }
    }

    /// The permission string; nine `?` when the mode is unknown.
    pub fn perm_str(&self) -> (r: String)
        ensures
            r@ == match self.perm {
                Some(p) => perm_text(p),
                None => "?????????"@,
            },
    {
        match self.perm {
            Some(p) => unix_perm_string(p),
            None => owned("?????????"),
        }
    }
}

/// What the archive reader reports of an entry.
pub struct RawEntry {
    pub path: String,
    pub size: Option<u64>,
    pub mtime: Option<u64>,
    /// The local time zone's offset from UTC at that time, in seconds east.
    pub utc_offset: i32,
    pub mode: Option<u32>,
    pub is_dir: bool,
    pub is_symlink: bool,
    pub is_hard_link: bool,
    pub link_target: Option<String>,
}

/// The listing of an entry: none when the filter does not take it; else
/// its path, size (0 when unknown), time, mode, kind and link target.
pub fn list_entry(filter: &FileFilter, raw: RawEntry) -> (r: Option<EntryInfo>)
    requires
        filter.can_ask(raw.path@),
    ensures
        match r {
            Some(e) => accepts_spec(filter@, raw.path@, raw.is_dir) && e.path@ == raw.path@
                && e.size == (match raw.size {
                Some(s) => s,
                None => 0,
            }) && e.mtime == raw.mtime && e.utc_offset == raw.utc_offset && e.perm == raw.mode
                && e.is_dir == raw.is_dir && e.is_link == (raw.is_symlink || raw.is_hard_link)
                && crate::config::opt_view(e.link_target) == crate::config::opt_view(
                raw.link_target,
            ),
            None => !accepts_spec(filter@, raw.path@, raw.is_dir),
        },
{
    if !filter.matches_typed(raw.path.as_str(), raw.is_dir) {
        return None;
    }
    let size = match raw.size {
        Some(s) => s,
        None => 0,
    };
    Some(
        EntryInfo {
            path: raw.path,
            size,
            mtime: raw.mtime,
            utc_offset: raw.utc_offset,
            perm: raw.mode,
            is_dir: raw.is_dir,
            is_link: raw.is_symlink || raw.is_hard_link,
            link_target: raw.link_target,
        },
    )
}

/// The entry an archive member is listed as (see [`list_entry`]), when the
/// filter may be asked about its path; nothing otherwise.
pub fn try_list_entry(filter: &FileFilter, raw: RawEntry) -> (r: Option<Option<EntryInfo>>)
    ensures
        r is Some <==> filter.can_ask(raw.path@),
        r matches Some(o) ==> match o {
            Some(e) => accepts_spec(filter@, raw.path@, raw.is_dir) && e.path@ == raw.path@
                && e.size == (match raw.size {
                Some(s) => s,
                None => 0,
            }) && e.mtime == raw.mtime && e.utc_offset == raw.utc_offset && e.perm == raw.mode
                && e.is_dir == raw.is_dir && e.is_link == (raw.is_symlink || raw.is_hard_link)
                && crate::config::opt_view(e.link_target) == crate::config::opt_view(
                raw.link_target,
            ),
            None => !accepts_spec(filter@, raw.path@, raw.is_dir),
        },
{
    if filter.can_match(raw.path.as_str()) {
        Some(list_entry(filter, raw))
    } else {
        None
    }
}

// ---------------------------------------------------------------------
// Paths inside archives
// ---------------------------------------------------------------------

/// A path with its first `n` components taken away: the path unchanged for
/// `n` = 0; nothing when it has no more than `n` components; else the
/// remaining components joined with `/`.
pub open spec fn strip_spec(path: Seq<char>, n: nat) -> Option<Seq<char>> {
    if n == 0 {
        Some(path)
    } else {
        let cs = components(path);
        if cs.len() <= n {
            None
        } else {
            Some(join_slash(cs.skip(n as int)))
        }
    }
}

/// Stripping `n` components from a path that has more than `n` takes away
/// exactly its first `n` components: what is left reads back as the rest.
pub proof fn law_strip_removes_leading(p: Seq<char>, n: nat)
    requires
        n > 0,
        components(p).len() > n,
    ensures
        strip_spec(p, n) matches Some(q) && components(q) == components(p).skip(n as int),
{
    let cs = components(p);
    crate::path::lemma_components_tail(p);
    let rest = cs.skip(n as int);
    assert(rest =~= cs.skip(1).skip(n - 1));
    assert forall|i: int| 0 <= i < rest.len() implies (#[trigger] rest[i]).len() > 0 && rest[i]
        != crate::path::dot() && !rest[i].contains('/') by {
        assert(rest[i] == cs.skip(1)[i + n - 1]);
    }
    crate::path::lemma_components_of_join(rest);
}

/// `path` with its first `n` components taken away (see [`strip_spec`]).
pub fn strip_components(path: &str, n: u32) -> (r: Option<String>)
    ensures
        crate::config::opt_view(r) == strip_spec(path@, n as nat),
{
    if n == 0 {
        return Some(owned(path));
    }
    let cs = path_components(path);
    if cs.len() <= n as usize {
        return None;
    }
    let joined = join_with_slashes(&cs, n as usize);
    Some(string_of(&joined))
}

/// What `regex` gives for the first match of `pattern` in `text` replaced
/// by `replacement` taken literally (`Regex::replace` with `NoExpand`).
pub uninterp spec fn regex_replace_first_spec(
    pattern: Seq<char>,
    text: Seq<char>,
    replacement: Seq<char>,
) -> Seq<char>;

/// What `regex` gives for every match of `pattern` in `text` replaced by
/// `replacement` taken literally (`Regex::replace_all` with `NoExpand`).
pub uninterp spec fn regex_replace_all_spec(
    pattern: Seq<char>,
    text: Seq<char>,
    replacement: Seq<char>,
) -> Seq<char>;

/// `regex::Regex::new` then `Regex::replace` with `NoExpand`.
#[verifier::external_body]
fn regex_replace_first(pattern: &str, text: &str, replacement: &str) -> (r: String)
    requires
        crate::filter::regex_problem_spec(pattern@) is None,
    ensures
        r@ == regex_replace_first_spec(pattern@, text@, replacement@),
{
    match regex::Regex::new(pattern) {
        Ok(re) => re.replace(text, regex::NoExpand(replacement)).into_owned(),
        Err(_) => String::new(),
    }
}

/// `regex::Regex::new` then `Regex::replace_all` with `NoExpand`.
#[verifier::external_body]
fn regex_replace_all(pattern: &str, text: &str, replacement: &str) -> (r: String)
    requires
        crate::filter::regex_problem_spec(pattern@) is None,
    ensures
        r@ == regex_replace_all_spec(pattern@, text@, replacement@),
{
    match regex::Regex::new(pattern) {
        Ok(re) => re.replace_all(text, regex::NoExpand(replacement)).into_owned(),
        Err(_) => String::new(),
    }
}

/// The parts of a sed-style expression `s/old/new/`: after `s`, its second
/// character is the delimiter, which splits the rest into exactly three
/// pieces: the pattern, the replacement and the flags (none, or `g` for
/// every match). Nothing for any other text.
pub open spec fn transform_parts(t: Seq<char>) -> Option<(Seq<char>, Seq<char>, bool)> {
    if t.len() >= 2 && t[0] == 's' {
        let pieces = split_on(t.skip(2), t[1]);
        if pieces.len() == 3 && (pieces[2].len() == 0 || pieces[2] == seq!['g']) {
            Some((pieces[0], pieces[1], pieces[2].len() == 1))
        } else {
            None
        }
    } else {
        None
    }
}

/// Why a transform expression cannot be applied.
#[derive(Debug, Clone, PartialEq, Eq)]
pub enum TransformError {
    /// The expression is not of the form `s/old/new/` (or `s/old/new/g`).
    Malformed(String),
    /// Its pattern is not a valid regular expression: the pattern and the
    /// reason.
    InvalidRegex(String, String),
}

impl TransformError {
    /// The message that reports the failure.
    pub open spec fn message_spec(&self) -> Seq<char> {
        match self {
            TransformError::Malformed(t) => "Invalid transform '"@ + t@ + "': use s/old/new/ or s/old/new/g"@,
            TransformError::InvalidRegex(p, why) => "Invalid regex '"@ + p@ + "': "@ + why@,
        }
    }

    /// The message that reports the failure (see
    /// [`TransformError::message_spec`]).
    pub fn message(&self) -> (r: String)
        ensures
            r@ == self.message_spec(),
    {
        match self {
            TransformError::Malformed(t) => {
                let mut m = owned("Invalid transform '");
                crate::text::push_str(&mut m, t.as_str());
                crate::text::push_str(&mut m, "': use s/old/new/ or s/old/new/g");
                m
            },
            TransformError::InvalidRegex(p, why) => {
                let mut m = owned("Invalid regex '");
                crate::text::push_str(&mut m, p.as_str());
                crate::text::push_str(&mut m, "': ");
                crate::text::push_str(&mut m, why.as_str());
                m
            },
        }
    }
}

/// The name a path gets in the archive: the path itself without an
/// expression; with `s/old/new/`, the first match of the pattern `old` (a
/// `regex` expression) replaced by `new` taken literally, every match with
/// `s/old/new/g`. A malformed expression or pattern is refused.
pub fn apply_transform(path: &str, transform: Option<&str>) -> (r: Result<String, TransformError>)
    ensures
        match transform {
            None => r matches Ok(s) && s@ == path@,
            Some(t) => match transform_parts(t@) {
                None => r matches Err(TransformError::Malformed(e)) && e@ == t@,
                Some((pat, rep, all)) => match crate::filter::regex_problem_spec(pat) {
                    Some(why) => r matches Err(TransformError::InvalidRegex(p, w)) && p@ == pat
                        && w@ == why,
                    None => r matches Ok(s) && s@ == if all {
                        regex_replace_all_spec(pat, path@, rep)
                    } else {
                        regex_replace_first_spec(pat, path@, rep)
                    },
                },
            },
        },
{
    let t = match transform {
        None => {
            return Ok(owned(path));
        },
        Some(t) => t,
    };
    let cs = chars_of(t);
    if cs.len() < 2 || cs[0] != 's' {
        return Err(TransformError::Malformed(owned(t)));
    }
    let rest = crate::ignorefile::skip_chars(&cs, 2);
    let pieces = crate::text::split_chars(&rest, cs[1]);
    if pieces.len() != 3 || !(pieces[2].len() == 0 || (pieces[2].len() == 1 && pieces[2][0] == 'g')) {
        proof {
            if pieces@.len() == 3 && views(pieces@)[2] == seq!['g'] {
                assert(pieces@[2]@[0] == 'g');
            }
        }
        return Err(TransformError::Malformed(owned(t)));
    }
    proof {
        assert(views(pieces@)[2] == pieces@[2]@);
        if pieces@[2]@.len() == 1 {
            assert(pieces@[2]@ =~= seq!['g']);
        }
    }
    let pat = string_of(&pieces[0]);
    let rep = string_of(&pieces[1]);
    let all = pieces[2].len() == 1;
    assert(views(pieces@)[0] == pieces@[0]@);
    assert(views(pieces@)[1] == pieces@[1]@);
    match crate::filter::regex_problem(pat.as_str()) {
        Some(why) => Err(TransformError::InvalidRegex(pat, why)),
        None => {
            if all {
                Ok(regex_replace_all(pat.as_str(), path, rep.as_str()))
            } else {
                Ok(regex_replace_first(pat.as_str(), path, rep.as_str()))
            }
        },
    }
}

/// Where an entry is extracted to, and whether its parent directories are
/// made first.
pub struct ExtractTarget {
    pub dest_path: String,
    pub create_parent: bool,
}

/// Where an entry with the (stripped) path `stripped` goes under `dest`:
/// `dest` joined with it; parents are made when it has a component.
pub fn extract_target(dest: &str, stripped: &str) -> (r: ExtractTarget)
    ensures
        r.dest_path@ == join_path(dest@, stripped@),
        r.create_parent == (components(stripped@).len() > 0),
{
    let cs = path_components(stripped);
    ExtractTarget { dest_path: join(dest, stripped), create_parent: cs.len() > 0 }
}

/// The components of `path` after those of `base` (see [`components_after`]).
pub fn components_below(base: &str, path: &str) -> (r: Vec<Vec<char>>)
    ensures
        views(r@) == components_after(base@, path@),
{
    let b = path_components(base);
    let c = path_components(path);
    if b.len() <= c.len() {
        let mut i: usize = 0;
        let mut same = true;
        assert(views(c@).take(0) =~= views(b@).take(0));
        while i < b.len()
            invariant
                b.len() <= c.len(),
                i <= b.len(),
                same == (views(c@).take(i as int) == views(b@).take(i as int)),
            decreases b.len() - i,
        {
            assert(views(c@).take(i as int + 1) =~= views(c@).take(i as int).push(c@[i as int]@));
            assert(views(b@).take(i as int + 1) =~= views(b@).take(i as int).push(b@[i as int]@));
            let eq = crate::text::seq_eq(&c[i], &b[i]);
            proof {
                let ct = views(c@).take(i as int + 1);
                let bt = views(b@).take(i as int + 1);
                if ct == bt {
                    assert(ct[i as int] == bt[i as int]);
                    assert(views(c@).take(i as int) =~= ct.take(i as int));
                    assert(views(b@).take(i as int) =~= bt.take(i as int));
                }
                if same && eq {
                    assert(ct =~= bt);
                }
            }
            same = same && eq;
            i = i + 1;
        }
        assert(views(b@).take(b.len() as int) =~= views(b@));
        if same {
            let mut r: Vec<Vec<char>> = Vec::new();
            let mut j: usize = b.len();
            while j < c.len()
                invariant
                    b.len() <= j <= c.len(),
                    views(r@) == views(c@).subrange(b.len() as int, j as int),
                decreases c.len() - j,
            {
                let cc = crate::path::copy_chars(&c[j]);
                assert(views(c@)[j as int] == cc@);
                let ghost before = views(r@);
                r.push(cc);
                assert(views(r@) =~= before.push(cc@));
                j = j + 1;
                assert(views(r@) =~= views(c@).subrange(b.len() as int, j as int));
            }
            assert(views(r@) =~= views(c@).skip(b.len() as int));
            return r;
        }
    }
    c
}

/// The name an entry found under the directory `source` gets in the
/// archive: its components after those of `source`, joined with `/`; the
/// path itself when it is not under `source`. Nothing when no component is
/// left (the directory itself).
pub open spec fn pack_name_spec(source: Seq<char>, path: Seq<char>) -> Option<Seq<char>> {
    let b = components(source);
    let c = components(path);
    if b.len() <= c.len() && c.take(b.len() as int) == b {
        if c.len() == b.len() {
            None
        } else {
            Some(join_slash(c.skip(b.len() as int)))
        }
    } else if c.len() == 0 {
        None
    } else {
        Some(path)
    }
}

/// The name an entry found under `source` gets in the archive (see
/// [`pack_name_spec`]).
pub fn pack_name(source: &str, path: &str) -> (r: Option<String>)
    ensures
        crate::config::opt_view(r) == pack_name_spec(source@, path@),
{
    let b = path_components(source);
    let c = path_components(path);
    let rest = components_below(source, path);
    if rest.len() < c.len() || (b.len() == 0) {
        // `source`'s components begin the path's.
        proof {
            lemma_below_cases(source@, path@);
        }
        if rest.len() == 0 {
            return None;
        }
        let j = join_with_slashes(&rest, 0);
        assert(views(rest@).skip(0) =~= views(rest@));
        return Some(string_of(&j));
    }
    proof {
        lemma_below_cases(source@, path@);
    }
    if c.len() == 0 {
        return None;
    }
    Some(owned(path))
}

proof fn lemma_below_cases(source: Seq<char>, path: Seq<char>)
    ensures
        ({
            let b = components(source);
            let c = components(path);
            let prefix = b.len() <= c.len() && c.take(b.len() as int) == b;
            &&& prefix ==> components_after(source, path) == c.skip(b.len() as int)
            &&& !prefix ==> components_after(source, path) == c
            &&& (components_after(source, path).len() < c.len() || b.len() == 0) <==> prefix
                || (b.len() == 0)
            &&& b.len() == 0 ==> prefix
        }),
{
    let b = components(source);
    let c = components(path);
    if b.len() == 0 {
        assert(c.take(0) =~= b);
    }
}

/// The name a file given on its own gets in the archive: its file name, or
/// the whole path when it has none.
pub fn name_in_archive(src: &str) -> (r: String)
    ensures
        r@ == match file_name(src@) {
            Some(f) => f,
            None => src@,
        },
{
    match path_file_name(src) {
        Some(f) => string_of(&f),
        None => owned(src),
    }
}

// ---------------------------------------------------------------------
// Updating
// ---------------------------------------------------------------------

/// The time the archive holds for a path with the components `rel`: that
/// of the last entry whose path has those components, 0 when none has.
pub open spec fn archived_mtime(existing: Seq<(Seq<char>, u64)>, rel: Seq<Seq<char>>) -> u64
    decreases existing.len(),
{
    if existing.len() == 0 {
        0
    } else if components(existing.last().0) == rel {
        existing.last().1
    } else {
        archived_mtime(existing.drop_last(), rel)
    }
}

/// The view of the recorded (path, time) pairs.
pub open spec fn pairs_view(v: Seq<(String, u64)>) -> Seq<(Seq<char>, u64)> {
    v.map_values(|p: (String, u64)| (p.0@, p.1))
}

/// Whether a file found under `source` at `path`, modified at `disk_mtime`,
/// is newer than what the archive holds for it (entries are matched by
/// their components below `source`).
pub fn needs_update(existing: &Vec<(String, u64)>, source: &str, path: &str, disk_mtime: u64) -> (r:
    bool)
    ensures
        r == (disk_mtime > archived_mtime(pairs_view(existing@), components_after(source@, path@))),
{
    let rel = components_below(source, path);
    let mut i: usize = existing.len();
    let ghost ev = pairs_view(existing@);
    let ghost rv = views(rel@);
    assert(ev.take(ev.len() as int) =~= ev);
    while i > 0
        invariant
            i <= existing.len(),
            ev == pairs_view(existing@),
            rv == views(rel@),
            rv == components_after(source@, path@),
            archived_mtime(ev, rv) == archived_mtime(ev.take(i as int), rv),
        decreases i,
    {
        assert(ev.take(i as int).drop_last() =~= ev.take(i - 1));
        assert(ev.take(i as int).last() == (existing@[i - 1].0@, existing@[i - 1].1));
        let entry = &existing[i - 1];
        assert(entry.0@ == ev[i - 1].0 && entry.1 == ev[i - 1].1);
        let cs = path_components(entry.0.as_str());
        if crate::path::components_eq(&cs, &rel) {
            assert(components(ev.take(i as int).last().0) == rv);
            return disk_mtime > entry.1;
        }
        i = i - 1;
    }
    assert(ev.take(0) =~= Seq::<(Seq<char>, u64)>::empty());
    disk_mtime > 0
}

/// Whether an archived entry is replaced by one of the files being added:
/// one of them has a file name equal to the entry's path.
pub open spec fn replaced_spec(to_add: Seq<Seq<char>>, entry: Seq<char>) -> bool {
    exists|i: int|
        0 <= i < to_add.len() && (match file_name(#[trigger] to_add[i]) {
            Some(f) => same_path(f, entry),
            None => false,
        })
}

/// Whether an archived entry is replaced (see [`replaced_spec`]).
pub fn replaced_by(to_add: &Vec<String>, entry: &str) -> (r: bool)
    ensures
        r == replaced_spec(str_views(to_add@), entry@),
{
    let mut i: usize = 0;
    while i < to_add.len()
        invariant
            i <= to_add.len(),
            forall|j: int|
                0 <= j < i ==> !(match file_name(#[trigger] str_views(to_add@)[j]) {
                    Some(f) => same_path(f, entry@),
                    None => false,
                }),
        decreases to_add.len() - i,
    {
        assert(str_views(to_add@)[i as int] == to_add@[i as int]@);
        match path_file_name(to_add[i].as_str()) {
            Some(f) => {
                let fs = string_of(&f);
                if crate::path::paths_equal(fs.as_str(), entry) {
                    return true;
                }
            },
            None => {},
        }
        i = i + 1;
    }
    false
}

// ---------------------------------------------------------------------
// Compression levels
// ---------------------------------------------------------------------

/// The level given to the gzip, bzip2 and xz encoders: the one asked for
/// (6 by default), at most 9.
pub fn encoder_level(level: Option<u32>) -> (r: u32)
    ensures
        r == match level {
            Some(l) => if l < 9 {
                l
            } else {
                9
            },
            None => 6,
        },
{
    let l = match level {
        Some(l) => l,
        None => 6,
    };
    if l < 9 {
        l
    } else {
        9
    }
}

/// The level given to the zstd encoder: the one asked for (3 by default),
/// read as a signed 32-bit number (levels above `i32::MAX` wrap around).
pub fn zstd_level(level: Option<u32>) -> (r: i32)
    ensures
        r == match level {
            Some(l) => if l <= 0x7fff_ffff {
                l as int
            } else {
                l - 0x1_0000_0000
            },
            None => 3,
        },
{
    let l = match level {
        Some(l) => l,
        None => 3,
    };
    if l <= 0x7fff_ffff {
        l as i32
    } else {
        ((l as i64) - 0x1_0000_0000i64) as i32
    }
}

// ---------------------------------------------------------------------
// Checking
// ---------------------------------------------------------------------

/// The counts of a check: entries read, and errors met.
pub struct VerifyTally {
    pub ok: usize,
    pub errors: usize,
}

impl VerifyTally {
    /// No entry read yet.
    pub fn new() -> (t: VerifyTally)
        ensures
            t.ok == 0,
            t.errors == 0,
    {
        VerifyTally { ok: 0, errors: 0 }
    }

    /// An entry was read; `read_failed` when reading its data failed, which
    /// counts an error too.
    pub fn entry_read(&mut self, read_failed: bool)
        requires
            old(self).ok < usize::MAX,
            old(self).errors < usize::MAX,
        ensures
            final(self).ok == old(self).ok + 1,
            final(self).errors == old(self).errors + if read_failed {
                1usize
            } else {
                0usize
            },
    {
        if read_failed {
            self.errors = self.errors + 1;
        }
        self.ok = self.ok + 1;
    }

    /// An entry could not be read at all.
    pub fn entry_failed(&mut self)
        requires
            old(self).errors < usize::MAX,
        ensures
            final(self).ok == old(self).ok,
            final(self).errors == old(self).errors + 1,
    {
        self.errors = self.errors + 1;
    }
}

} // verus!
