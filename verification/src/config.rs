//! The configuration: colors, emoji and display settings, their defaults,
//! reading and writing single values by dotted key (`colors.dir`), and the
//! list of places where a configuration file is looked for.

use vstd::prelude::*;
use crate::text::{
    chars_of, decimal, decimal_string, json_quote, json_string_literal, owned, parse_u32,
    parse_u32_spec, push_char, push_str, same_text, split_chars, split_on, to_lowercase,
    unicode_lowercase, views,
};
use crate::path::{extension, join, join_path};

verus! {

// ---------------------------------------------------------------------
// Color values
// ---------------------------------------------------------------------

/// A color setting: a hex string such as `#00FFFF`, or a color name.
#[derive(Debug, Clone)]
pub enum ColorValue {
    Hex(String),
    Named(String),
}

/// What a [`ColorValue`] holds, as plain text.
pub enum ColorView {
    Hex(Seq<char>),
    Named(Seq<char>),
}

impl ColorView {
    /// The text of the color, whichever form it has.
    pub open spec fn text(self) -> Seq<char> {
        match self {
            ColorView::Hex(s) => s,
            ColorView::Named(s) => s,
        }
    }
}

impl View for ColorValue {
    type V = ColorView;

    open spec fn view(&self) -> ColorView {
        match self {
            ColorValue::Hex(s) => ColorView::Hex(s@),
            ColorValue::Named(s) => ColorView::Named(s@),
        }
    }
}

/// Number of bytes of `c` in UTF-8.
pub open spec fn utf8_len(c: char) -> nat {
    if (c as u32) < 0x80 {
        1
    } else if (c as u32) < 0x800 {
        2
    } else if (c as u32) < 0x10000 {
        3
    } else {
        4
    }
}

/// Number of bytes of `s` in UTF-8.
pub open spec fn utf8_size(s: Seq<char>) -> nat
    decreases s.len(),
{
    if s.len() == 0 {
        0
    } else {
        utf8_size(s.drop_last()) + utf8_len(s.last())
    }
}

/// Whether byte offset `b` of `s` falls between two characters.
pub open spec fn is_boundary(s: Seq<char>, b: nat) -> bool {
    exists|k: int| 0 <= k <= s.len() && utf8_size(#[trigger] s.take(k)) == b
}

/// The value of a hexadecimal digit, if `c` is one.
pub open spec fn hex_value(c: char) -> Option<u8> {
    if '0' <= c && c <= '9' {
        Some((c as u32 - 48) as u8)
    } else if 'a' <= c && c <= 'f' {
        Some((c as u32 - 87) as u8)
    } else if 'A' <= c && c <= 'F' {
        Some((c as u32 - 55) as u8)
    } else {
        None
    }
}

/// The value of two hex digits.
pub open spec fn hex_pair(a: char, b: char) -> Option<u8> {
    match (hex_value(a), hex_value(b)) {
        (Some(x), Some(y)) => Some((x * 16 + y) as u8),
        _ => None,
    }
}

/// Whether `v` is `#` followed by six hex digits (`#RRGGBB`).
pub open spec fn is_hex_color(v: Seq<char>) -> bool {
    v.len() == 7 && v[0] == '#' && forall|i: int| 1 <= i < 7 ==> (#[trigger] hex_value(v[i])) is Some
}

/// Whether every character of `s` is ASCII.
pub open spec fn ascii_only(s: Seq<char>) -> bool {
    forall|i: int| 0 <= i < s.len() ==> (s[i] as u32) < 0x80
}

/// Whether reading `#RRGGBB` from `s` slices it inside a character (the
/// six bytes after `#` are split at byte offsets 2 and 4).
pub open spec fn rgb_would_split_char(s: Seq<char>) -> bool {
    s.len() > 0 && s[0] == '#' && utf8_size(s.drop_first()) == 6 && !(is_boundary(
        s.drop_first(),
        2,
    ) && is_boundary(s.drop_first(), 4))
}

/// The color `s` names as `#RRGGBB`: six bytes after `#`, read as three
/// two-digit hex numbers.
pub open spec fn rgb_of(s: Seq<char>) -> Option<(u8, u8, u8)> {
    if s.len() > 0 && s[0] == '#' && utf8_size(s.drop_first()) == 6 && ascii_only(s) {
        let h = s.drop_first();
        match (hex_pair(h[0], h[1]), hex_pair(h[2], h[3]), hex_pair(h[4], h[5])) {
            (Some(r), Some(g), Some(b)) => Some((r, g, b)),
            _ => None,
        }
    } else {
        None
    }
}

proof fn lemma_utf8_size_ascii(s: Seq<char>)
    requires
        ascii_only(s),
    ensures
        utf8_size(s) == s.len(),
    decreases s.len(),
{
    if s.len() > 0 {
        lemma_utf8_size_ascii(s.drop_last());
    }
}

proof fn lemma_utf8_size_ge_len(s: Seq<char>)
    ensures
        utf8_size(s) >= s.len(),
        utf8_size(s) == s.len() ==> ascii_only(s),
    decreases s.len(),
{
    if s.len() > 0 {
        lemma_utf8_size_ge_len(s.drop_last());
        if utf8_size(s) == s.len() {
            assert forall|i: int| 0 <= i < s.len() implies (s[i] as u32) < 0x80 by {
                if i < s.len() - 1 {
                    assert(s.drop_last()[i] == s[i]);
                }
            }
        }
    }
}

fn hex_digit(c: char) -> (r: Option<u8>)
    ensures
        r == hex_value(c),
{
    if '0' <= c && c <= '9' {
        Some(((c as u32) - 48) as u8)
    } else if 'a' <= c && c <= 'f' {
        Some(((c as u32) - 87) as u8)
    } else if 'A' <= c && c <= 'F' {
        Some(((c as u32) - 55) as u8)
    } else {
        None
    }
}

fn read_hex_pair(a: char, b: char) -> (r: Option<u8>)
    ensures
        r == hex_pair(a, b),
{
    match (hex_digit(a), hex_digit(b)) {
        (Some(x), Some(y)) => Some(x * 16 + y),
        _ => None,
    }
}

/// Whether `v` is `#` followed by six hex digits.
fn hex_color_chars(v: &Vec<char>) -> (r: bool)
    ensures
        r == is_hex_color(v@),
{
    if v.len() != 7 || v[0] != '#' {
        return false;
    }
    let mut i: usize = 1;
    while i < 7
        invariant
            1 <= i <= 7,
            v.len() == 7,
            forall|j: int| 1 <= j < i ==> (#[trigger] hex_value(v@[j])) is Some,
        decreases 7 - i,
    {
        if hex_digit(v[i]).is_none() {
            return false;
        }
        i = i + 1;
    }
    true
}

/// The UTF-8 size of a character.
fn char_utf8_len(c: char) -> (n: usize)
    ensures
        n == utf8_len(c),
{
    if (c as u32) < 0x80 {
        1
    } else if (c as u32) < 0x800 {
        2
    } else if (c as u32) < 0x10000 {
        3
    } else {
        4
    }
}

impl ColorValue {
    /// The text of the color, whichever form it has.
    pub fn as_str(&self) -> (r: &str)
        ensures
            r@ == self@.text(),
    {
        match self {
            ColorValue::Hex(s) => s.as_str(),
            ColorValue::Named(s) => s.as_str(),
        }
    }

    /// A copy of the color.
    pub fn duplicate(&self) -> (r: ColorValue)
        ensures
            r@ == self@,
    {
        match self {
            ColorValue::Hex(s) => ColorValue::Hex(s.clone()),
            ColorValue::Named(s) => ColorValue::Named(s.clone()),
        }
    }

    /// The red, green and blue components of a `#RRGGBB` color.
    pub fn parse_rgb(&self) -> (r: Option<(u8, u8, u8)>)
        requires
            !rgb_would_split_char(self@.text()),
        ensures
            r == rgb_of(self@.text()),
    {
        let cs = chars_of(self.as_str());
        if cs.len() == 0 || cs[0] != '#' {
            return None;
        }
        let ghost h = cs@.drop_first();
        // Byte size of the text after '#', stopping once past six.
        let mut size: usize = 0;
        let mut ascii = true;
        let mut i: usize = 1;
        while i < cs.len()
            invariant
                1 <= i <= cs.len(),
                cs@ == self@.text(),
                cs@[0] == '#',
                h == cs@.drop_first(),
                size <= 6,
                size == utf8_size(h.take(i - 1)),
                ascii == ascii_only(cs@.take(i as int)),
            decreases cs.len() - i,
        {
            let n = char_utf8_len(cs[i]);
            assert(h.take(i as int).drop_last() =~= h.take(i - 1));
            assert(h.take(i as int).last() == cs@[i as int]);
            assert(utf8_size(h.take(i as int)) == size + n);
            proof {
                lemma_ascii_only_push(cs@.take(i as int), cs@[i as int]);
                assert(cs@.take(i as int + 1) =~= cs@.take(i as int).push(cs@[i as int]));
            }
            assert(cs@.take(i as int + 1).drop_last() =~= cs@.take(i as int));
            if size + n > 6 {
                proof {
                    lemma_utf8_size_prefix_le(h, i as int);
                }
                return None;
            }
            size = size + n;
            ascii = ascii && (cs[i] as u32) < 0x80;
            i = i + 1;
        }
        assert(h.take(i - 1) =~= h);
        assert(cs@.take(i as int) =~= cs@);
        if size != 6 || !ascii {
            return None;
        }
        proof {
            lemma_utf8_size_ascii(h);
        }
        match (read_hex_pair(cs[1], cs[2]), read_hex_pair(cs[3], cs[4]), read_hex_pair(cs[5], cs[6])) {
            (Some(r), Some(g), Some(b)) => Some((r, g, b)),
            _ => None,
        }
    }
}

impl ColorValue {
    /// Whether reading the value as `#RRGGBB` keeps within character
    /// boundaries (see [`rgb_would_split_char`]).
    pub fn rgb_readable(&self) -> (r: bool)
        ensures
            r == !rgb_would_split_char(self@.text()),
    {
        let cs = chars_of(self.as_str());
        if cs.len() == 0 || cs[0] != '#' {
            return true;
        }
        let ghost h = cs@.drop_first();
        let mut size: usize = 0;
        let mut at2 = false;
        let mut at4 = false;
        let mut i: usize = 1;
        assert(h.take(0) =~= Seq::<char>::empty());
        while i < cs.len()
            invariant
                1 <= i <= cs.len(),
                cs@ == self@.text(),
                cs@[0] == '#',
                h == cs@.drop_first(),
                size <= 6,
                size == utf8_size(h.take(i - 1)),
                at2 == exists|k: int| 0 <= k <= i - 1 && utf8_size(#[trigger] h.take(k)) == 2,
                at4 == exists|k: int| 0 <= k <= i - 1 && utf8_size(#[trigger] h.take(k)) == 4,
            decreases cs.len() - i,
        {
            let n = char_utf8_len(cs[i]);
            assert(h.take(i as int).drop_last() =~= h.take(i - 1));
            assert(h.take(i as int).last() == cs@[i as int]);
            assert(utf8_size(h.take(i as int)) == size + n);
            if size + n > 6 {
                proof {
                    lemma_utf8_size_prefix_le(h, i as int);
                }
                return true;
            }
            size = size + n;
            if size == 2 {
                at2 = true;
            }
            if size == 4 {
                at4 = true;
            }
            i = i + 1;
        }
        assert(h.take(i - 1) =~= h);
        !(size == 6 && !(at2 && at4))
    }
}

proof fn lemma_ascii_only_push(s: Seq<char>, c: char)
    ensures
        ascii_only(s.push(c)) == (ascii_only(s) && (c as u32) < 0x80),
{
    if ascii_only(s.push(c)) {
        assert forall|i: int| 0 <= i < s.len() implies (s[i] as u32) < 0x80 by {
            assert(s.push(c)[i] == s[i]);
        }
        assert(s.push(c)[s.len() as int] == c);
    }
}

proof fn lemma_utf8_size_prefix_le(s: Seq<char>, k: int)
    requires
        0 <= k <= s.len(),
    ensures
        utf8_size(s.take(k)) <= utf8_size(s),
    decreases s.len() - k,
{
    if k < s.len() {
        lemma_utf8_size_prefix_le(s, k + 1);
        assert(s.take(k + 1).drop_last() =~= s.take(k));
    }
    assert(s.take(s.len() as int) =~= s);
}


// ---------------------------------------------------------------------
// Keys
// ---------------------------------------------------------------------

/// The sections of the configuration.
#[derive(Debug, Clone, Copy, PartialEq, Eq, Structural)]
pub enum Section {
    Colors,
    Emojis,
    Display,
}

impl Section {
    /// The section's name in dotted keys.
    pub open spec fn name_spec(self) -> Seq<char> {
        match self {
            Section::Colors => "colors"@,
            Section::Emojis => "emojis"@,
            Section::Display => "display"@,
        }
    }

    /// The section's name in dotted keys.
    pub fn name(&self) -> (r: &'static str)
        ensures
            r@ == self.name_spec(),
    {
        match self {
            Section::Colors => "colors",
            Section::Emojis => "emojis",
            Section::Display => "display",
        }
    }

    /// The section a name denotes.
    pub open spec fn named_spec(n: Seq<char>) -> Option<Section> {
        if n == "colors"@ {
            Some(Section::Colors)
        } else if n == "emojis"@ {
            Some(Section::Emojis)
        } else if n == "display"@ {
            Some(Section::Display)
        } else {
            None
        }
    }

    /// The section a name denotes.
    pub fn named(n: &str) -> (r: Option<Section>)
        ensures
            r == Section::named_spec(n@),
    {
        if same_text(n, "colors") {
            Some(Section::Colors)
        } else if same_text(n, "emojis") {
            Some(Section::Emojis)
        } else if same_text(n, "display") {
            Some(Section::Display)
        } else {
            None
        }
    }
}

/// The keys of the `colors` section.
#[derive(Debug, Clone, Copy, PartialEq, Eq, Structural)]
pub enum ColorKey {
    Dir,
    File,
    Link,
    Exec,
    Header,
    Size,
    Date,
    Perm,
    Tree,
    Warn,
    Error,
    Success,
}

impl ColorKey {
    /// The key's name within its section.
    pub open spec fn name_spec(self) -> Seq<char> {
        match self {
            ColorKey::Dir => "dir"@,
            ColorKey::File => "file"@,
            ColorKey::Link => "link"@,
            ColorKey::Exec => "exec"@,
            ColorKey::Header => "header"@,
            ColorKey::Size => "size"@,
            ColorKey::Date => "date"@,
            ColorKey::Perm => "perm"@,
            ColorKey::Tree => "tree"@,
            ColorKey::Warn => "warn"@,
            ColorKey::Error => "error"@,
            ColorKey::Success => "ok"@,
        }
    }

    /// The key's name within its section.
    pub fn name(&self) -> (r: &'static str)
        ensures
            r@ == self.name_spec(),
    {
        match self {
            ColorKey::Dir => "dir",
            ColorKey::File => "file",
            ColorKey::Link => "link",
            ColorKey::Exec => "exec",
            ColorKey::Header => "header",
            ColorKey::Size => "size",
            ColorKey::Date => "date",
            ColorKey::Perm => "perm",
            ColorKey::Tree => "tree",
            ColorKey::Warn => "warn",
            ColorKey::Error => "error",
            ColorKey::Success => "ok",
        }
    }

    /// The key a name denotes.
    pub open spec fn named_spec(n: Seq<char>) -> Option<ColorKey> {
        if n == "dir"@ {
            Some(ColorKey::Dir)
        } else if n == "file"@ {
            Some(ColorKey::File)
        } else if n == "link"@ {
            Some(ColorKey::Link)
        } else if n == "exec"@ {
            Some(ColorKey::Exec)
        } else if n == "header"@ {
            Some(ColorKey::Header)
        } else if n == "size"@ {
            Some(ColorKey::Size)
        } else if n == "date"@ {
            Some(ColorKey::Date)
        } else if n == "perm"@ {
            Some(ColorKey::Perm)
        } else if n == "tree"@ {
            Some(ColorKey::Tree)
        } else if n == "warn"@ {
            Some(ColorKey::Warn)
        } else if n == "error"@ {
            Some(ColorKey::Error)
        } else if n == "ok"@ {
            Some(ColorKey::Success)
        } else {
            None
        }
    }

    /// The key a name denotes.
    pub fn named(n: &str) -> (r: Option<ColorKey>)
        ensures
            r == ColorKey::named_spec(n@),
    {
        if same_text(n, "dir") {
            Some(ColorKey::Dir)
        } else if same_text(n, "file") {
            Some(ColorKey::File)
        } else if same_text(n, "link") {
            Some(ColorKey::Link)
        } else if same_text(n, "exec") {
            Some(ColorKey::Exec)
        } else if same_text(n, "header") {
            Some(ColorKey::Header)
        } else if same_text(n, "size") {
            Some(ColorKey::Size)
        } else if same_text(n, "date") {
            Some(ColorKey::Date)
        } else if same_text(n, "perm") {
            Some(ColorKey::Perm)
        } else if same_text(n, "tree") {
            Some(ColorKey::Tree)
        } else if same_text(n, "warn") {
            Some(ColorKey::Warn)
        } else if same_text(n, "error") {
            Some(ColorKey::Error)
        } else if same_text(n, "ok") {
            Some(ColorKey::Success)
        } else {
            None
        }
    }
}

/// The keys of the `emojis` section.
#[derive(Debug, Clone, Copy, PartialEq, Eq, Structural)]
pub enum EmojiKey {
    Dir,
    File,
    Link,
    Archive,
    Image,
    Video,
    Audio,
    Doc,
    Code,
    Success,
    Warn,
    Error,
}

impl EmojiKey {
    /// The key's name within its section.
    pub open spec fn name_spec(self) -> Seq<char> {
        match self {
            EmojiKey::Dir => "dir"@,
            EmojiKey::File => "file"@,
            EmojiKey::Link => "link"@,
            EmojiKey::Archive => "archive"@,
            EmojiKey::Image => "image"@,
            EmojiKey::Video => "video"@,
            EmojiKey::Audio => "audio"@,
            EmojiKey::Doc => "doc"@,
            EmojiKey::Code => "code"@,
            EmojiKey::Success => "ok"@,
            EmojiKey::Warn => "warn"@,
            EmojiKey::Error => "error"@,
        }
    }

    /// The key's name within its section.
    pub fn name(&self) -> (r: &'static str)
        ensures
            r@ == self.name_spec(),
    {
        match self {
            EmojiKey::Dir => "dir",
            EmojiKey::File => "file",
            EmojiKey::Link => "link",
            EmojiKey::Archive => "archive",
            EmojiKey::Image => "image",
            EmojiKey::Video => "video",
            EmojiKey::Audio => "audio",
            EmojiKey::Doc => "doc",
            EmojiKey::Code => "code",
            EmojiKey::Success => "ok",
            EmojiKey::Warn => "warn",
            EmojiKey::Error => "error",
        }
    }

    /// The key a name denotes.
    pub open spec fn named_spec(n: Seq<char>) -> Option<EmojiKey> {
        if n == "dir"@ {
            Some(EmojiKey::Dir)
        } else if n == "file"@ {
            Some(EmojiKey::File)
        } else if n == "link"@ {
            Some(EmojiKey::Link)
        } else if n == "archive"@ {
            Some(EmojiKey::Archive)
        } else if n == "image"@ {
            Some(EmojiKey::Image)
        } else if n == "video"@ {
            Some(EmojiKey::Video)
        } else if n == "audio"@ {
            Some(EmojiKey::Audio)
        } else if n == "doc"@ {
            Some(EmojiKey::Doc)
        } else if n == "code"@ {
            Some(EmojiKey::Code)
        } else if n == "ok"@ {
            Some(EmojiKey::Success)
        } else if n == "warn"@ {
            Some(EmojiKey::Warn)
        } else if n == "error"@ {
            Some(EmojiKey::Error)
        } else {
            None
        }
    }

    /// The key a name denotes.
    pub fn named(n: &str) -> (r: Option<EmojiKey>)
        ensures
            r == EmojiKey::named_spec(n@),
    {
        if same_text(n, "dir") {
            Some(EmojiKey::Dir)
        } else if same_text(n, "file") {
            Some(EmojiKey::File)
        } else if same_text(n, "link") {
            Some(EmojiKey::Link)
        } else if same_text(n, "archive") {
            Some(EmojiKey::Archive)
        } else if same_text(n, "image") {
            Some(EmojiKey::Image)
        } else if same_text(n, "video") {
            Some(EmojiKey::Video)
        } else if same_text(n, "audio") {
            Some(EmojiKey::Audio)
        } else if same_text(n, "doc") {
            Some(EmojiKey::Doc)
        } else if same_text(n, "code") {
            Some(EmojiKey::Code)
        } else if same_text(n, "ok") {
            Some(EmojiKey::Success)
        } else if same_text(n, "warn") {
            Some(EmojiKey::Warn)
        } else if same_text(n, "error") {
            Some(EmojiKey::Error)
        } else {
            None
        }
    }
}

/// The keys of the `display` section.
#[derive(Debug, Clone, Copy, PartialEq, Eq, Structural)]
pub enum DisplayKey {
    Emoji,
    Colors,
    TreeDepth,
    HumanReadable,
    Verbose,
    ProgressStyle,
    DateFormat,
    TreeStyle,
}

impl DisplayKey {
    /// The key's name within its section.
    pub open spec fn name_spec(self) -> Seq<char> {
        match self {
            DisplayKey::Emoji => "emoji"@,
            DisplayKey::Colors => "colors"@,
            DisplayKey::TreeDepth => "tree_depth"@,
            DisplayKey::HumanReadable => "human_readable"@,
            DisplayKey::Verbose => "verbose"@,
            DisplayKey::ProgressStyle => "progress_style"@,
            DisplayKey::DateFormat => "date_format"@,
            DisplayKey::TreeStyle => "tree_style"@,
        }
    }

    /// The key's name within its section.
    pub fn name(&self) -> (r: &'static str)
        ensures
            r@ == self.name_spec(),
    {
        match self {
            DisplayKey::Emoji => "emoji",
            DisplayKey::Colors => "colors",
            DisplayKey::TreeDepth => "tree_depth",
            DisplayKey::HumanReadable => "human_readable",
            DisplayKey::Verbose => "verbose",
            DisplayKey::ProgressStyle => "progress_style",
            DisplayKey::DateFormat => "date_format",
            DisplayKey::TreeStyle => "tree_style",
        }
    }

    /// The key a name denotes.
    pub open spec fn named_spec(n: Seq<char>) -> Option<DisplayKey> {
        if n == "emoji"@ {
            Some(DisplayKey::Emoji)
        } else if n == "colors"@ {
            Some(DisplayKey::Colors)
        } else if n == "tree_depth"@ {
            Some(DisplayKey::TreeDepth)
        } else if n == "human_readable"@ {
            Some(DisplayKey::HumanReadable)
        } else if n == "verbose"@ {
            Some(DisplayKey::Verbose)
        } else if n == "progress_style"@ {
            Some(DisplayKey::ProgressStyle)
        } else if n == "date_format"@ {
            Some(DisplayKey::DateFormat)
        } else if n == "tree_style"@ {
            Some(DisplayKey::TreeStyle)
        } else {
            None
        }
    }

    /// The key a name denotes.
    pub fn named(n: &str) -> (r: Option<DisplayKey>)
        ensures
            r == DisplayKey::named_spec(n@),
    {
        if same_text(n, "emoji") {
            Some(DisplayKey::Emoji)
        } else if same_text(n, "colors") {
            Some(DisplayKey::Colors)
        } else if same_text(n, "tree_depth") {
            Some(DisplayKey::TreeDepth)
        } else if same_text(n, "human_readable") {
            Some(DisplayKey::HumanReadable)
        } else if same_text(n, "verbose") {
            Some(DisplayKey::Verbose)
        } else if same_text(n, "progress_style") {
            Some(DisplayKey::ProgressStyle)
        } else if same_text(n, "date_format") {
            Some(DisplayKey::DateFormat)
        } else if same_text(n, "tree_style") {
            Some(DisplayKey::TreeStyle)
        } else {
            None
        }
    }
}

// ---------------------------------------------------------------------
// Sections
// ---------------------------------------------------------------------

/// Colors of the parts of the output.
#[derive(Debug, Clone)]
pub struct ColorsConfig {
    pub dir: ColorValue,
    pub file: ColorValue,
    pub link: ColorValue,
    pub executable: ColorValue,
    pub header: ColorValue,
    pub size: ColorValue,
    pub date: ColorValue,
    pub perm: ColorValue,
    pub tree: ColorValue,
    pub warn: ColorValue,
    pub error: ColorValue,
    pub ok: ColorValue,
}

/// What a [`ColorsConfig`] holds.
pub struct ColorsView {
    pub dir: ColorView,
    pub file: ColorView,
    pub link: ColorView,
    pub executable: ColorView,
    pub header: ColorView,
    pub size: ColorView,
    pub date: ColorView,
    pub perm: ColorView,
    pub tree: ColorView,
    pub warn: ColorView,
    pub error: ColorView,
    pub ok: ColorView,
}

impl View for ColorsConfig {
    type V = ColorsView;

    open spec fn view(&self) -> ColorsView {
        ColorsView {
            dir: self.dir@,
            file: self.file@,
            link: self.link@,
            executable: self.executable@,
            header: self.header@,
            size: self.size@,
            date: self.date@,
            perm: self.perm@,
            tree: self.tree@,
            warn: self.warn@,
            error: self.error@,
            ok: self.ok@,
        }
    }
}

impl ColorsView {
    /// The color under a key.
    pub open spec fn get(self, k: ColorKey) -> ColorView {
        match k {
            ColorKey::Dir => self.dir,
            ColorKey::File => self.file,
            ColorKey::Link => self.link,
            ColorKey::Exec => self.executable,
            ColorKey::Header => self.header,
            ColorKey::Size => self.size,
            ColorKey::Date => self.date,
            ColorKey::Perm => self.perm,
            ColorKey::Tree => self.tree,
            ColorKey::Warn => self.warn,
            ColorKey::Error => self.error,
            ColorKey::Success => self.ok,
        }
    }

    /// The section with the color under `k` replaced by `v`.
    pub open spec fn with(self, k: ColorKey, v: ColorView) -> ColorsView {
        match k {
            ColorKey::Dir => ColorsView { dir: v, ..self },
            ColorKey::File => ColorsView { file: v, ..self },
            ColorKey::Link => ColorsView { link: v, ..self },
            ColorKey::Exec => ColorsView { executable: v, ..self },
            ColorKey::Header => ColorsView { header: v, ..self },
            ColorKey::Size => ColorsView { size: v, ..self },
            ColorKey::Date => ColorsView { date: v, ..self },
            ColorKey::Perm => ColorsView { perm: v, ..self },
            ColorKey::Tree => ColorsView { tree: v, ..self },
            ColorKey::Warn => ColorsView { warn: v, ..self },
            ColorKey::Error => ColorsView { error: v, ..self },
            ColorKey::Success => ColorsView { ok: v, ..self },
        }
    }
}

impl ColorsConfig {
    /// The color under a key.
    pub fn get(&self, k: ColorKey) -> (r: &ColorValue)
        ensures
            r@ == self@.get(k),
    {
        match k {
            ColorKey::Dir => &self.dir,
            ColorKey::File => &self.file,
            ColorKey::Link => &self.link,
            ColorKey::Exec => &self.executable,
            ColorKey::Header => &self.header,
            ColorKey::Size => &self.size,
            ColorKey::Date => &self.date,
            ColorKey::Perm => &self.perm,
            ColorKey::Tree => &self.tree,
            ColorKey::Warn => &self.warn,
            ColorKey::Error => &self.error,
            ColorKey::Success => &self.ok,
        }
    }

    /// Replaces the color under a key.
    pub fn set(&mut self, k: ColorKey, v: ColorValue)
        ensures
            final(self)@ == old(self)@.with(k, v@),
    {
        match k {
            ColorKey::Dir => self.dir = v,
            ColorKey::File => self.file = v,
            ColorKey::Link => self.link = v,
            ColorKey::Exec => self.executable = v,
            ColorKey::Header => self.header = v,
            ColorKey::Size => self.size = v,
            ColorKey::Date => self.date = v,
            ColorKey::Perm => self.perm = v,
            ColorKey::Tree => self.tree = v,
            ColorKey::Warn => self.warn = v,
            ColorKey::Error => self.error = v,
            ColorKey::Success => self.ok = v,
        }
    }

    /// A copy of the section.
    pub fn duplicate(&self) -> (r: ColorsConfig)
        ensures
            r@ == self@,
    {
        ColorsConfig {
            dir: self.dir.duplicate(),
            file: self.file.duplicate(),
            link: self.link.duplicate(),
            executable: self.executable.duplicate(),
            header: self.header.duplicate(),
            size: self.size.duplicate(),
            date: self.date.duplicate(),
            perm: self.perm.duplicate(),
            tree: self.tree.duplicate(),
            warn: self.warn.duplicate(),
            error: self.error.duplicate(),
            ok: self.ok.duplicate(),
        }
    }
}

/// The default colors.
pub open spec fn default_colors_view() -> ColorsView {
    ColorsView {
        dir: ColorView::Hex("#00BFFF"@),
        file: ColorView::Named("white"@),
        link: ColorView::Hex("#FF69B4"@),
        executable: ColorView::Hex("#00FF7F"@),
        header: ColorView::Hex("#FFD700"@),
        size: ColorView::Hex("#00FFFF"@),
        date: ColorView::Hex("#DDA0DD"@),
        perm: ColorView::Hex("#FFA500"@),
        tree: ColorView::Hex("#808080"@),
        warn: ColorView::Hex("#FFFF00"@),
        error: ColorView::Hex("#FF4444"@),
        ok: ColorView::Hex("#44FF44"@),
    }
}

/// The default color of `colors.dir`.
pub fn default_dir_color() -> (r: ColorValue)
    ensures
        r@ == ColorView::Hex("#00BFFF"@),
{
    ColorValue::Hex(owned("#00BFFF"))
}

/// The default color of `colors.file`.
pub fn default_file_color() -> (r: ColorValue)
    ensures
        r@ == ColorView::Named("white"@),
{
    ColorValue::Named(owned("white"))
}

/// The default color of `colors.link`.
pub fn default_link_color() -> (r: ColorValue)
    ensures
        r@ == ColorView::Hex("#FF69B4"@),
{
    ColorValue::Hex(owned("#FF69B4"))
}

/// The default color of `colors.executable`.
pub fn default_exec_color() -> (r: ColorValue)
    ensures
        r@ == ColorView::Hex("#00FF7F"@),
{
    ColorValue::Hex(owned("#00FF7F"))
}

/// The default color of `colors.header`.
pub fn default_header_color() -> (r: ColorValue)
    ensures
        r@ == ColorView::Hex("#FFD700"@),
{
    ColorValue::Hex(owned("#FFD700"))
}

/// The default color of `colors.size`.
pub fn default_size_color() -> (r: ColorValue)
    ensures
        r@ == ColorView::Hex("#00FFFF"@),
{
    ColorValue::Hex(owned("#00FFFF"))
}

/// The default color of `colors.date`.
pub fn default_date_color() -> (r: ColorValue)
    ensures
        r@ == ColorView::Hex("#DDA0DD"@),
{
    ColorValue::Hex(owned("#DDA0DD"))
}

/// The default color of `colors.perm`.
pub fn default_perm_color() -> (r: ColorValue)
    ensures
        r@ == ColorView::Hex("#FFA500"@),
{
    ColorValue::Hex(owned("#FFA500"))
}

/// The default color of `colors.tree`.
pub fn default_tree_color() -> (r: ColorValue)
    ensures
        r@ == ColorView::Hex("#808080"@),
{
    ColorValue::Hex(owned("#808080"))
}

/// The default color of `colors.warn`.
pub fn default_warn_color() -> (r: ColorValue)
    ensures
        r@ == ColorView::Hex("#FFFF00"@),
{
    ColorValue::Hex(owned("#FFFF00"))
}

/// The default color of `colors.error`.
pub fn default_error_color() -> (r: ColorValue)
    ensures
        r@ == ColorView::Hex("#FF4444"@),
{
    ColorValue::Hex(owned("#FF4444"))
}

/// The default color of `colors.ok`.
pub fn default_ok_color() -> (r: ColorValue)
    ensures
        r@ == ColorView::Hex("#44FF44"@),
{
    ColorValue::Hex(owned("#44FF44"))
}

impl ColorsConfig {
    /// The default colors.
    pub fn default_colors() -> (r: ColorsConfig)
        ensures
            r@ == default_colors_view(),
    {
        ColorsConfig {
            dir: default_dir_color(),
            file: default_file_color(),
            link: default_link_color(),
            executable: default_exec_color(),
            header: default_header_color(),
            size: default_size_color(),
            date: default_date_color(),
            perm: default_perm_color(),
            tree: default_tree_color(),
            warn: default_warn_color(),
            error: default_error_color(),
            ok: default_ok_color(),
        }
    }
}

/// Emoji shown before entries and messages.
#[derive(Debug, Clone)]
pub struct EmojisConfig {
    pub dir: String,
    pub file: String,
    pub link: String,
    pub archive: String,
    pub image: String,
    pub video: String,
    pub audio: String,
    pub doc: String,
    pub code: String,
    pub ok: String,
    pub warn: String,
    pub error: String,
}

/// What an [`EmojisConfig`] holds.
pub struct EmojisView {
    pub dir: Seq<char>,
    pub file: Seq<char>,
    pub link: Seq<char>,
    pub archive: Seq<char>,
    pub image: Seq<char>,
    pub video: Seq<char>,
    pub audio: Seq<char>,
    pub doc: Seq<char>,
    pub code: Seq<char>,
    pub ok: Seq<char>,
    pub warn: Seq<char>,
    pub error: Seq<char>,
}

impl View for EmojisConfig {
    type V = EmojisView;

    open spec fn view(&self) -> EmojisView {
        EmojisView {
            dir: self.dir@,
            file: self.file@,
            link: self.link@,
            archive: self.archive@,
            image: self.image@,
            video: self.video@,
            audio: self.audio@,
            doc: self.doc@,
            code: self.code@,
            ok: self.ok@,
            warn: self.warn@,
            error: self.error@,
        }
    }
}

impl EmojisView {
    /// The emoji under a key.
    pub open spec fn get(self, k: EmojiKey) -> Seq<char> {
        match k {
            EmojiKey::Dir => self.dir,
            EmojiKey::File => self.file,
            EmojiKey::Link => self.link,
            EmojiKey::Archive => self.archive,
            EmojiKey::Image => self.image,
            EmojiKey::Video => self.video,
            EmojiKey::Audio => self.audio,
            EmojiKey::Doc => self.doc,
            EmojiKey::Code => self.code,
            EmojiKey::Success => self.ok,
            EmojiKey::Warn => self.warn,
            EmojiKey::Error => self.error,
        }
    }

    /// The section with the emoji under `k` replaced by `v`.
    pub open spec fn with(self, k: EmojiKey, v: Seq<char>) -> EmojisView {
        match k {
            EmojiKey::Dir => EmojisView { dir: v, ..self },
            EmojiKey::File => EmojisView { file: v, ..self },
            EmojiKey::Link => EmojisView { link: v, ..self },
            EmojiKey::Archive => EmojisView { archive: v, ..self },
            EmojiKey::Image => EmojisView { image: v, ..self },
            EmojiKey::Video => EmojisView { video: v, ..self },
            EmojiKey::Audio => EmojisView { audio: v, ..self },
            EmojiKey::Doc => EmojisView { doc: v, ..self },
            EmojiKey::Code => EmojisView { code: v, ..self },
            EmojiKey::Success => EmojisView { ok: v, ..self },
            EmojiKey::Warn => EmojisView { warn: v, ..self },
            EmojiKey::Error => EmojisView { error: v, ..self },
        }
    }
}

impl EmojisConfig {
    /// The emoji under a key.
    pub fn get(&self, k: EmojiKey) -> (r: &String)
        ensures
            r@ == self@.get(k),
    {
        match k {
            EmojiKey::Dir => &self.dir,
            EmojiKey::File => &self.file,
            EmojiKey::Link => &self.link,
            EmojiKey::Archive => &self.archive,
            EmojiKey::Image => &self.image,
            EmojiKey::Video => &self.video,
            EmojiKey::Audio => &self.audio,
            EmojiKey::Doc => &self.doc,
            EmojiKey::Code => &self.code,
            EmojiKey::Success => &self.ok,
            EmojiKey::Warn => &self.warn,
            EmojiKey::Error => &self.error,
        }
    }

    /// Replaces the emoji under a key.
    pub fn set(&mut self, k: EmojiKey, v: String)
        ensures
            final(self)@ == old(self)@.with(k, v@),
    {
        match k {
            EmojiKey::Dir => self.dir = v,
            EmojiKey::File => self.file = v,
            EmojiKey::Link => self.link = v,
            EmojiKey::Archive => self.archive = v,
            EmojiKey::Image => self.image = v,
            EmojiKey::Video => self.video = v,
            EmojiKey::Audio => self.audio = v,
            EmojiKey::Doc => self.doc = v,
            EmojiKey::Code => self.code = v,
            EmojiKey::Success => self.ok = v,
            EmojiKey::Warn => self.warn = v,
            EmojiKey::Error => self.error = v,
        }
    }

    /// A copy of the section.
    pub fn duplicate(&self) -> (r: EmojisConfig)
        ensures
            r@ == self@,
    {
        EmojisConfig {
            dir: self.dir.clone(),
            file: self.file.clone(),
            link: self.link.clone(),
            archive: self.archive.clone(),
            image: self.image.clone(),
            video: self.video.clone(),
            audio: self.audio.clone(),
            doc: self.doc.clone(),
            code: self.code.clone(),
            ok: self.ok.clone(),
            warn: self.warn.clone(),
            error: self.error.clone(),
        }
    }
}

/// The default emoji.
pub open spec fn default_emojis_view() -> EmojisView {
    EmojisView {
        dir: "📁"@,
        file: "📄"@,
        link: "🔗"@,
        archive: "📦"@,
        image: "🖼️"@,
        video: "🎬"@,
        audio: "🎵"@,
        doc: "📝"@,
        code: "💻"@,
        ok: "✅"@,
        warn: "⚠️"@,
        error: "❌"@,
    }
}

/// The default emoji of `emojis.dir`.
pub fn default_dir_emoji() -> (r: String)
    ensures
        r@ == "📁"@,
{
    owned("📁")
}

/// The default emoji of `emojis.file`.
pub fn default_file_emoji() -> (r: String)
    ensures
        r@ == "📄"@,
{
    owned("📄")
}

/// The default emoji of `emojis.link`.
pub fn default_link_emoji() -> (r: String)
    ensures
        r@ == "🔗"@,
{
    owned("🔗")
}

/// The default emoji of `emojis.archive`.
pub fn default_archive_emoji() -> (r: String)
    ensures
        r@ == "📦"@,
{
    owned("📦")
}

/// The default emoji of `emojis.image`.
pub fn default_image_emoji() -> (r: String)
    ensures
        r@ == "🖼️"@,
{
    owned("🖼️")
}

/// The default emoji of `emojis.video`.
pub fn default_video_emoji() -> (r: String)
    ensures
        r@ == "🎬"@,
{
    owned("🎬")
}

/// The default emoji of `emojis.audio`.
pub fn default_audio_emoji() -> (r: String)
    ensures
        r@ == "🎵"@,
{
    owned("🎵")
}

/// The default emoji of `emojis.doc`.
pub fn default_doc_emoji() -> (r: String)
    ensures
        r@ == "📝"@,
{
    owned("📝")
}

/// The default emoji of `emojis.code`.
pub fn default_code_emoji() -> (r: String)
    ensures
        r@ == "💻"@,
{
    owned("💻")
}

/// The default emoji of `emojis.ok`.
pub fn default_ok_emoji() -> (r: String)
    ensures
        r@ == "✅"@,
{
    owned("✅")
}

/// The default emoji of `emojis.warn`.
pub fn default_warn_emoji() -> (r: String)
    ensures
        r@ == "⚠️"@,
{
    owned("⚠️")
}

/// The default emoji of `emojis.error`.
pub fn default_error_emoji() -> (r: String)
    ensures
        r@ == "❌"@,
{
    owned("❌")
}

impl EmojisConfig {
    /// The default emoji.
    pub fn default_emojis() -> (r: EmojisConfig)
        ensures
            r@ == default_emojis_view(),
    {
        EmojisConfig {
            dir: default_dir_emoji(),
            file: default_file_emoji(),
            link: default_link_emoji(),
            archive: default_archive_emoji(),
            image: default_image_emoji(),
            video: default_video_emoji(),
            audio: default_audio_emoji(),
            doc: default_doc_emoji(),
            code: default_code_emoji(),
            ok: default_ok_emoji(),
            warn: default_warn_emoji(),
            error: default_error_emoji(),
        }
    }
}


/// Display settings.
#[derive(Debug, Clone)]
pub struct DisplayConfig {
    pub emoji: bool,
    pub colors: bool,
    pub tree_depth: u32,
    pub human_readable: bool,
    pub verbose: bool,
    pub progress_style: String,
    pub date_format: String,
    pub tree_style: String,
}

/// What a [`DisplayConfig`] holds.
pub struct DisplayView {
    pub emoji: bool,
    pub colors: bool,
    pub tree_depth: u32,
    pub human_readable: bool,
    pub verbose: bool,
    pub progress_style: Seq<char>,
    pub date_format: Seq<char>,
    pub tree_style: Seq<char>,
}

impl View for DisplayConfig {
    type V = DisplayView;

    open spec fn view(&self) -> DisplayView {
        DisplayView {
            emoji: self.emoji,
            colors: self.colors,
            tree_depth: self.tree_depth,
            human_readable: self.human_readable,
            verbose: self.verbose,
            progress_style: self.progress_style@,
            date_format: self.date_format@,
            tree_style: self.tree_style@,
        }
    }
}

/// `true` or `false` as text.
pub open spec fn bool_text(b: bool) -> Seq<char> {
    if b {
        "true"@
    } else {
        "false"@
    }
}

fn bool_string(b: bool) -> (r: String)
    ensures
        r@ == bool_text(b),
{
    if b {
        owned("true")
    } else {
        owned("false")
    }
}

/// The default display settings.
pub open spec fn default_display_view() -> DisplayView {
    DisplayView {
        emoji: true,
        colors: true,
        tree_depth: 0,
        human_readable: true,
        verbose: false,
        progress_style: "bar"@,
        date_format: "%Y-%m-%d %H:%M"@,
        tree_style: "unicode"@,
    }
}

/// The default of the boolean display settings that are on by default.
pub fn default_true() -> (r: bool)
    ensures
        r,
{
    true
}

/// The default of `display.progress_style`.
pub fn default_progress_style() -> (r: String)
    ensures
        r@ == "bar"@,
{
    owned("bar")
}

/// The default of `display.date_format`.
pub fn default_date_format() -> (r: String)
    ensures
        r@ == "%Y-%m-%d %H:%M"@,
{
    owned("%Y-%m-%d %H:%M")
}

/// The default of `display.tree_style`.
pub fn default_tree_style() -> (r: String)
    ensures
        r@ == "unicode"@,
{
    owned("unicode")
}

impl DisplayConfig {
    /// The default display settings.
    pub fn default_display() -> (r: DisplayConfig)
        ensures
            r@ == default_display_view(),
    {
        DisplayConfig {
            emoji: true,
            colors: true,
            tree_depth: 0,
            human_readable: true,
            verbose: false,
            progress_style: default_progress_style(),
            date_format: default_date_format(),
            tree_style: default_tree_style(),
        }
    }

    /// A copy of the section.
    pub fn duplicate(&self) -> (r: DisplayConfig)
        ensures
            r@ == self@,
    {
        DisplayConfig {
            emoji: self.emoji,
            colors: self.colors,
            tree_depth: self.tree_depth,
            human_readable: self.human_readable,
            verbose: self.verbose,
            progress_style: self.progress_style.clone(),
            date_format: self.date_format.clone(),
            tree_style: self.tree_style.clone(),
        }
    }
}

// ---------------------------------------------------------------------
// The whole configuration
// ---------------------------------------------------------------------

/// The whole configuration.
#[derive(Debug, Clone)]
pub struct Config {
    pub colors: ColorsConfig,
    pub emojis: EmojisConfig,
    pub display: DisplayConfig,
}

/// What a [`Config`] holds.
pub struct ConfigView {
    pub colors: ColorsView,
    pub emojis: EmojisView,
    pub display: DisplayView,
}

impl View for Config {
    type V = ConfigView;

    open spec fn view(&self) -> ConfigView {
        ConfigView { colors: self.colors@, emojis: self.emojis@, display: self.display@ }
    }
}

/// The default configuration.
pub open spec fn default_config_view() -> ConfigView {
    ConfigView {
        colors: default_colors_view(),
        emojis: default_emojis_view(),
        display: default_display_view(),
    }
}

impl Config {
    /// The default configuration.
    pub fn default_config() -> (r: Config)
        ensures
            r@ == default_config_view(),
    {
        Config {
            colors: ColorsConfig::default_colors(),
            emojis: EmojisConfig::default_emojis(),
            display: DisplayConfig::default_display(),
        }
    }

    /// A copy of the configuration.
    pub fn duplicate(&self) -> (r: Config)
        ensures
            r@ == self@,
    {
        Config {
            colors: self.colors.duplicate(),
            emojis: self.emojis.duplicate(),
            display: self.display.duplicate(),
        }
    }
}

impl Default for Config {
    fn default() -> (r: Config)
        ensures
            r@ == default_config_view(),
    {
        Config::default_config()
    }
}

impl Default for ColorValue {
    fn default() -> (r: ColorValue)
        ensures
            r@ == ColorView::Named("white"@),
    {
        ColorValue::Named(owned("white"))
    }
}

impl Default for ColorsConfig {
    fn default() -> (r: ColorsConfig)
        ensures
            r@ == default_colors_view(),
    {
        ColorsConfig::default_colors()
    }
}

impl Default for EmojisConfig {
    fn default() -> (r: EmojisConfig)
        ensures
            r@ == default_emojis_view(),
    {
        EmojisConfig::default_emojis()
    }
}

impl Default for DisplayConfig {
    fn default() -> (r: DisplayConfig)
        ensures
            r@ == default_display_view(),
    {
        DisplayConfig::default_display()
    }
}

// ---------------------------------------------------------------------
// Fields addressed by key
// ---------------------------------------------------------------------

/// A single setting.
#[derive(Debug, Clone, Copy, PartialEq, Eq, Structural)]
pub enum ConfigField {
    Color(ColorKey),
    Emoji(EmojiKey),
    Display(DisplayKey),
}

impl ConfigField {
    /// The section the setting belongs to.
    pub open spec fn section(self) -> Section {
        match self {
            ConfigField::Color(_) => Section::Colors,
            ConfigField::Emoji(_) => Section::Emojis,
            ConfigField::Display(_) => Section::Display,
        }
    }

    /// The setting's name within its section.
    pub open spec fn name_spec(self) -> Seq<char> {
        match self {
            ConfigField::Color(k) => k.name_spec(),
            ConfigField::Emoji(k) => k.name_spec(),
            ConfigField::Display(k) => k.name_spec(),
        }
    }

    /// The setting's name within its section.
    pub fn name(&self) -> (r: &'static str)
        ensures
            r@ == self.name_spec(),
    {
        match self {
            ConfigField::Color(k) => k.name(),
            ConfigField::Emoji(k) => k.name(),
            ConfigField::Display(k) => k.name(),
        }
    }

    /// The setting of section `s` that a name denotes.
    pub open spec fn named_spec(s: Section, n: Seq<char>) -> Option<ConfigField> {
        match s {
            Section::Colors => match ColorKey::named_spec(n) {
                Some(k) => Some(ConfigField::Color(k)),
                None => None,
            },
            Section::Emojis => match EmojiKey::named_spec(n) {
                Some(k) => Some(ConfigField::Emoji(k)),
                None => None,
            },
            Section::Display => match DisplayKey::named_spec(n) {
                Some(k) => Some(ConfigField::Display(k)),
                None => None,
            },
        }
    }

    /// The setting of section `s` that a name denotes.
    pub fn named(s: Section, n: &str) -> (r: Option<ConfigField>)
        ensures
            r == ConfigField::named_spec(s, n@),
    {
        match s {
            Section::Colors => match ColorKey::named(n) {
                Some(k) => Some(ConfigField::Color(k)),
                None => None,
            },
            Section::Emojis => match EmojiKey::named(n) {
                Some(k) => Some(ConfigField::Emoji(k)),
                None => None,
            },
            Section::Display => match DisplayKey::named(n) {
                Some(k) => Some(ConfigField::Display(k)),
                None => None,
            },
        }
    }
}

/// A display setting as `get` shows it.
pub open spec fn display_text(d: DisplayView, k: DisplayKey) -> Seq<char> {
    match k {
        DisplayKey::Emoji => bool_text(d.emoji),
        DisplayKey::Colors => bool_text(d.colors),
        DisplayKey::TreeDepth => decimal(d.tree_depth as nat),
        DisplayKey::HumanReadable => bool_text(d.human_readable),
        DisplayKey::Verbose => bool_text(d.verbose),
        DisplayKey::ProgressStyle => d.progress_style,
        DisplayKey::DateFormat => d.date_format,
        DisplayKey::TreeStyle => d.tree_style,
    }
}

/// Whether a display setting is text (written quoted in JSON).
pub open spec fn display_is_text(k: DisplayKey) -> bool {
    k == DisplayKey::ProgressStyle || k == DisplayKey::DateFormat || k == DisplayKey::TreeStyle
}

/// A setting as `get` shows it: text as it is, booleans as `true`/`false`,
/// numbers in decimal.
pub open spec fn field_text(c: ConfigView, f: ConfigField) -> Seq<char> {
    match f {
        ConfigField::Color(k) => c.colors.get(k).text(),
        ConfigField::Emoji(k) => c.emojis.get(k),
        ConfigField::Display(k) => display_text(c.display, k),
    }
}

/// A setting as a JSON value: text quoted, booleans and numbers bare.
pub open spec fn field_json(c: ConfigView, f: ConfigField) -> Seq<char> {
    match f {
        ConfigField::Color(k) => json_string_literal(c.colors.get(k).text()),
        ConfigField::Emoji(k) => json_string_literal(c.emojis.get(k)),
        ConfigField::Display(k) => if display_is_text(k) {
            json_string_literal(display_text(c.display, k))
        } else {
            display_text(c.display, k)
        },
    }
}

/// The settings of a section in the order of their names (how the
/// serialized configuration lists them).
pub open spec fn section_fields(s: Section) -> Seq<ConfigField> {
    match s {
        Section::Colors => seq![
            ConfigField::Color(ColorKey::Date),
            ConfigField::Color(ColorKey::Dir),
            ConfigField::Color(ColorKey::Error),
            ConfigField::Color(ColorKey::Exec),
            ConfigField::Color(ColorKey::File),
            ConfigField::Color(ColorKey::Header),
            ConfigField::Color(ColorKey::Link),
            ConfigField::Color(ColorKey::Success),
            ConfigField::Color(ColorKey::Perm),
            ConfigField::Color(ColorKey::Size),
            ConfigField::Color(ColorKey::Tree),
            ConfigField::Color(ColorKey::Warn),
        ],
        Section::Emojis => seq![
            ConfigField::Emoji(EmojiKey::Archive),
            ConfigField::Emoji(EmojiKey::Audio),
            ConfigField::Emoji(EmojiKey::Code),
            ConfigField::Emoji(EmojiKey::Dir),
            ConfigField::Emoji(EmojiKey::Doc),
            ConfigField::Emoji(EmojiKey::Error),
            ConfigField::Emoji(EmojiKey::File),
            ConfigField::Emoji(EmojiKey::Image),
            ConfigField::Emoji(EmojiKey::Link),
            ConfigField::Emoji(EmojiKey::Success),
            ConfigField::Emoji(EmojiKey::Video),
            ConfigField::Emoji(EmojiKey::Warn),
        ],
        Section::Display => seq![
            ConfigField::Display(DisplayKey::Colors),
            ConfigField::Display(DisplayKey::DateFormat),
            ConfigField::Display(DisplayKey::Emoji),
            ConfigField::Display(DisplayKey::HumanReadable),
            ConfigField::Display(DisplayKey::ProgressStyle),
            ConfigField::Display(DisplayKey::TreeDepth),
            ConfigField::Display(DisplayKey::TreeStyle),
            ConfigField::Display(DisplayKey::Verbose),
        ],
    }
}

fn section_fields_list(s: Section) -> (r: Vec<ConfigField>)
    ensures
        r@ == section_fields(s),
{
    let r = match s {
        Section::Colors => vec![
            ConfigField::Color(ColorKey::Date),
            ConfigField::Color(ColorKey::Dir),
            ConfigField::Color(ColorKey::Error),
            ConfigField::Color(ColorKey::Exec),
            ConfigField::Color(ColorKey::File),
            ConfigField::Color(ColorKey::Header),
            ConfigField::Color(ColorKey::Link),
            ConfigField::Color(ColorKey::Success),
            ConfigField::Color(ColorKey::Perm),
            ConfigField::Color(ColorKey::Size),
            ConfigField::Color(ColorKey::Tree),
            ConfigField::Color(ColorKey::Warn),
        ],
        Section::Emojis => vec![
            ConfigField::Emoji(EmojiKey::Archive),
            ConfigField::Emoji(EmojiKey::Audio),
            ConfigField::Emoji(EmojiKey::Code),
            ConfigField::Emoji(EmojiKey::Dir),
            ConfigField::Emoji(EmojiKey::Doc),
            ConfigField::Emoji(EmojiKey::Error),
            ConfigField::Emoji(EmojiKey::File),
            ConfigField::Emoji(EmojiKey::Image),
            ConfigField::Emoji(EmojiKey::Link),
            ConfigField::Emoji(EmojiKey::Success),
            ConfigField::Emoji(EmojiKey::Video),
            ConfigField::Emoji(EmojiKey::Warn),
        ],
        Section::Display => vec![
            ConfigField::Display(DisplayKey::Colors),
            ConfigField::Display(DisplayKey::DateFormat),
            ConfigField::Display(DisplayKey::Emoji),
            ConfigField::Display(DisplayKey::HumanReadable),
            ConfigField::Display(DisplayKey::ProgressStyle),
            ConfigField::Display(DisplayKey::TreeDepth),
            ConfigField::Display(DisplayKey::TreeStyle),
            ConfigField::Display(DisplayKey::Verbose),
        ],
    };
    assert(r@ =~= section_fields(s));
    r
}

/// One `"name":value` member of a section's JSON object.
pub open spec fn json_member(c: ConfigView, f: ConfigField) -> Seq<char> {
    seq!['"'] + f.name_spec() + seq!['"', ':'] + field_json(c, f)
}

/// The members for `fs`, separated by commas.
pub open spec fn json_members(c: ConfigView, fs: Seq<ConfigField>) -> Seq<char>
    decreases fs.len(),
{
    if fs.len() == 0 {
        Seq::empty()
    } else if fs.len() == 1 {
        json_member(c, fs[0])
    } else {
        json_members(c, fs.drop_last()) + seq![','] + json_member(c, fs.last())
    }
}

/// A whole section as compact JSON, its members in the order of their names.
pub open spec fn section_json(c: ConfigView, s: Section) -> Seq<char> {
    seq!['{'] + json_members(c, section_fields(s)) + seq!['}']
}

/// What `get` returns for a dotted key: a setting's text for
/// `section.name`, a whole section as JSON for `section`, and nothing for
/// any other key.
pub open spec fn get_spec(c: ConfigView, key: Seq<char>) -> Option<Seq<char>> {
    let parts = split_on(key, '.');
    if parts.len() == 1 {
        match Section::named_spec(parts[0]) {
            Some(s) => Some(section_json(c, s)),
            None => None,
        }
    } else if parts.len() == 2 {
        match Section::named_spec(parts[0]) {
            Some(s) => match ConfigField::named_spec(s, parts[1]) {
                Some(f) => Some(field_text(c, f)),
                None => None,
            },
            None => None,
        }
    } else {
        None
    }
}

/// The `section.name` key of a setting.
pub open spec fn full_key(f: ConfigField) -> Seq<char> {
    f.section().name_spec() + seq!['.'] + f.name_spec()
}

/// All settings, section by section (`colors`, `emojis`, `display`), each
/// section's in the order of their names.
pub open spec fn all_fields() -> Seq<ConfigField> {
    section_fields(Section::Colors) + section_fields(Section::Emojis) + section_fields(
        Section::Display,
    )
}

/// The view of an optional string.
pub open spec fn opt_view(o: Option<String>) -> Option<Seq<char>> {
    match o {
        Some(s) => Some(s@),
        None => None,
    }
}

impl Config {
    /// The text of a setting.
    pub fn field_string(&self, f: ConfigField) -> (r: String)
        ensures
            r@ == field_text(self@, f),
    {
        match f {
            ConfigField::Color(k) => owned(self.colors.get(k).as_str()),
            ConfigField::Emoji(k) => self.emojis.get(k).clone(),
            ConfigField::Display(k) => match k {
                DisplayKey::Emoji => bool_string(self.display.emoji),
                DisplayKey::Colors => bool_string(self.display.colors),
                DisplayKey::TreeDepth => decimal_string(self.display.tree_depth as u64),
                DisplayKey::HumanReadable => bool_string(self.display.human_readable),
                DisplayKey::Verbose => bool_string(self.display.verbose),
                DisplayKey::ProgressStyle => self.display.progress_style.clone(),
                DisplayKey::DateFormat => self.display.date_format.clone(),
                DisplayKey::TreeStyle => self.display.tree_style.clone(),
            },
        }
    }

    fn field_json_string(&self, f: ConfigField) -> (r: String)
        ensures
            r@ == field_json(self@, f),
    {
        let text = self.field_string(f);
        match f {
            ConfigField::Display(k) => {
                match k {
                    DisplayKey::ProgressStyle | DisplayKey::DateFormat | DisplayKey::TreeStyle => {
                        json_quote(text.as_str())
                    },
                    _ => text,
                }
            },
            _ => json_quote(text.as_str()),
        }
    }

    /// A whole section as compact JSON.
    pub fn section_json_string(&self, s: Section) -> (r: String)
        ensures
            r@ == section_json(self@, s),
    {
        let fields = section_fields_list(s);
        let mut out = String::new();
        push_char(&mut out, '{');
        let mut i: usize = 0;
        while i < fields.len()
            invariant
                i <= fields.len(),
                fields@ == section_fields(s),
                out@ == seq!['{'] + json_members(self@, fields@.take(i as int)),
            decreases fields.len() - i,
        {
            let f = fields[i];
            assert(fields@.take(i as int + 1).drop_last() =~= fields@.take(i as int));
            if i > 0 {
                push_char(&mut out, ',');
            }
            push_char(&mut out, '"');
            push_str(&mut out, f.name());
            push_char(&mut out, '"');
            push_char(&mut out, ':');
            let v = self.field_json_string(f);
            push_str(&mut out, v.as_str());
            i = i + 1;
            assert(out@ =~= seq!['{'] + json_members(self@, fields@.take(i as int)));
        }
        assert(fields@.take(fields.len() as int) =~= fields@);
        push_char(&mut out, '}');
        out
    }

    /// The value under a dotted key (see [`get_spec`]).
    pub fn get_value(&self, key: &str) -> (r: Option<String>)
        ensures
            opt_view(r) == get_spec(self@, key@),
    {
        let kc = chars_of(key);
        let parts = split_chars(&kc, '.');
        proof {
            crate::text::lemma_split_on_nonempty(key@, '.');
        }
        if parts.len() == 1 {
            let name = crate::text::string_of(&parts[0]);
            match Section::named(name.as_str()) {
                Some(s) => Some(self.section_json_string(s)),
                None => None,
            }
        } else if parts.len() == 2 {
            let sec = crate::text::string_of(&parts[0]);
            let fld = crate::text::string_of(&parts[1]);
            match Section::named(sec.as_str()) {
                Some(s) => match ConfigField::named(s, fld.as_str()) {
                    Some(f) => Some(self.field_string(f)),
                    None => None,
                },
                None => None,
            }
        } else {
            None
        }
    }

    /// Every setting as a (`section.name`, text) pair, in the order of
    /// [`all_fields`].
    pub fn list_all(&self) -> (r: Vec<(String, String)>)
        ensures
            r@.len() == all_fields().len(),
            forall|i: int|
                0 <= i < r@.len() ==> (#[trigger] r@[i]).0@ == full_key(all_fields()[i])
                    && r@[i].1@ == field_text(self@, all_fields()[i]),
    {
        let mut fields = section_fields_list(Section::Colors);
        let mut more = section_fields_list(Section::Emojis);
        fields.append(&mut more);
        let mut rest = section_fields_list(Section::Display);
        fields.append(&mut rest);
        assert(fields@ =~= all_fields());
        let mut out: Vec<(String, String)> = Vec::new();
        let mut i: usize = 0;
        while i < fields.len()
            invariant
                i <= fields.len(),
                fields@ == all_fields(),
                out@.len() == i,
                forall|j: int|
                    0 <= j < i ==> (#[trigger] out@[j]).0@ == full_key(all_fields()[j])
                        && out@[j].1@ == field_text(self@, all_fields()[j]),
            decreases fields.len() - i,
        {
            let f = fields[i];
            let sec = match f {
                ConfigField::Color(_) => Section::Colors,
                ConfigField::Emoji(_) => Section::Emojis,
                ConfigField::Display(_) => Section::Display,
            };
            let mut k = owned(sec.name());
            push_char(&mut k, '.');
            push_str(&mut k, f.name());
            let v = self.field_string(f);
            out.push((k, v));
            i = i + 1;
        }
        out
    }
}


// ---------------------------------------------------------------------
// Setting values
// ---------------------------------------------------------------------

/// Why a setting could not be changed.
#[derive(Debug, Clone, PartialEq, Eq)]
pub enum ConfigError {
    /// The key is not of the form `section.name`.
    KeyFormat,
    /// No section has this name.
    UnknownSection(String),
    /// The value is neither `#...` nor a color name.
    InvalidColor(String),
    /// No color has this name.
    UnknownColorKey(String),
    /// No emoji has this name.
    UnknownEmojiKey(String),
    /// No display setting has this name.
    UnknownDisplayKey(String),
    /// The value is not a boolean word.
    InvalidBool(String),
    /// `tree_depth` is not a number.
    TreeDepthNotNumber,
    /// `progress_style` is not `bar`, `spinner` or `none`.
    InvalidProgressStyle,
    /// `tree_style` is not `unicode` or `ascii`.
    InvalidTreeStyle,
}

/// What a [`ConfigError`] holds.
pub enum ConfigFailure {
    KeyFormat,
    UnknownSection(Seq<char>),
    InvalidColor(Seq<char>),
    UnknownColorKey(Seq<char>),
    UnknownEmojiKey(Seq<char>),
    UnknownDisplayKey(Seq<char>),
    InvalidBool(Seq<char>),
    TreeDepthNotNumber,
    InvalidProgressStyle,
    InvalidTreeStyle,
}

impl View for ConfigError {
    type V = ConfigFailure;

    open spec fn view(&self) -> ConfigFailure {
        match self {
            ConfigError::KeyFormat => ConfigFailure::KeyFormat,
            ConfigError::UnknownSection(s) => ConfigFailure::UnknownSection(s@),
            ConfigError::InvalidColor(s) => ConfigFailure::InvalidColor(s@),
            ConfigError::UnknownColorKey(s) => ConfigFailure::UnknownColorKey(s@),
            ConfigError::UnknownEmojiKey(s) => ConfigFailure::UnknownEmojiKey(s@),
            ConfigError::UnknownDisplayKey(s) => ConfigFailure::UnknownDisplayKey(s@),
            ConfigError::InvalidBool(s) => ConfigFailure::InvalidBool(s@),
            ConfigError::TreeDepthNotNumber => ConfigFailure::TreeDepthNotNumber,
            ConfigError::InvalidProgressStyle => ConfigFailure::InvalidProgressStyle,
            ConfigError::InvalidTreeStyle => ConfigFailure::InvalidTreeStyle,
        }
    }
}

/// The message that reports a failure.
pub open spec fn failure_message(f: ConfigFailure) -> Seq<char> {
    match f {
        ConfigFailure::KeyFormat => "Key must be in format 'section.field' (e.g. 'colors.dir')"@,
        ConfigFailure::UnknownSection(s) => "Unknown config section: '"@ + s
            + "'. Valid: colors, emojis, display"@,
        ConfigFailure::InvalidColor(s) => "Invalid color '"@ + s
            + "'. Use hex (#RRGGBB) or named color (red, green, blue, ...)"@,
        ConfigFailure::UnknownColorKey(s) => "Unknown color key: '"@ + s
            + "'. Valid: dir, file, link, exec, header, size, date, perm, tree, warn, error, ok"@,
        ConfigFailure::UnknownEmojiKey(s) => "Unknown emoji key: '"@ + s
            + "'. Valid: dir, file, link, archive, image, video, audio, doc, code, ok, warn, error"@,
        ConfigFailure::UnknownDisplayKey(s) => "Unknown display key: '"@ + s
            + "'. Valid: emoji, colors, tree_depth, human_readable, verbose, progress_style, date_format, tree_style"@,
        ConfigFailure::InvalidBool(s) => "Cannot parse '"@ + s
            + "' as boolean (use true/false/yes/no/1/0)"@,
        ConfigFailure::TreeDepthNotNumber => "tree_depth must be a number"@,
        ConfigFailure::InvalidProgressStyle => "progress_style must be 'bar', 'spinner', or 'none'"@,
        ConfigFailure::InvalidTreeStyle => "tree_style must be 'unicode' or 'ascii'"@,
    }
}

fn wrap_message(pre: &str, s: &String, post: &str) -> (r: String)
    ensures
        r@ == pre@ + s@ + post@,
{
    let mut r = owned(pre);
    push_str(&mut r, s.as_str());
    push_str(&mut r, post);
    r
}

impl ConfigError {
    /// The message that reports the failure.
    pub fn message(&self) -> (r: String)
        ensures
            r@ == failure_message(self@),
    {
        match self {
            ConfigError::KeyFormat => owned("Key must be in format 'section.field' (e.g. 'colors.dir')"),
            ConfigError::UnknownSection(s) => wrap_message(
                "Unknown config section: '",
                s,
                "'. Valid: colors, emojis, display",
            ),
            ConfigError::InvalidColor(s) => wrap_message(
                "Invalid color '",
                s,
                "'. Use hex (#RRGGBB) or named color (red, green, blue, ...)",
            ),
            ConfigError::UnknownColorKey(s) => wrap_message(
                "Unknown color key: '",
                s,
                "'. Valid: dir, file, link, exec, header, size, date, perm, tree, warn, error, ok",
            ),
            ConfigError::UnknownEmojiKey(s) => wrap_message(
                "Unknown emoji key: '",
                s,
                "'. Valid: dir, file, link, archive, image, video, audio, doc, code, ok, warn, error",
            ),
            ConfigError::UnknownDisplayKey(s) => wrap_message(
                "Unknown display key: '",
                s,
                "'. Valid: emoji, colors, tree_depth, human_readable, verbose, progress_style, date_format, tree_style",
            ),
            ConfigError::InvalidBool(s) => wrap_message(
                "Cannot parse '",
                s,
                "' as boolean (use true/false/yes/no/1/0)",
            ),
            ConfigError::TreeDepthNotNumber => owned("tree_depth must be a number"),
            ConfigError::InvalidProgressStyle => owned(
                "progress_style must be 'bar', 'spinner', or 'none'",
            ),
            ConfigError::InvalidTreeStyle => owned("tree_style must be 'unicode' or 'ascii'"),
        }
    }
}

/// The sixteen color names a named color may have.
pub open spec fn is_named_color_spec(s: Seq<char>) -> bool {
    s == "black"@ || s == "red"@ || s == "green"@ || s == "yellow"@ || s == "blue"@ || s
        == "magenta"@ || s == "cyan"@ || s == "white"@ || s == "bright_black"@ || s
        == "bright_red"@ || s == "bright_green"@ || s == "bright_yellow"@ || s == "bright_blue"@
        || s == "bright_magenta"@ || s == "bright_cyan"@ || s == "bright_white"@
}

/// Whether `s` is one of the sixteen color names.
pub fn is_named_color(s: &str) -> (r: bool)
    ensures
        r == is_named_color_spec(s@),
{
    same_text(s, "black") || same_text(s, "red") || same_text(s, "green") || same_text(s, "yellow")
        || same_text(s, "blue") || same_text(s, "magenta") || same_text(s, "cyan") || same_text(
        s,
        "white",
    ) || same_text(s, "bright_black") || same_text(s, "bright_red") || same_text(s, "bright_green")
        || same_text(s, "bright_yellow") || same_text(s, "bright_blue") || same_text(
        s,
        "bright_magenta",
    ) || same_text(s, "bright_cyan") || same_text(s, "bright_white")
}

/// The boolean a word denotes, compared after Unicode lowercasing:
/// `true`, `1`, `yes`, `on` and `false`, `0`, `no`, `off`.
pub open spec fn bool_word(s: Seq<char>) -> Option<bool> {
    let l = unicode_lowercase(s);
    if l == "true"@ || l == "1"@ || l == "yes"@ || l == "on"@ {
        Some(true)
    } else if l == "false"@ || l == "0"@ || l == "no"@ || l == "off"@ {
        Some(false)
    } else {
        None
    }
}

/// Reads a boolean word (see [`bool_word`]).
pub fn parse_bool(s: &str) -> (r: Result<bool, ConfigError>)
    ensures
        match r {
            Ok(b) => bool_word(s@) == Some(b),
            Err(e) => bool_word(s@) is None && e@ == ConfigFailure::InvalidBool(s@),
        },
{
    let low = to_lowercase(s);
    let l = low.as_str();
    if same_text(l, "true") || same_text(l, "1") || same_text(l, "yes") || same_text(l, "on") {
        Ok(true)
    } else if same_text(l, "false") || same_text(l, "0") || same_text(l, "no") || same_text(
        l,
        "off",
    ) {
        Ok(false)
    } else {
        Err(ConfigError::InvalidBool(owned(s)))
    }
}

/// Whether a value is accepted as a color: `#RRGGBB` with six hex digits,
/// or a color name.
pub open spec fn is_color_text(v: Seq<char>) -> bool {
    is_hex_color(v) || is_named_color_spec(v)
}

/// The color a value sets: hex when it starts with `#`, else named.
pub open spec fn color_of_text(v: Seq<char>) -> ColorView {
    if v.len() > 0 && v[0] == '#' {
        ColorView::Hex(v)
    } else {
        ColorView::Named(v)
    }
}

/// The display settings with one setting replaced, if `val` is acceptable
/// for it.
pub open spec fn display_set_spec(d: DisplayView, k: DisplayKey, val: Seq<char>) -> Result<
    DisplayView,
    ConfigFailure,
> {
    match k {
        DisplayKey::Emoji => match bool_word(val) {
            Some(b) => Ok(DisplayView { emoji: b, ..d }),
            None => Err(ConfigFailure::InvalidBool(val)),
        },
        DisplayKey::Colors => match bool_word(val) {
            Some(b) => Ok(DisplayView { colors: b, ..d }),
            None => Err(ConfigFailure::InvalidBool(val)),
        },
        DisplayKey::TreeDepth => match parse_u32_spec(val) {
            Some(n) => Ok(DisplayView { tree_depth: n, ..d }),
            None => Err(ConfigFailure::TreeDepthNotNumber),
        },
        DisplayKey::HumanReadable => match bool_word(val) {
            Some(b) => Ok(DisplayView { human_readable: b, ..d }),
            None => Err(ConfigFailure::InvalidBool(val)),
        },
        DisplayKey::Verbose => match bool_word(val) {
            Some(b) => Ok(DisplayView { verbose: b, ..d }),
            None => Err(ConfigFailure::InvalidBool(val)),
        },
        DisplayKey::ProgressStyle => if val == "bar"@ || val == "spinner"@ || val == "none"@ {
            Ok(DisplayView { progress_style: val, ..d })
        } else {
            Err(ConfigFailure::InvalidProgressStyle)
        },
        DisplayKey::DateFormat => Ok(DisplayView { date_format: val, ..d }),
        DisplayKey::TreeStyle => if val == "unicode"@ || val == "ascii"@ {
            Ok(DisplayView { tree_style: val, ..d })
        } else {
            Err(ConfigFailure::InvalidTreeStyle)
        },
    }
}

/// What `set` does: the key must be exactly `section.name` (two parts
/// apart by one `.`), else it is refused; the first part names the section
/// and the second the setting. A color must be acceptable before its
/// name is looked at; a display setting's value must suit its type.
pub open spec fn set_spec(c: ConfigView, key: Seq<char>, val: Seq<char>) -> Result<
    ConfigView,
    ConfigFailure,
> {
    let parts = split_on(key, '.');
    if parts.len() != 2 {
        Err(ConfigFailure::KeyFormat)
    } else {
        match Section::named_spec(parts[0]) {
            None => Err(ConfigFailure::UnknownSection(parts[0])),
            Some(Section::Colors) => if !is_color_text(val) {
                Err(ConfigFailure::InvalidColor(val))
            } else {
                match ColorKey::named_spec(parts[1]) {
                    Some(k) => Ok(ConfigView { colors: c.colors.with(k, color_of_text(val)), ..c }),
                    None => Err(ConfigFailure::UnknownColorKey(parts[1])),
                }
            },
            Some(Section::Emojis) => match EmojiKey::named_spec(parts[1]) {
                Some(k) => Ok(ConfigView { emojis: c.emojis.with(k, val), ..c }),
                None => Err(ConfigFailure::UnknownEmojiKey(parts[1])),
            },
            Some(Section::Display) => match DisplayKey::named_spec(parts[1]) {
                Some(k) => match display_set_spec(c.display, k, val) {
                    Ok(d) => Ok(ConfigView { display: d, ..c }),
                    Err(e) => Err(e),
                },
                None => Err(ConfigFailure::UnknownDisplayKey(parts[1])),
            },
        }
    }
}

impl Config {
    /// Sets the value under a dotted key (see [`set_spec`]); on failure
    /// nothing changes.
    pub fn set_value(&mut self, key: &str, value: &str) -> (r: Result<(), ConfigError>)
        ensures
            match r {
                Ok(()) => set_spec(old(self)@, key@, value@) == Ok::<ConfigView, ConfigFailure>(
                    final(self)@,
                ),
                Err(e) => set_spec(old(self)@, key@, value@) == Err::<ConfigView, ConfigFailure>(
                    e@,
                ) && final(self)@ == old(self)@,
            },
    {
        let kc = chars_of(key);
        let parts = split_chars(&kc, '.');
        if parts.len() != 2 {
            return Err(ConfigError::KeyFormat);
        }
        let sec = crate::text::string_of(&parts[0]);
        let fld = crate::text::string_of(&parts[1]);
        match Section::named(sec.as_str()) {
            Some(Section::Colors) => self.set_color_value(fld.as_str(), value),
            Some(Section::Emojis) => self.set_emoji_value(fld.as_str(), value),
            Some(Section::Display) => self.set_display_value(fld.as_str(), value),
            None => Err(ConfigError::UnknownSection(sec)),
        }
    }

    fn set_color_value(&mut self, key: &str, val: &str) -> (r: Result<(), ConfigError>)
        ensures
            match r {
                Ok(()) => is_color_text(val@) && (match ColorKey::named_spec(key@) {
                    Some(k) => final(self)@ == ConfigView {
                        colors: old(self)@.colors.with(k, color_of_text(val@)),
                        ..old(self)@
                    },
                    None => false,
                }),
                Err(e) => final(self)@ == old(self)@ && if !is_color_text(val@) {
                    e@ == ConfigFailure::InvalidColor(val@)
                } else {
                    ColorKey::named_spec(key@) is None && e@ == ConfigFailure::UnknownColorKey(
                        key@,
                    )
                },
            },
    {
        let vc = chars_of(val);
        let color = if hex_color_chars(&vc) || is_named_color(val) {
            if vc.len() > 0 && vc[0] == '#' {
                ColorValue::Hex(owned(val))
            } else {
                ColorValue::Named(owned(val))
            }
        } else {
            return Err(ConfigError::InvalidColor(owned(val)));
        };
        match ColorKey::named(key) {
            Some(k) => {
                self.colors.set(k, color);
                Ok(())
            },
            None => Err(ConfigError::UnknownColorKey(owned(key))),
        }
    }

    fn set_emoji_value(&mut self, key: &str, val: &str) -> (r: Result<(), ConfigError>)
        ensures
            match r {
                Ok(()) => match EmojiKey::named_spec(key@) {
                    Some(k) => final(self)@ == ConfigView {
                        emojis: old(self)@.emojis.with(k, val@),
                        ..old(self)@
                    },
                    None => false,
                },
                Err(e) => final(self)@ == old(self)@ && EmojiKey::named_spec(key@) is None && e@
                    == ConfigFailure::UnknownEmojiKey(key@),
            },
    {
        match EmojiKey::named(key) {
            Some(k) => {
                self.emojis.set(k, owned(val));
                Ok(())
            },
            None => Err(ConfigError::UnknownEmojiKey(owned(key))),
        }
    }

    fn set_display_value(&mut self, key: &str, val: &str) -> (r: Result<(), ConfigError>)
        ensures
            match DisplayKey::named_spec(key@) {
                None => final(self)@ == old(self)@ && match r {
                    Ok(()) => false,
                    Err(e) => e@ == ConfigFailure::UnknownDisplayKey(key@),
                },
                Some(k) => match r {
                    Ok(()) => display_set_spec(old(self)@.display, k, val@) == Ok::<
                        DisplayView,
                        ConfigFailure,
                    >(final(self)@.display) && final(self)@.colors == old(self)@.colors
                        && final(self)@.emojis == old(self)@.emojis,
                    Err(e) => display_set_spec(old(self)@.display, k, val@) == Err::<
                        DisplayView,
                        ConfigFailure,
                    >(e@) && final(self)@ == old(self)@,
                },
            },
    {
        match DisplayKey::named(key) {
            Some(DisplayKey::Emoji) => {
                self.display.emoji = parse_bool(val)?;
            },
            Some(DisplayKey::Colors) => {
                self.display.colors = parse_bool(val)?;
            },
            Some(DisplayKey::TreeDepth) => {
                match parse_u32(val) {
                    Some(n) => self.display.tree_depth = n,
                    None => return Err(ConfigError::TreeDepthNotNumber),
                }
            },
            Some(DisplayKey::HumanReadable) => {
                self.display.human_readable = parse_bool(val)?;
            },
            Some(DisplayKey::Verbose) => {
                self.display.verbose = parse_bool(val)?;
            },
            Some(DisplayKey::ProgressStyle) => {
                if !(same_text(val, "bar") || same_text(val, "spinner") || same_text(val, "none")) {
                    return Err(ConfigError::InvalidProgressStyle);
                }
                self.display.progress_style = owned(val);
            },
            Some(DisplayKey::DateFormat) => {
                self.display.date_format = owned(val);
            },
            Some(DisplayKey::TreeStyle) => {
                if !(same_text(val, "unicode") || same_text(val, "ascii")) {
                    return Err(ConfigError::InvalidTreeStyle);
                }
                self.display.tree_style = owned(val);
            },
            None => {
                return Err(ConfigError::UnknownDisplayKey(owned(key)));
            },
        }
        Ok(())
    }
}


// ---------------------------------------------------------------------
// Laws
// ---------------------------------------------------------------------

/// The setting a two-part key names.
pub open spec fn key_field(key: Seq<char>) -> Option<ConfigField> {
    let parts = split_on(key, '.');
    match Section::named_spec(parts[0]) {
        Some(s) => ConfigField::named_spec(s, parts[1]),
        None => None,
    }
}

/// How `get` shows a value once `set` has stored it: booleans as
/// `true`/`false`, `tree_depth` in decimal, anything else unchanged.
pub open spec fn shown_after_set(f: ConfigField, val: Seq<char>) -> Seq<char> {
    match f {
        ConfigField::Display(DisplayKey::Emoji) => bool_text(bool_word(val).unwrap()),
        ConfigField::Display(DisplayKey::Colors) => bool_text(bool_word(val).unwrap()),
        ConfigField::Display(DisplayKey::HumanReadable) => bool_text(bool_word(val).unwrap()),
        ConfigField::Display(DisplayKey::Verbose) => bool_text(bool_word(val).unwrap()),
        ConfigField::Display(DisplayKey::TreeDepth) => decimal(
            parse_u32_spec(val).unwrap() as nat,
        ),
        _ => val,
    }
}

proof fn lemma_colors_with(v: ColorsView, k: ColorKey, x: ColorView, j: ColorKey)
    ensures
        v.with(k, x).get(j) == (if j == k { x } else { v.get(j) }),
{
}

proof fn lemma_emojis_with(v: EmojisView, k: EmojiKey, x: Seq<char>, j: EmojiKey)
    ensures
        v.with(k, x).get(j) == (if j == k { x } else { v.get(j) }),
{
}

/// Setting a value and then getting it: once `set` has accepted a value
/// under a key of the form `section.name`, `get` on that key shows the
/// value (booleans normalized to `true`/`false`, `tree_depth` in decimal).
pub proof fn law_get_after_set(c: ConfigView, key: Seq<char>, val: Seq<char>)
    requires
        split_on(key, '.').len() == 2,
        set_spec(c, key, val) is Ok,
    ensures
        key_field(key) is Some,
        get_spec(set_spec(c, key, val)->Ok_0, key) == Some(
            shown_after_set(key_field(key).unwrap(), val),
        ),
{
    let parts = split_on(key, '.');
    let n = set_spec(c, key, val)->Ok_0;
    match Section::named_spec(parts[0]) {
        Some(Section::Colors) => {
            let k = ColorKey::named_spec(parts[1]).unwrap();
            lemma_colors_with(c.colors, k, color_of_text(val), k);
        },
        Some(Section::Emojis) => {
            let k = EmojiKey::named_spec(parts[1]).unwrap();
            lemma_emojis_with(c.emojis, k, val, k);
        },
        _ => {},
    }
}

/// A setting's section and name carry no `.`, and read back as the
/// setting.
proof fn lemma_field_names(f: ConfigField)
    ensures
        !f.section().name_spec().contains('.'),
        !f.name_spec().contains('.'),
        Section::named_spec(f.section().name_spec()) == Some(f.section()),
        ConfigField::named_spec(f.section(), f.name_spec()) == Some(f),
{
    reveal_strlit("archive");
    reveal_strlit("audio");
    reveal_strlit("code");
    reveal_strlit("colors");
    reveal_strlit("date");
    reveal_strlit("date_format");
    reveal_strlit("dir");
    reveal_strlit("display");
    reveal_strlit("doc");
    reveal_strlit("emoji");
    reveal_strlit("emojis");
    reveal_strlit("error");
    reveal_strlit("exec");
    reveal_strlit("file");
    reveal_strlit("header");
    reveal_strlit("human_readable");
    reveal_strlit("image");
    reveal_strlit("link");
    reveal_strlit("ok");
    reveal_strlit("perm");
    reveal_strlit("progress_style");
    reveal_strlit("size");
    reveal_strlit("tree");
    reveal_strlit("tree_depth");
    reveal_strlit("tree_style");
    reveal_strlit("verbose");
    reveal_strlit("video");
    reveal_strlit("warn");
    match f {
        ConfigField::Color(k) => match k {
            ColorKey::Dir => {
            },
            ColorKey::File => {
                assert("file"@.len() != "dir"@.len());
            },
            ColorKey::Link => {
                assert("link"@.len() != "dir"@.len());
                assert("link"@[0] != "file"@[0]);
            },
            ColorKey::Exec => {
                assert("exec"@.len() != "dir"@.len());
                assert("exec"@[0] != "file"@[0]);
                assert("exec"@[0] != "link"@[0]);
            },
            ColorKey::Header => {
                assert("header"@.len() != "dir"@.len());
                assert("header"@.len() != "file"@.len());
                assert("header"@.len() != "link"@.len());
                assert("header"@.len() != "exec"@.len());
            },
            ColorKey::Size => {
                assert("size"@.len() != "dir"@.len());
                assert("size"@[0] != "file"@[0]);
                assert("size"@[0] != "link"@[0]);
                assert("size"@[0] != "exec"@[0]);
                assert("size"@.len() != "header"@.len());
            },
            ColorKey::Date => {
                assert("date"@.len() != "dir"@.len());
                assert("date"@[0] != "file"@[0]);
                assert("date"@[0] != "link"@[0]);
                assert("date"@[0] != "exec"@[0]);
                assert("date"@.len() != "header"@.len());
                assert("date"@[0] != "size"@[0]);
            },
            ColorKey::Perm => {
                assert("perm"@.len() != "dir"@.len());
                assert("perm"@[0] != "file"@[0]);
                assert("perm"@[0] != "link"@[0]);
                assert("perm"@[0] != "exec"@[0]);
                assert("perm"@.len() != "header"@.len());
                assert("perm"@[0] != "size"@[0]);
                assert("perm"@[0] != "date"@[0]);
            },
            ColorKey::Tree => {
                assert("tree"@.len() != "dir"@.len());
                assert("tree"@[0] != "file"@[0]);
                assert("tree"@[0] != "link"@[0]);
                assert("tree"@[0] != "exec"@[0]);
                assert("tree"@.len() != "header"@.len());
                assert("tree"@[0] != "size"@[0]);
                assert("tree"@[0] != "date"@[0]);
                assert("tree"@[0] != "perm"@[0]);
            },
            ColorKey::Warn => {
                assert("warn"@.len() != "dir"@.len());
                assert("warn"@[0] != "file"@[0]);
                assert("warn"@[0] != "link"@[0]);
                assert("warn"@[0] != "exec"@[0]);
                assert("warn"@.len() != "header"@.len());
                assert("warn"@[0] != "size"@[0]);
                assert("warn"@[0] != "date"@[0]);
                assert("warn"@[0] != "perm"@[0]);
                assert("warn"@[0] != "tree"@[0]);
            },
            ColorKey::Error => {
                assert("error"@.len() != "dir"@.len());
                assert("error"@.len() != "file"@.len());
                assert("error"@.len() != "link"@.len());
                assert("error"@.len() != "exec"@.len());
                assert("error"@.len() != "header"@.len());
                assert("error"@.len() != "size"@.len());
                assert("error"@.len() != "date"@.len());
                assert("error"@.len() != "perm"@.len());
                assert("error"@.len() != "tree"@.len());
                assert("error"@.len() != "warn"@.len());
            },
            ColorKey::Success => {
                assert("ok"@.len() != "dir"@.len());
                assert("ok"@.len() != "file"@.len());
                assert("ok"@.len() != "link"@.len());
                assert("ok"@.len() != "exec"@.len());
                assert("ok"@.len() != "header"@.len());
                assert("ok"@.len() != "size"@.len());
                assert("ok"@.len() != "date"@.len());
                assert("ok"@.len() != "perm"@.len());
                assert("ok"@.len() != "tree"@.len());
                assert("ok"@.len() != "warn"@.len());
                assert("ok"@.len() != "error"@.len());
            },
        },
        ConfigField::Emoji(k) => match k {
            EmojiKey::Dir => {
                assert("emojis"@[0] != "colors"@[0]);
            },
            EmojiKey::File => {
                assert("file"@.len() != "dir"@.len());
                assert("emojis"@[0] != "colors"@[0]);
            },
            EmojiKey::Link => {
                assert("link"@.len() != "dir"@.len());
                assert("link"@[0] != "file"@[0]);
                assert("emojis"@[0] != "colors"@[0]);
            },
            EmojiKey::Archive => {
                assert("archive"@.len() != "dir"@.len());
                assert("archive"@.len() != "file"@.len());
                assert("archive"@.len() != "link"@.len());
                assert("emojis"@[0] != "colors"@[0]);
            },
            EmojiKey::Image => {
                assert("image"@.len() != "dir"@.len());
                assert("image"@.len() != "file"@.len());
                assert("image"@.len() != "link"@.len());
                assert("image"@.len() != "archive"@.len());
                assert("emojis"@[0] != "colors"@[0]);
            },
            EmojiKey::Video => {
                assert("video"@.len() != "dir"@.len());
                assert("video"@.len() != "file"@.len());
                assert("video"@.len() != "link"@.len());
                assert("video"@.len() != "archive"@.len());
                assert("video"@[0] != "image"@[0]);
                assert("emojis"@[0] != "colors"@[0]);
            },
            EmojiKey::Audio => {
                assert("audio"@.len() != "dir"@.len());
                assert("audio"@.len() != "file"@.len());
                assert("audio"@.len() != "link"@.len());
                assert("audio"@.len() != "archive"@.len());
                assert("audio"@[0] != "image"@[0]);
                assert("audio"@[0] != "video"@[0]);
                assert("emojis"@[0] != "colors"@[0]);
            },
            EmojiKey::Doc => {
                assert("doc"@[1] != "dir"@[1]);
                assert("doc"@.len() != "file"@.len());
                assert("doc"@.len() != "link"@.len());
                assert("doc"@.len() != "archive"@.len());
                assert("doc"@.len() != "image"@.len());
                assert("doc"@.len() != "video"@.len());
                assert("doc"@.len() != "audio"@.len());
                assert("emojis"@[0] != "colors"@[0]);
            },
            EmojiKey::Code => {
                assert("code"@.len() != "dir"@.len());
                assert("code"@[0] != "file"@[0]);
                assert("code"@[0] != "link"@[0]);
                assert("code"@.len() != "archive"@.len());
                assert("code"@.len() != "image"@.len());
                assert("code"@.len() != "video"@.len());
                assert("code"@.len() != "audio"@.len());
                assert("code"@.len() != "doc"@.len());
                assert("emojis"@[0] != "colors"@[0]);
            },
            EmojiKey::Success => {
                assert("ok"@.len() != "dir"@.len());
                assert("ok"@.len() != "file"@.len());
                assert("ok"@.len() != "link"@.len());
                assert("ok"@.len() != "archive"@.len());
                assert("ok"@.len() != "image"@.len());
                assert("ok"@.len() != "video"@.len());
                assert("ok"@.len() != "audio"@.len());
                assert("ok"@.len() != "doc"@.len());
                assert("ok"@.len() != "code"@.len());
                assert("emojis"@[0] != "colors"@[0]);
            },
            EmojiKey::Warn => {
                assert("warn"@.len() != "dir"@.len());
                assert("warn"@[0] != "file"@[0]);
                assert("warn"@[0] != "link"@[0]);
                assert("warn"@.len() != "archive"@.len());
                assert("warn"@.len() != "image"@.len());
                assert("warn"@.len() != "video"@.len());
                assert("warn"@.len() != "audio"@.len());
                assert("warn"@.len() != "doc"@.len());
                assert("warn"@[0] != "code"@[0]);
                assert("warn"@.len() != "ok"@.len());
                assert("emojis"@[0] != "colors"@[0]);
            },
            EmojiKey::Error => {
                assert("error"@.len() != "dir"@.len());
                assert("error"@.len() != "file"@.len());
                assert("error"@.len() != "link"@.len());
                assert("error"@.len() != "archive"@.len());
                assert("error"@[0] != "image"@[0]);
                assert("error"@[0] != "video"@[0]);
                assert("error"@[0] != "audio"@[0]);
                assert("error"@.len() != "doc"@.len());
                assert("error"@.len() != "code"@.len());
                assert("error"@.len() != "ok"@.len());
                assert("error"@.len() != "warn"@.len());
                assert("emojis"@[0] != "colors"@[0]);
            },
        },
        ConfigField::Display(k) => match k {
            DisplayKey::Emoji => {
                assert("display"@.len() != "colors"@.len());
                assert("display"@.len() != "emojis"@.len());
            },
            DisplayKey::Colors => {
                assert("colors"@.len() != "emoji"@.len());
                assert("display"@.len() != "colors"@.len());
                assert("display"@.len() != "emojis"@.len());
            },
            DisplayKey::TreeDepth => {
                assert("tree_depth"@.len() != "emoji"@.len());
                assert("tree_depth"@.len() != "colors"@.len());
                assert("display"@.len() != "colors"@.len());
                assert("display"@.len() != "emojis"@.len());
            },
            DisplayKey::HumanReadable => {
                assert("human_readable"@.len() != "emoji"@.len());
                assert("human_readable"@.len() != "colors"@.len());
                assert("human_readable"@.len() != "tree_depth"@.len());
                assert("display"@.len() != "colors"@.len());
                assert("display"@.len() != "emojis"@.len());
            },
            DisplayKey::Verbose => {
                assert("verbose"@.len() != "emoji"@.len());
                assert("verbose"@.len() != "colors"@.len());
                assert("verbose"@.len() != "tree_depth"@.len());
                assert("verbose"@.len() != "human_readable"@.len());
                assert("display"@.len() != "colors"@.len());
                assert("display"@.len() != "emojis"@.len());
            },
            DisplayKey::ProgressStyle => {
                assert("progress_style"@.len() != "emoji"@.len());
                assert("progress_style"@.len() != "colors"@.len());
                assert("progress_style"@.len() != "tree_depth"@.len());
                assert("progress_style"@[0] != "human_readable"@[0]);
                assert("progress_style"@.len() != "verbose"@.len());
                assert("display"@.len() != "colors"@.len());
                assert("display"@.len() != "emojis"@.len());
            },
            DisplayKey::DateFormat => {
                assert("date_format"@.len() != "emoji"@.len());
                assert("date_format"@.len() != "colors"@.len());
                assert("date_format"@.len() != "tree_depth"@.len());
                assert("date_format"@.len() != "human_readable"@.len());
                assert("date_format"@.len() != "verbose"@.len());
                assert("date_format"@.len() != "progress_style"@.len());
                assert("display"@.len() != "colors"@.len());
                assert("display"@.len() != "emojis"@.len());
            },
            DisplayKey::TreeStyle => {
                assert("tree_style"@.len() != "emoji"@.len());
                assert("tree_style"@.len() != "colors"@.len());
                assert("tree_style"@[5] != "tree_depth"@[5]);
                assert("tree_style"@.len() != "human_readable"@.len());
                assert("tree_style"@.len() != "verbose"@.len());
                assert("tree_style"@.len() != "progress_style"@.len());
                assert("tree_style"@.len() != "date_format"@.len());
                assert("display"@.len() != "colors"@.len());
                assert("display"@.len() != "emojis"@.len());
            },
        },
    }
}

/// Listing and getting agree: each key that `list` shows reads back, with
/// `get`, the value `list` shows beside it.
pub proof fn law_listed_keys_read_back(c: ConfigView, i: int)
    requires
        0 <= i < all_fields().len(),
    ensures
        get_spec(c, full_key(all_fields()[i])) == Some(field_text(c, all_fields()[i])),
{
    let f = all_fields()[i];
    lemma_field_names(f);
    crate::text::lemma_split_single(f.section().name_spec(), '.');
    crate::text::lemma_split_append(f.section().name_spec(), f.name_spec(), '.');
}

/// Setting one value leaves every other setting as it was.
pub proof fn law_set_changes_one_setting(
    c: ConfigView,
    key: Seq<char>,
    val: Seq<char>,
    other: ConfigField,
)
    requires
        set_spec(c, key, val) is Ok,
        key_field(key) != Some(other),
    ensures
        field_text(set_spec(c, key, val)->Ok_0, other) == field_text(c, other),
{
    let parts = split_on(key, '.');
    match Section::named_spec(parts[0]) {
        Some(Section::Colors) => {
            let k = ColorKey::named_spec(parts[1]).unwrap();
            if let ConfigField::Color(j) = other {
                lemma_colors_with(c.colors, k, color_of_text(val), j);
            }
        },
        Some(Section::Emojis) => {
            let k = EmojiKey::named_spec(parts[1]).unwrap();
            if let ConfigField::Emoji(j) = other {
                lemma_emojis_with(c.emojis, k, val, j);
            }
        },
        _ => {},
    }
}


// ---------------------------------------------------------------------
// Where configuration files are looked for
// ---------------------------------------------------------------------

/// The four file names looked for in each place: `NAME.toml`,
/// `.NAME.toml`, `NAME.json` and `.NAME.json`.
pub open spec fn config_file_names(exe: Seq<char>) -> Seq<Seq<char>> {
    seq![
        exe + ".toml"@,
        seq!['.'] + exe + ".toml"@,
        exe + ".json"@,
        seq!['.'] + exe + ".json"@,
    ]
}

/// The four file names joined to a directory.
pub open spec fn names_in(dir: Seq<char>, exe: Seq<char>) -> Seq<Seq<char>> {
    config_file_names(exe).map_values(|n: Seq<char>| join_path(dir, n))
}

/// The kinds of system whose configuration places differ.
#[derive(Debug, Clone, Copy, PartialEq, Eq, Structural)]
pub enum Platform {
    Linux,
    MacOs,
    Windows,
    /// Any other system: only the working and executable directories.
    Other,
}

/// The text of an optional string.
pub open spec fn opt_text(o: Option<&str>) -> Option<Seq<char>> {
    match o {
        Some(x) => Some(x@),
        None => None,
    }
}

/// The places a system looks in before the working and executable
/// directories (paths joined with `/`):
/// - Linux: under `$XDG_CONFIG_HOME/NAME`, under `~/.config/NAME`, in `~`,
///   then `/etc/NAME/NAME.toml` and `/etc/NAME.toml`;
/// - macOS: under `~/Library/Application Support/NAME`, under
///   `~/.config/NAME`, in `~`, then
///   `/Library/Application Support/NAME/NAME.toml`;
/// - Windows: under the user's configuration directory (`%APPDATA%`)
///   joined with `NAME`, then in `~`;
/// each place only when known.
pub open spec fn system_candidates(
    platform: Platform,
    exe: Seq<char>,
    xdg: Option<Seq<char>>,
    home: Option<Seq<char>>,
    config_dir: Option<Seq<char>>,
) -> Seq<Seq<char>> {
    match platform {
        Platform::Linux => (match xdg {
            Some(x) => names_in(join_path(x, exe), exe),
            None => Seq::empty(),
        }) + (match home {
            Some(h) => names_in(join_path(join_path(h, ".config"@), exe), exe) + names_in(h, exe),
            None => Seq::empty(),
        }) + seq!["/etc/"@ + exe + seq!['/'] + exe + ".toml"@, "/etc/"@ + exe + ".toml"@],
        Platform::MacOs => (match home {
            Some(h) => names_in(
                join_path(join_path(join_path(h, "Library"@), "Application Support"@), exe),
                exe,
            ) + names_in(join_path(join_path(h, ".config"@), exe), exe) + names_in(h, exe),
            None => Seq::empty(),
        }) + seq!["/Library/Application Support/"@ + exe + seq!['/'] + exe + ".toml"@],
        Platform::Windows => (match config_dir {
            Some(a) => names_in(join_path(a, exe), exe),
            None => Seq::empty(),
        }) + (match home {
            Some(h) => names_in(h, exe),
            None => Seq::empty(),
        }),
        Platform::Other => Seq::empty(),
    }
}

/// The candidate configuration files, in the order they are tried: the
/// system's places (see [`system_candidates`]), then the working directory
/// and the executable's directory (each only when known).
pub open spec fn candidates_spec(
    platform: Platform,
    exe: Seq<char>,
    xdg: Option<Seq<char>>,
    home: Option<Seq<char>>,
    config_dir: Option<Seq<char>>,
    cwd: Option<Seq<char>>,
    exe_dir: Option<Seq<char>>,
) -> Seq<Seq<char>> {
    system_candidates(platform, exe, xdg, home, config_dir) + (match cwd {
        Some(c) => names_in(c, exe),
        None => Seq::empty(),
    }) + (match exe_dir {
        Some(d) => names_in(d, exe),
        None => Seq::empty(),
    })
}

fn concat3(a: &str, b: &str, c: &str) -> (r: String)
    ensures
        r@ == a@ + b@ + c@,
{
    let mut r = owned(a);
    push_str(&mut r, b);
    push_str(&mut r, c);
    r
}

fn file_names(exe: &str) -> (r: Vec<String>)
    ensures
        crate::text::str_views(r@) == config_file_names(exe@),
{
    let mut r: Vec<String> = Vec::new();
    r.push(concat3("", exe, ".toml"));
    r.push(concat3(".", exe, ".toml"));
    r.push(concat3("", exe, ".json"));
    r.push(concat3(".", exe, ".json"));
    assert(""@ =~= Seq::<char>::empty()) by {
        reveal_strlit("");
    }
    assert("."@ =~= seq!['.']) by {
        reveal_strlit(".");
    }
    assert(crate::text::str_views(r@) =~= config_file_names(exe@));
    r
}

fn push_names_in(out: &mut Vec<String>, dir: &str, exe: &str)
    ensures
        crate::text::str_views(final(out)@) == crate::text::str_views(old(out)@) + names_in(
            dir@,
            exe@,
        ),
{
    let names = file_names(exe);
    let ghost start = crate::text::str_views(out@);
    let mut i: usize = 0;
    while i < names.len()
        invariant
            i <= names.len(),
            crate::text::str_views(names@) == config_file_names(exe@),
            crate::text::str_views(out@) == start + names_in(dir@, exe@).take(i as int),
        decreases names.len() - i,
    {
        let p = join(dir, names[i].as_str());
        assert(crate::text::str_views(names@)[i as int] == names@[i as int]@);
        assert(names@[i as int]@ == config_file_names(exe@)[i as int]);
        let ghost before = crate::text::str_views(out@);
        assert(names_in(dir@, exe@)[i as int] == join_path(dir@, config_file_names(exe@)[i as int]));
        out.push(p);
        assert(crate::text::str_views(out@) =~= before.push(p@));
        assert(names_in(dir@, exe@).take(i as int + 1) =~= names_in(dir@, exe@).take(i as int).push(p@));
        i = i + 1;
    }
    assert(names_in(dir@, exe@).take(4) =~= names_in(dir@, exe@));
}

/// Appends the names in `dir` when it is known.
fn push_names_opt(out: &mut Vec<String>, dir: Option<&str>, exe: &str)
    ensures
        crate::text::str_views(final(out)@) == crate::text::str_views(old(out)@) + match dir {
            Some(d) => names_in(d@, exe@),
            None => Seq::empty(),
        },
{
    match dir {
        Some(d) => push_names_in(out, d, exe),
        None => {
            assert(crate::text::str_views(out@) =~= crate::text::str_views(out@) + Seq::<
                Seq<char>,
            >::empty());
        },
    }
}

/// Appends a path.
fn push_path(out: &mut Vec<String>, p: String)
    ensures
        crate::text::str_views(final(out)@) == crate::text::str_views(old(out)@).push(p@),
{
    let ghost before = crate::text::str_views(out@);
    out.push(p);
    assert(crate::text::str_views(out@) =~= before.push(p@));
}

/// Appends the system's places (see [`system_candidates`]).
fn push_system_places(
    out: &mut Vec<String>,
    platform: Platform,
    exe: &str,
    xdg: Option<&str>,
    home: Option<&str>,
    config_dir: Option<&str>,
)
    ensures
        crate::text::str_views(final(out)@) == crate::text::str_views(old(out)@) + system_candidates(
            platform,
            exe@,
            opt_text(xdg),
            opt_text(home),
            opt_text(config_dir),
        ),
{
    let ghost start = crate::text::str_views(out@);
    assert("/"@ =~= seq!['/']) by {
        reveal_strlit("/");
    }
    match platform {
        Platform::Linux => {
            match xdg {
                Some(x) => {
                    let base = join(x, exe);
                    push_names_in(out, base.as_str(), exe);
                },
                None => {},
            }
            let ghost a = crate::text::str_views(out@);
            match home {
                Some(h) => {
                    let cfg = join(h, ".config");
                    let base = join(cfg.as_str(), exe);
                    push_names_in(out, base.as_str(), exe);
                    push_names_in(out, h, exe);
                },
                None => {},
            }
            let ghost b = crate::text::str_views(out@);
            let mut first = concat3("/etc/", exe, "/");
            push_str(&mut first, exe);
            push_str(&mut first, ".toml");
            push_path(out, first);
            push_path(out, concat3("/etc/", exe, ".toml"));
            assert(crate::text::str_views(out@) =~= start + system_candidates(
                platform,
                exe@,
                opt_text(xdg),
                opt_text(home),
                opt_text(config_dir),
            ));
        },
        Platform::MacOs => {
            match home {
                Some(h) => {
                    let lib = join(h, "Library");
                    let sup = join(lib.as_str(), "Application Support");
                    let base = join(sup.as_str(), exe);
                    push_names_in(out, base.as_str(), exe);
                    let cfg = join(h, ".config");
                    let base2 = join(cfg.as_str(), exe);
                    push_names_in(out, base2.as_str(), exe);
                    push_names_in(out, h, exe);
                },
                None => {},
            }
            let mut last = concat3("/Library/Application Support/", exe, "/");
            push_str(&mut last, exe);
            push_str(&mut last, ".toml");
            push_path(out, last);
            assert(crate::text::str_views(out@) =~= start + system_candidates(
                platform,
                exe@,
                opt_text(xdg),
                opt_text(home),
                opt_text(config_dir),
            ));
        },
        Platform::Windows => {
            match config_dir {
                Some(a) => {
                    let base = join(a, exe);
                    push_names_in(out, base.as_str(), exe);
                },
                None => {},
            }
            push_names_opt(out, home, exe);
            assert(crate::text::str_views(out@) =~= start + system_candidates(
                platform,
                exe@,
                opt_text(xdg),
                opt_text(home),
                opt_text(config_dir),
            ));
        },
        Platform::Other => {
            assert(crate::text::str_views(out@) =~= start + system_candidates(
                platform,
                exe@,
                opt_text(xdg),
                opt_text(home),
                opt_text(config_dir),
            ));
        },
    }
}

/// The candidate configuration files for a program named `exe` on a
/// system (see [`candidates_spec`]). The places are passed in: the value
/// of `$XDG_CONFIG_HOME`, the home directory, the user's configuration
/// directory, the working directory and the executable's directory, each
/// when known.
pub fn config_candidates(
    exe: &str,
    platform: Platform,
    xdg: Option<&str>,
    home: Option<&str>,
    config_dir: Option<&str>,
    cwd: Option<&str>,
    exe_dir: Option<&str>,
) -> (r: Vec<String>)
    ensures
        crate::text::str_views(r@) == candidates_spec(
            platform,
            exe@,
            opt_text(xdg),
            opt_text(home),
            opt_text(config_dir),
            opt_text(cwd),
            opt_text(exe_dir),
        ),
{
    let mut out: Vec<String> = Vec::new();
    assert(crate::text::str_views(out@) =~= Seq::<Seq<char>>::empty());
    push_system_places(&mut out, platform, exe, xdg, home, config_dir);
    push_names_opt(&mut out, cwd, exe);
    push_names_opt(&mut out, exe_dir, exe);
    out
}

/// Where the configuration is saved when no file was loaded: on Windows
/// `CONFIG/NAME/NAME.toml` under the user's configuration directory; on
/// Linux and macOS `~/.config/NAME/NAME.toml`; `NAME.toml` when that
/// directory is unknown or on any other system.
pub open spec fn default_config_path_spec(
    exe: Seq<char>,
    platform: Platform,
    home: Option<Seq<char>>,
    config_dir: Option<Seq<char>>,
) -> Seq<char> {
    let base = match platform {
        Platform::Windows => match config_dir {
            Some(a) => Some(join_path(a, exe)),
            None => None,
        },
        Platform::Linux | Platform::MacOs => match home {
            Some(h) => Some(join_path(join_path(h, ".config"@), exe)),
            None => None,
        },
        Platform::Other => None,
    };
    match base {
        Some(b) => join_path(b, exe + ".toml"@),
        None => exe + ".toml"@,
    }
}

/// Where the configuration is saved when no file was loaded (see
/// [`default_config_path_spec`]).
pub fn default_config_path(
    exe: &str,
    platform: Platform,
    home: Option<&str>,
    config_dir: Option<&str>,
) -> (r: String)
    ensures
        r@ == default_config_path_spec(exe@, platform, opt_text(home), opt_text(config_dir)),
{
    let name = concat3("", exe, ".toml");
    assert(""@ =~= Seq::<char>::empty()) by {
        reveal_strlit("");
    }
    let base = match platform {
        Platform::Windows => match config_dir {
            Some(a) => Some(join(a, exe)),
            None => None,
        },
        Platform::Linux | Platform::MacOs => match home {
            Some(h) => {
                let a = join(h, ".config");
                Some(join(a.as_str(), exe))
            },
            None => None,
        },
        Platform::Other => None,
    };
    match base {
        Some(b) => join(b.as_str(), name.as_str()),
        None => name,
    }
}

/// Whether a configuration file is JSON (its extension is `json`); any
/// other file is TOML.
pub fn is_json_path(path: &str) -> (r: bool)
    ensures
        r == (extension(path@) == Some("json"@)),
{
    match crate::path::path_extension(path) {
        Some(e) => {
            let s = crate::text::string_of(&e);
            same_text(s.as_str(), "json")
        },
        None => false,
    }
}

/// The configuration in use: the first candidate that was found and read,
/// with its path; the defaults and no path when there is none.
/// `loaded[i]` holds what reading `candidates[i]` gave, if it exists and
/// was read.
pub fn load_config(candidates: &Vec<String>, loaded: &Vec<Option<Config>>) -> (r: (
    Config,
    Option<String>,
))
    requires
        candidates.len() == loaded.len(),
    ensures
        match r.1 {
            Some(p) => exists|i: int|
                0 <= i < loaded.len() && #[trigger] loaded@[i] is Some && (forall|j: int|
                    0 <= j < i ==> loaded@[j] is None) && p@ == candidates@[i]@ && r.0@
                    == loaded@[i]->Some_0@,
            None => (forall|j: int| 0 <= j < loaded.len() ==> loaded@[j] is None) && r.0@
                == default_config_view(),
        },
{
    let mut i: usize = 0;
    while i < loaded.len()
        invariant
            i <= loaded.len(),
            candidates.len() == loaded.len(),
            forall|j: int| 0 <= j < i ==> loaded@[j] is None,
        decreases loaded.len() - i,
    {
        match &loaded[i] {
            Some(c) => {
                let path = candidates[i].clone();
                return (c.duplicate(), Some(path));
            },
            None => {},
        }
        i = i + 1;
    }
    (Config::default_config(), None)
}

} // verus!
