//! Output styling: which color and weight each kind of text gets under a
//! configuration, and which emoji an entry is shown with.

use vstd::prelude::*;
use colored::Colorize;
use crate::config::{
    ColorKey, ColorView, ColorsConfig, ColorsView, Config, ConfigFailure, ConfigView,
    is_color_text, is_named_color_spec, rgb_of, rgb_would_split_char, set_spec, Section,
};
use crate::text::{
    chars_of, same_text, split_chars, split_on, string_of, to_lowercase, unicode_lowercase,
};

verus! {

/// A foreground color.
#[derive(Debug, Clone, Copy, PartialEq, Eq, Structural)]
pub enum Hue {
    /// No color at all.
    Plain,
    /// A 24-bit color.
    Rgb(u8, u8, u8),
    Black,
    Red,
    Green,
    Yellow,
    Blue,
    Magenta,
    Cyan,
    White,
    BrightBlack,
    BrightRed,
    BrightGreen,
    BrightYellow,
    BrightBlue,
    BrightMagenta,
    BrightCyan,
    BrightWhite,
}

/// How a piece of text is drawn.
#[derive(Debug, Clone, Copy, PartialEq, Eq, Structural)]
pub struct Style {
    pub hue: Hue,
    pub bold: bool,
}

impl Style {
    /// Whether the text is drawn as it is.
    pub open spec fn is_plain(self) -> bool {
        self.hue == Hue::Plain && !self.bold
    }
}

/// The hue a color name denotes (one of the sixteen terminal colors).
pub open spec fn named_hue(s: Seq<char>) -> Hue {
    if s == "black"@ {
        Hue::Black
    } else if s == "red"@ {
        Hue::Red
    } else if s == "green"@ {
        Hue::Green
    } else if s == "yellow"@ {
        Hue::Yellow
    } else if s == "blue"@ {
        Hue::Blue
    } else if s == "magenta"@ {
        Hue::Magenta
    } else if s == "cyan"@ {
        Hue::Cyan
    } else if s == "white"@ {
        Hue::White
    } else if s == "bright_black"@ {
        Hue::BrightBlack
    } else if s == "bright_red"@ {
        Hue::BrightRed
    } else if s == "bright_green"@ {
        Hue::BrightGreen
    } else if s == "bright_yellow"@ {
        Hue::BrightYellow
    } else if s == "bright_blue"@ {
        Hue::BrightBlue
    } else if s == "bright_magenta"@ {
        Hue::BrightMagenta
    } else if s == "bright_cyan"@ {
        Hue::BrightCyan
    } else if s == "bright_white"@ {
        Hue::BrightWhite
    } else {
        Hue::Plain
    }
}

fn hue_named(s: &str) -> (h: Hue)
    ensures
        h == named_hue(s@),
{
    if same_text(s, "black") {
        Hue::Black
    } else if same_text(s, "red") {
        Hue::Red
    } else if same_text(s, "green") {
        Hue::Green
    } else if same_text(s, "yellow") {
        Hue::Yellow
    } else if same_text(s, "blue") {
        Hue::Blue
    } else if same_text(s, "magenta") {
        Hue::Magenta
    } else if same_text(s, "cyan") {
        Hue::Cyan
    } else if same_text(s, "white") {
        Hue::White
    } else if same_text(s, "bright_black") {
        Hue::BrightBlack
    } else if same_text(s, "bright_red") {
        Hue::BrightRed
    } else if same_text(s, "bright_green") {
        Hue::BrightGreen
    } else if same_text(s, "bright_yellow") {
        Hue::BrightYellow
    } else if same_text(s, "bright_blue") {
        Hue::BrightBlue
    } else if same_text(s, "bright_magenta") {
        Hue::BrightMagenta
    } else if same_text(s, "bright_cyan") {
        Hue::BrightCyan
    } else if same_text(s, "bright_white") {
        Hue::BrightWhite
    } else {
        Hue::Plain
    }
}

/// The hue a color setting gives: none when styling is off; the 24-bit
/// color of a `#RRGGBB` value; else the terminal color it names, or none.
pub open spec fn hue_of(enabled: bool, c: ColorView) -> Hue {
    if !enabled {
        Hue::Plain
    } else {
        match rgb_of(c.text()) {
            Some((r, g, b)) => Hue::Rgb(r, g, b),
            None => named_hue(c.text()),
        }
    }
}

/// Whether text of kind `k` can be drawn under a configuration: with colors
/// off always; with colors on when its color can be read as `#RRGGBB`
/// without slicing inside a character.
pub open spec fn drawable(c: ConfigView, k: ColorKey) -> bool {
    !c.display.colors || !rgb_would_split_char(c.colors.get(k).text())
}

/// Whether text of kind `k` can be drawn under `config` (see [`drawable`]).
pub fn can_draw(config: &Config, k: ColorKey) -> (r: bool)
    ensures
        r == drawable(config@, k),
{
    !config.display.colors || config.colors.get(k).rgb_readable()
}

/// A piece of text with the style it is drawn in.
pub struct Painted {
    pub text: String,
    pub style: Style,
}

/// Text with no color, through `colored` (`normal`, then `bold` when
/// asked). `colored` writes unstyled text as it is; styled text it writes
/// as it is or between escape codes, which depends on the environment
/// (`NO_COLOR`, `CLICOLOR`, whether output is a terminal), so only that it
/// is the text or longer is stated.
#[verifier::external_body]
fn paint_plain(text: &str, bold: bool) -> (r: String)
    ensures
        !bold ==> r@ == text@,
        r@ == text@ || r@.len() > text@.len(),
{
    let c = text.normal();
    if bold { c.bold().to_string() } else { c.to_string() }
}

/// Text in a 24-bit color, through `colored` (`truecolor`, then `bold`
/// when asked): the text as it is or between escape codes, depending on
/// the environment; only that it is the text or longer is stated.
#[verifier::external_body]
fn paint_rgb(text: &str, r: u8, g: u8, b: u8, bold: bool) -> (out: String)
    ensures
        out@ == text@ || out@.len() > text@.len(),
{
    let c = text.truecolor(r, g, b);
    if bold { c.bold().to_string() } else { c.to_string() }
}

/// Text in a terminal color given by its name in `colored` (`color`, then
/// `bold` when asked): the text as it is or between escape codes,
/// depending on the environment; only that it is the text or longer is
/// stated.
#[verifier::external_body]
fn paint_named(text: &str, color: &str, bold: bool) -> (r: String)
    ensures
        r@ == text@ || r@.len() > text@.len(),
{
    let c = text.color(color);
    if bold { c.bold().to_string() } else { c.to_string() }
}

/// The name `colored` reads a terminal color by (`Color::from_str`): the
/// color's name in lowercase, `bright ` before the bright ones; none for no
/// color or a 24-bit one.
pub open spec fn colored_name_spec(h: Hue) -> Seq<char> {
    match h {
        Hue::Black => "black"@,
        Hue::Red => "red"@,
        Hue::Green => "green"@,
        Hue::Yellow => "yellow"@,
        Hue::Blue => "blue"@,
        Hue::Magenta => "magenta"@,
        Hue::Cyan => "cyan"@,
        Hue::White => "white"@,
        Hue::BrightBlack => "bright black"@,
        Hue::BrightRed => "bright red"@,
        Hue::BrightGreen => "bright green"@,
        Hue::BrightYellow => "bright yellow"@,
        Hue::BrightBlue => "bright blue"@,
        Hue::BrightMagenta => "bright magenta"@,
        Hue::BrightCyan => "bright cyan"@,
        Hue::BrightWhite => "bright white"@,
        Hue::Plain => Seq::empty(),
        Hue::Rgb(_, _, _) => Seq::empty(),
    }
}

/// The name `colored` reads a terminal color by (see [`colored_name_spec`]).
fn colored_name(h: Hue) -> (r: &'static str)
    requires
        !(h is Plain),
        !(h is Rgb),
    ensures
        r@ == colored_name_spec(h),
{
    match h {
        Hue::Black => "black",
        Hue::Red => "red",
        Hue::Green => "green",
        Hue::Yellow => "yellow",
        Hue::Blue => "blue",
        Hue::Magenta => "magenta",
        Hue::Cyan => "cyan",
        Hue::White => "white",
        Hue::BrightBlack => "bright black",
        Hue::BrightRed => "bright red",
        Hue::BrightGreen => "bright green",
        Hue::BrightYellow => "bright yellow",
        Hue::BrightBlue => "bright blue",
        Hue::BrightMagenta => "bright magenta",
        Hue::BrightCyan => "bright cyan",
        _ => "bright white",
    }
}

impl Painted {
    /// The text as it is printed: styled through the terminal when the
    /// style asks for it, as it is when the style is plain.
    pub fn render(&self) -> (r: String)
        ensures
            self.style.is_plain() ==> r@ == self.text@,
            r@ == self.text@ || r@.len() > self.text@.len(),
    {
        match self.style.hue {
            Hue::Plain => paint_plain(self.text.as_str(), self.style.bold),
            Hue::Rgb(r, g, b) => paint_rgb(self.text.as_str(), r, g, b, self.style.bold),
            h => paint_named(self.text.as_str(), colored_name(h), self.style.bold),
        }
    }
}

/// A snapshot of the color settings, and whether styling is on.
pub struct Painter {
    colors: ColorsConfig,
    enabled: bool,
}

impl Painter {
    /// The colors the painter uses.
    pub closed spec fn colors_spec(&self) -> ColorsView {
        self.colors@
    }

    /// Whether the painter styles text at all.
    pub closed spec fn enabled_spec(&self) -> bool {
        self.enabled
    }

    /// A painter with the colors of `config`, styling when `enabled`.
    pub fn new(config: &Config, enabled: bool) -> (p: Painter)
        ensures
            p.colors_spec() == config.colors@,
            p.enabled_spec() == enabled,
    {
        Painter { colors: config.colors.duplicate(), enabled }
    }

    /// Whether the painter can draw text of kind `k`: always when it does
    /// not style; else when the color under `k` can be read as `#RRGGBB`
    /// without slicing inside a character.
    pub open spec fn paints(&self, k: ColorKey) -> bool {
        !self.enabled_spec() || !rgb_would_split_char(self.colors_spec().get(k).text())
    }

    /// Whether the painter can draw text of kind `k` (see [`Painter::paints`]).
    pub fn can_paint(&self, k: ColorKey) -> (r: bool)
        ensures
            r == self.paints(k),
    {
        !self.enabled || self.colors.get(k).rgb_readable()
    }

    /// The hue of a color setting under this painter.
    fn hue(&self, k: ColorKey) -> (h: Hue)
        requires
            self.paints(k),
        ensures
            h == hue_of(self.enabled_spec(), self.colors_spec().get(k)),
    {
        if !self.enabled {
            return Hue::Plain;
        }
        let c = self.colors.get(k);
        match c.parse_rgb() {
            Some((r, g, b)) => Hue::Rgb(r, g, b),
            None => hue_named(c.as_str()),
        }
    }

    fn apply(&self, s: &str, k: ColorKey, bold: bool) -> (r: Painted)
        requires
            self.paints(k),
        ensures
            r.text@ == s@,
            r.style == (Style {
                hue: hue_of(self.enabled_spec(), self.colors_spec().get(k)),
                bold,
            }),
    {
        Painted { text: crate::text::owned(s), style: Style { hue: self.hue(k), bold } }
    }

    /// The style of text of a kind: the color under `k`, in bold for
    /// headers and errors.
    pub open spec fn style_of(&self, k: ColorKey) -> Style {
        Style {
            hue: hue_of(self.enabled_spec(), self.colors_spec().get(k)),
            bold: k == ColorKey::Header || k == ColorKey::Error,
        }
    }

    /// A directory name.
    pub fn dir(&self, s: &str) -> (r: Painted)
        requires
            self.paints(ColorKey::Dir),
        ensures
            r.text@ == s@,
            r.style == self.style_of(ColorKey::Dir),
    {
        self.apply(s, ColorKey::Dir, false)
    }

    /// A file name.
    pub fn file(&self, s: &str) -> (r: Painted)
        requires
            self.paints(ColorKey::File),
        ensures
            r.text@ == s@,
            r.style == self.style_of(ColorKey::File),
    {
        self.apply(s, ColorKey::File, false)
    }

    /// A link name or target.
    pub fn link(&self, s: &str) -> (r: Painted)
        requires
            self.paints(ColorKey::Link),
        ensures
            r.text@ == s@,
            r.style == self.style_of(ColorKey::Link),
    {
        self.apply(s, ColorKey::Link, false)
    }

    /// A header, in bold.
    pub fn header(&self, s: &str) -> (r: Painted)
        requires
            self.paints(ColorKey::Header),
        ensures
            r.text@ == s@,
            r.style == self.style_of(ColorKey::Header),
    {
        self.apply(s, ColorKey::Header, true)
    }

    /// A size.
    pub fn size(&self, s: &str) -> (r: Painted)
        requires
            self.paints(ColorKey::Size),
        ensures
            r.text@ == s@,
            r.style == self.style_of(ColorKey::Size),
    {
        self.apply(s, ColorKey::Size, false)
    }

    /// A date.
    pub fn date(&self, s: &str) -> (r: Painted)
        requires
            self.paints(ColorKey::Date),
        ensures
            r.text@ == s@,
            r.style == self.style_of(ColorKey::Date),
    {
        self.apply(s, ColorKey::Date, false)
    }

    /// A permission string.
    pub fn perm(&self, s: &str) -> (r: Painted)
        requires
            self.paints(ColorKey::Perm),
        ensures
            r.text@ == s@,
            r.style == self.style_of(ColorKey::Perm),
    {
        self.apply(s, ColorKey::Perm, false)
    }

    /// Tree branch characters.
    pub fn tree(&self, s: &str) -> (r: Painted)
        requires
            self.paints(ColorKey::Tree),
        ensures
            r.text@ == s@,
            r.style == self.style_of(ColorKey::Tree),
    {
        self.apply(s, ColorKey::Tree, false)
    }

    /// A warning.
    pub fn warn(&self, s: &str) -> (r: Painted)
        requires
            self.paints(ColorKey::Warn),
        ensures
            r.text@ == s@,
            r.style == self.style_of(ColorKey::Warn),
    {
        self.apply(s, ColorKey::Warn, false)
    }

    /// An error, in bold.
    pub fn error(&self, s: &str) -> (r: Painted)
        requires
            self.paints(ColorKey::Error),
        ensures
            r.text@ == s@,
            r.style == self.style_of(ColorKey::Error),
    {
        self.apply(s, ColorKey::Error, true)
    }

    /// A success message.
    pub fn ok(&self, s: &str) -> (r: Painted)
        requires
            self.paints(ColorKey::Success),
        ensures
            r.text@ == s@,
            r.style == self.style_of(ColorKey::Success),
    {
        self.apply(s, ColorKey::Success, false)
    }
}

/// Styling off means plain text: a painter that does not style draws every
/// kind of text but headers and errors plainly.
pub proof fn law_disabled_painter_is_plain(p: Painter, k: ColorKey)
    requires
        !p.enabled_spec(),
        k != ColorKey::Header,
        k != ColorKey::Error,
    ensures
        p.style_of(k).is_plain(),
{
}

// ---------------------------------------------------------------------
// Emoji
// ---------------------------------------------------------------------

/// The kinds of file an emoji is chosen for.
#[derive(Debug, Clone, Copy, PartialEq, Eq, Structural)]
pub enum FileKind {
    Archive,
    Image,
    Video,
    Audio,
    Code,
    Doc,
    Other,
}

/// The kind of file an extension (already lowercase) denotes.
pub open spec fn kind_of_ext(e: Seq<char>) -> FileKind {
    if e == "tar"@ || e == "gz"@ || e == "bz2"@ || e == "xz"@ || e == "zst"@ || e == "tgz"@ || e
        == "tbz2"@ || e == "txz"@ || e == "zip"@ || e == "7z"@ || e == "rar"@ {
        FileKind::Archive
    } else if e == "jpg"@ || e == "jpeg"@ || e == "png"@ || e == "gif"@ || e == "bmp"@ || e
        == "svg"@ || e == "webp"@ || e == "ico"@ || e == "tiff"@ {
        FileKind::Image
    } else if e == "mp4"@ || e == "mkv"@ || e == "avi"@ || e == "mov"@ || e == "wmv"@ || e
        == "flv"@ || e == "webm"@ {
        FileKind::Video
    } else if e == "mp3"@ || e == "flac"@ || e == "wav"@ || e == "aac"@ || e == "ogg"@ || e
        == "m4a"@ {
        FileKind::Audio
    } else if e == "rs"@ || e == "py"@ || e == "js"@ || e == "ts"@ || e == "c"@ || e == "cpp"@
        || e == "h"@ || e == "java"@ || e == "go"@ || e == "rb"@ || e == "php"@ || e == "sh"@ || e
        == "bash"@ || e == "zsh"@ || e == "fish"@ || e == "ps1"@ || e == "lua"@ || e == "swift"@
        || e == "kt"@ || e == "cs"@ || e == "toml"@ || e == "yaml"@ || e == "yml"@ || e
        == "json"@ {
        FileKind::Code
    } else if e == "pdf"@ || e == "doc"@ || e == "docx"@ || e == "odt"@ || e == "rtf"@ || e
        == "txt"@ || e == "md"@ || e == "rst"@ || e == "tex"@ {
        FileKind::Doc
    } else {
        FileKind::Other
    }
}

fn any_of(e: &str, words: &Vec<&str>) -> (r: bool)
    ensures
        r == (exists|i: int| 0 <= i < words.len() && e@ == (#[trigger] words@[i])@),
{
    let mut i: usize = 0;
    while i < words.len()
        invariant
            i <= words.len(),
            forall|j: int| 0 <= j < i ==> e@ != (#[trigger] words@[j])@,
        decreases words.len() - i,
    {
        if same_text(e, words[i]) {
            return true;
        }
        i = i + 1;
    }
    false
}

/// The kind of file an extension (already lowercase) denotes.
pub fn file_kind(e: &str) -> (k: FileKind)
    ensures
        k == kind_of_ext(e@),
{
    let archive = vec!["tar", "gz", "bz2", "xz", "zst", "tgz", "tbz2", "txz", "zip", "7z", "rar"];
    if any_of(e, &archive) {
        return FileKind::Archive;
    }
    let image = vec!["jpg", "jpeg", "png", "gif", "bmp", "svg", "webp", "ico", "tiff"];
    if any_of(e, &image) {
        return FileKind::Image;
    }
    let video = vec!["mp4", "mkv", "avi", "mov", "wmv", "flv", "webm"];
    if any_of(e, &video) {
        return FileKind::Video;
    }
    let audio = vec!["mp3", "flac", "wav", "aac", "ogg", "m4a"];
    if any_of(e, &audio) {
        return FileKind::Audio;
    }
    let code = vec![
        "rs", "py", "js", "ts", "c", "cpp", "h", "java", "go", "rb", "php", "sh", "bash", "zsh",
        "fish", "ps1", "lua", "swift", "kt", "cs", "toml", "yaml", "yml", "json",
    ];
    if any_of(e, &code) {
        return FileKind::Code;
    }
    let doc = vec!["pdf", "doc", "docx", "odt", "rtf", "txt", "md", "rst", "tex"];
    if any_of(e, &doc) {
        return FileKind::Doc;
    }
    FileKind::Other
}

/// What follows the last `.` of a name, or the whole name when it has none
/// (`rsplit('.').next()`).
pub open spec fn after_last_dot(s: Seq<char>) -> Seq<char> {
    split_on(s, '.').last()
}

/// The emoji an entry is shown with: none when emoji are off; the link
/// emoji for links, the directory emoji for directories; else by the kind
/// of its extension, taken from the Unicode-lowercased name.
pub open spec fn emoji_spec(name: Seq<char>, is_dir: bool, is_link: bool, c: ConfigView) -> Seq<
    char,
> {
    if !c.display.emoji {
        ""@
    } else if is_link {
        c.emojis.link
    } else if is_dir {
        c.emojis.dir
    } else {
        match kind_of_ext(after_last_dot(unicode_lowercase(name))) {
            FileKind::Archive => c.emojis.archive,
            FileKind::Image => c.emojis.image,
            FileKind::Video => c.emojis.video,
            FileKind::Audio => c.emojis.audio,
            FileKind::Code => c.emojis.code,
            FileKind::Doc => c.emojis.doc,
            FileKind::Other => c.emojis.file,
        }
    }
}

/// The emoji an entry is shown with (see [`emoji_spec`]).
pub fn get_emoji<'a>(name: &str, is_dir: bool, is_link: bool, config: &'a Config) -> (r: &'a str)
    ensures
        r@ == emoji_spec(name@, is_dir, is_link, config@),
{
    if !config.display.emoji {
        return "";
    }
    if is_link {
        return config.emojis.link.as_str();
    }
    if is_dir {
        return config.emojis.dir.as_str();
    }
    let lower = to_lowercase(name);
    let lc = chars_of(lower.as_str());
    let pieces = split_chars(&lc, '.');
    proof {
        crate::text::lemma_split_on_nonempty(lc@, '.');
    }
    let ext = string_of(&pieces[pieces.len() - 1]);
    match file_kind(ext.as_str()) {
        FileKind::Archive => config.emojis.archive.as_str(),
        FileKind::Image => config.emojis.image.as_str(),
        FileKind::Video => config.emojis.video.as_str(),
        FileKind::Audio => config.emojis.audio.as_str(),
        FileKind::Code => config.emojis.code.as_str(),
        FileKind::Doc => config.emojis.doc.as_str(),
        FileKind::Other => config.emojis.file.as_str(),
    }
}

/// The color names `set` accepts are exactly those the painter draws in a
/// color: a value names one of the sixteen terminal colors (its hue is not
/// plain) exactly when it is a known color name, and every such name is an
/// acceptable color value.
pub proof fn law_hue_names_are_colors(v: Seq<char>)
    ensures
        (named_hue(v) != Hue::Plain) == is_named_color_spec(v),
        named_hue(v) != Hue::Plain ==> is_color_text(v),
{
}

/// Setting a color key of the colors section to a color name the painter
/// draws in a color succeeds, and stores that name as a named color under
/// that key, leaving the rest of the configuration as it was.
pub proof fn law_set_named_color(c: ConfigView, key: Seq<char>, v: Seq<char>, k: ColorKey)
    requires
        split_on(key, '.').len() == 2,
        Section::named_spec(split_on(key, '.')[0]) == Some(Section::Colors),
        ColorKey::named_spec(split_on(key, '.')[1]) == Some(k),
        named_hue(v) != Hue::Plain,
    ensures
        set_spec(c, key, v) == Ok::<ConfigView, ConfigFailure>(
            ConfigView { colors: c.colors.with(k, ColorView::Named(v)), ..c },
        ),
{
    reveal_strlit("black");
    reveal_strlit("red");
    reveal_strlit("green");
    reveal_strlit("yellow");
    reveal_strlit("blue");
    reveal_strlit("magenta");
    reveal_strlit("cyan");
    reveal_strlit("white");
    reveal_strlit("bright_black");
    reveal_strlit("bright_red");
    reveal_strlit("bright_green");
    reveal_strlit("bright_yellow");
    reveal_strlit("bright_blue");
    reveal_strlit("bright_magenta");
    reveal_strlit("bright_cyan");
    reveal_strlit("bright_white");
    assert(v[0] != '#');
}

/// The extensions of each kind of file, each tried on a non-directory,
/// non-link entry's lowercased name after its last `.`: an extension in one
/// of these lists is of that kind, and the entry is shown with that kind's
/// emoji (archives `tar`, `gz`, ...; images; videos; audio; code, from `rs`
/// and `py` to `json`; documents).
pub proof fn law_extension_kinds(name: Seq<char>, c: ConfigView)
    ensures
        ({
            let e = after_last_dot(unicode_lowercase(name));
            (e == "tar"@ || e == "gz"@ || e == "bz2"@ || e == "xz"@ || e == "zst"@ || e == "tgz"@ || e == "tbz2"@ || e == "txz"@ || e == "zip"@ || e == "7z"@ || e == "rar"@) ==> kind_of_ext(e) == FileKind::Archive && (c.display.emoji ==> emoji_spec(
                name,
                false,
                false,
                c,
            ) == c.emojis.archive)
        }),
        ({
            let e = after_last_dot(unicode_lowercase(name));
            (e == "jpg"@ || e == "jpeg"@ || e == "png"@ || e == "gif"@ || e == "bmp"@ || e == "svg"@ || e == "webp"@ || e == "ico"@ || e == "tiff"@) ==> kind_of_ext(e) == FileKind::Image && (c.display.emoji ==> emoji_spec(
                name,
                false,
                false,
                c,
            ) == c.emojis.image)
        }),
        ({
            let e = after_last_dot(unicode_lowercase(name));
            (e == "mp4"@ || e == "mkv"@ || e == "avi"@ || e == "mov"@ || e == "wmv"@ || e == "flv"@ || e == "webm"@) ==> kind_of_ext(e) == FileKind::Video && (c.display.emoji ==> emoji_spec(
                name,
                false,
                false,
                c,
            ) == c.emojis.video)
        }),
        ({
            let e = after_last_dot(unicode_lowercase(name));
            (e == "mp3"@ || e == "flac"@ || e == "wav"@ || e == "aac"@ || e == "ogg"@ || e == "m4a"@) ==> kind_of_ext(e) == FileKind::Audio && (c.display.emoji ==> emoji_spec(
                name,
                false,
                false,
                c,
            ) == c.emojis.audio)
        }),
        ({
            let e = after_last_dot(unicode_lowercase(name));
            (e == "rs"@ || e == "py"@ || e == "js"@ || e == "ts"@ || e == "c"@ || e == "cpp"@ || e == "h"@ || e == "java"@ || e == "go"@ || e == "rb"@ || e == "php"@ || e == "sh"@ || e == "bash"@ || e == "zsh"@ || e == "fish"@ || e == "ps1"@ || e == "lua"@ || e == "swift"@ || e == "kt"@ || e == "cs"@ || e == "toml"@ || e == "yaml"@ || e == "yml"@ || e == "json"@) ==> kind_of_ext(e) == FileKind::Code && (c.display.emoji ==> emoji_spec(
                name,
                false,
                false,
                c,
            ) == c.emojis.code)
        }),
        ({
            let e = after_last_dot(unicode_lowercase(name));
            (e == "pdf"@ || e == "doc"@ || e == "docx"@ || e == "odt"@ || e == "rtf"@ || e == "txt"@ || e == "md"@ || e == "rst"@ || e == "tex"@) ==> kind_of_ext(e) == FileKind::Doc && (c.display.emoji ==> emoji_spec(
                name,
                false,
                false,
                c,
            ) == c.emojis.doc)
        }),
{
    let e = after_last_dot(unicode_lowercase(name));
    reveal_strlit("tar");
    reveal_strlit("gz");
    reveal_strlit("bz2");
    reveal_strlit("xz");
    reveal_strlit("zst");
    reveal_strlit("tgz");
    reveal_strlit("tbz2");
    reveal_strlit("txz");
    reveal_strlit("zip");
    reveal_strlit("7z");
    reveal_strlit("rar");
    reveal_strlit("jpg");
    reveal_strlit("jpeg");
    reveal_strlit("png");
    reveal_strlit("gif");
    reveal_strlit("bmp");
    reveal_strlit("svg");
    reveal_strlit("webp");
    reveal_strlit("ico");
    reveal_strlit("tiff");
    reveal_strlit("mp4");
    reveal_strlit("mkv");
    reveal_strlit("avi");
    reveal_strlit("mov");
    reveal_strlit("wmv");
    reveal_strlit("flv");
    reveal_strlit("webm");
    reveal_strlit("mp3");
    reveal_strlit("flac");
    reveal_strlit("wav");
    reveal_strlit("aac");
    reveal_strlit("ogg");
    reveal_strlit("m4a");
    reveal_strlit("rs");
    reveal_strlit("py");
    reveal_strlit("js");
    reveal_strlit("ts");
    reveal_strlit("c");
    reveal_strlit("cpp");
    reveal_strlit("h");
    reveal_strlit("java");
    reveal_strlit("go");
    reveal_strlit("rb");
    reveal_strlit("php");
    reveal_strlit("sh");
    reveal_strlit("bash");
    reveal_strlit("zsh");
    reveal_strlit("fish");
    reveal_strlit("ps1");
    reveal_strlit("lua");
    reveal_strlit("swift");
    reveal_strlit("kt");
    reveal_strlit("cs");
    reveal_strlit("toml");
    reveal_strlit("yaml");
    reveal_strlit("yml");
    reveal_strlit("json");
    reveal_strlit("pdf");
    reveal_strlit("doc");
    reveal_strlit("docx");
    reveal_strlit("odt");
    reveal_strlit("rtf");
    reveal_strlit("txt");
    reveal_strlit("md");
    reveal_strlit("rst");
    reveal_strlit("tex");
    if e == "jpg"@ {
        assert(e.len() == 3 && e[0] == 'j' && e[1] == 'p' && e[2] == 'g');
    }
    if e == "jpeg"@ {
        assert(e.len() == 4 && e[0] == 'j' && e[1] == 'p' && e[2] == 'e' && e[3] == 'g');
    }
    if e == "png"@ {
        assert(e.len() == 3 && e[0] == 'p' && e[1] == 'n' && e[2] == 'g');
    }
    if e == "gif"@ {
        assert(e.len() == 3 && e[0] == 'g' && e[1] == 'i' && e[2] == 'f');
    }
    if e == "bmp"@ {
        assert(e.len() == 3 && e[0] == 'b' && e[1] == 'm' && e[2] == 'p');
    }
    if e == "svg"@ {
        assert(e.len() == 3 && e[0] == 's' && e[1] == 'v' && e[2] == 'g');
    }
    if e == "webp"@ {
        assert(e.len() == 4 && e[0] == 'w' && e[1] == 'e' && e[2] == 'b' && e[3] == 'p');
    }
    if e == "ico"@ {
        assert(e.len() == 3 && e[0] == 'i' && e[1] == 'c' && e[2] == 'o');
    }
    if e == "tiff"@ {
        assert(e.len() == 4 && e[0] == 't' && e[1] == 'i' && e[2] == 'f' && e[3] == 'f');
    }
    if e == "mp4"@ {
        assert(e.len() == 3 && e[0] == 'm' && e[1] == 'p' && e[2] == '4');
    }
    if e == "mkv"@ {
        assert(e.len() == 3 && e[0] == 'm' && e[1] == 'k' && e[2] == 'v');
    }
    if e == "avi"@ {
        assert(e.len() == 3 && e[0] == 'a' && e[1] == 'v' && e[2] == 'i');
    }
    if e == "mov"@ {
        assert(e.len() == 3 && e[0] == 'm' && e[1] == 'o' && e[2] == 'v');
    }
    if e == "wmv"@ {
        assert(e.len() == 3 && e[0] == 'w' && e[1] == 'm' && e[2] == 'v');
    }
    if e == "flv"@ {
        assert(e.len() == 3 && e[0] == 'f' && e[1] == 'l' && e[2] == 'v');
    }
    if e == "webm"@ {
        assert(e.len() == 4 && e[0] == 'w' && e[1] == 'e' && e[2] == 'b' && e[3] == 'm');
    }
    if e == "mp3"@ {
        assert(e.len() == 3 && e[0] == 'm' && e[1] == 'p' && e[2] == '3');
    }
    if e == "flac"@ {
        assert(e.len() == 4 && e[0] == 'f' && e[1] == 'l' && e[2] == 'a' && e[3] == 'c');
    }
    if e == "wav"@ {
        assert(e.len() == 3 && e[0] == 'w' && e[1] == 'a' && e[2] == 'v');
    }
    if e == "aac"@ {
        assert(e.len() == 3 && e[0] == 'a' && e[1] == 'a' && e[2] == 'c');
    }
    if e == "ogg"@ {
        assert(e.len() == 3 && e[0] == 'o' && e[1] == 'g' && e[2] == 'g');
    }
    if e == "m4a"@ {
        assert(e.len() == 3 && e[0] == 'm' && e[1] == '4' && e[2] == 'a');
    }
    if e == "rs"@ {
        assert(e.len() == 2 && e[0] == 'r' && e[1] == 's');
    }
    if e == "py"@ {
        assert(e.len() == 2 && e[0] == 'p' && e[1] == 'y');
    }
    if e == "js"@ {
        assert(e.len() == 2 && e[0] == 'j' && e[1] == 's');
    }
    if e == "ts"@ {
        assert(e.len() == 2 && e[0] == 't' && e[1] == 's');
    }
    if e == "c"@ {
        assert(e.len() == 1 && e[0] == 'c');
    }
    if e == "cpp"@ {
        assert(e.len() == 3 && e[0] == 'c' && e[1] == 'p' && e[2] == 'p');
    }
    if e == "h"@ {
        assert(e.len() == 1 && e[0] == 'h');
    }
    if e == "java"@ {
        assert(e.len() == 4 && e[0] == 'j' && e[1] == 'a' && e[2] == 'v' && e[3] == 'a');
    }
    if e == "go"@ {
        assert(e.len() == 2 && e[0] == 'g' && e[1] == 'o');
    }
    if e == "rb"@ {
        assert(e.len() == 2 && e[0] == 'r' && e[1] == 'b');
    }
    if e == "php"@ {
        assert(e.len() == 3 && e[0] == 'p' && e[1] == 'h' && e[2] == 'p');
    }
    if e == "sh"@ {
        assert(e.len() == 2 && e[0] == 's' && e[1] == 'h');
    }
    if e == "bash"@ {
        assert(e.len() == 4 && e[0] == 'b' && e[1] == 'a' && e[2] == 's' && e[3] == 'h');
    }
    if e == "zsh"@ {
        assert(e.len() == 3 && e[0] == 'z' && e[1] == 's' && e[2] == 'h');
    }
    if e == "fish"@ {
        assert(e.len() == 4 && e[0] == 'f' && e[1] == 'i' && e[2] == 's' && e[3] == 'h');
    }
    if e == "ps1"@ {
        assert(e.len() == 3 && e[0] == 'p' && e[1] == 's' && e[2] == '1');
    }
    if e == "lua"@ {
        assert(e.len() == 3 && e[0] == 'l' && e[1] == 'u' && e[2] == 'a');
    }
    if e == "swift"@ {
        assert(e.len() == 5 && e[0] == 's' && e[1] == 'w' && e[2] == 'i' && e[3] == 'f' && e[4] == 't');
    }
    if e == "kt"@ {
        assert(e.len() == 2 && e[0] == 'k' && e[1] == 't');
    }
    if e == "cs"@ {
        assert(e.len() == 2 && e[0] == 'c' && e[1] == 's');
    }
    if e == "toml"@ {
        assert(e.len() == 4 && e[0] == 't' && e[1] == 'o' && e[2] == 'm' && e[3] == 'l');
    }
    if e == "yaml"@ {
        assert(e.len() == 4 && e[0] == 'y' && e[1] == 'a' && e[2] == 'm' && e[3] == 'l');
    }
    if e == "yml"@ {
        assert(e.len() == 3 && e[0] == 'y' && e[1] == 'm' && e[2] == 'l');
    }
    if e == "json"@ {
        assert(e.len() == 4 && e[0] == 'j' && e[1] == 's' && e[2] == 'o' && e[3] == 'n');
    }
    if e == "pdf"@ {
        assert(e.len() == 3 && e[0] == 'p' && e[1] == 'd' && e[2] == 'f');
    }
    if e == "doc"@ {
        assert(e.len() == 3 && e[0] == 'd' && e[1] == 'o' && e[2] == 'c');
    }
    if e == "docx"@ {
        assert(e.len() == 4 && e[0] == 'd' && e[1] == 'o' && e[2] == 'c' && e[3] == 'x');
    }
    if e == "odt"@ {
        assert(e.len() == 3 && e[0] == 'o' && e[1] == 'd' && e[2] == 't');
    }
    if e == "rtf"@ {
        assert(e.len() == 3 && e[0] == 'r' && e[1] == 't' && e[2] == 'f');
    }
    if e == "txt"@ {
        assert(e.len() == 3 && e[0] == 't' && e[1] == 'x' && e[2] == 't');
    }
    if e == "md"@ {
        assert(e.len() == 2 && e[0] == 'm' && e[1] == 'd');
    }
    if e == "rst"@ {
        assert(e.len() == 3 && e[0] == 'r' && e[1] == 's' && e[2] == 't');
    }
    if e == "tex"@ {
        assert(e.len() == 3 && e[0] == 't' && e[1] == 'e' && e[2] == 'x');
    }
}

} // verus!
