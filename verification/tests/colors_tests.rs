use tar2::colors::{can_draw, file_kind, get_emoji, FileKind, Hue, Painter};
use tar2::config::{ColorKey, ColorValue, Config};

#[test]
fn disabled_painter_writes_plain_text() {
    let c = Config::default();
    let p = Painter::new(&c, false);
    for piece in [p.dir("d"), p.file("f"), p.link("l"), p.size("1 B"), p.date("x"), p.perm("-"), p.tree("├── "), p.warn("w"), p.ok("o")] {
        assert_eq!(piece.style.hue, Hue::Plain);
        assert!(!piece.style.bold);
        assert_eq!(piece.render(), piece.text);
    }
    assert!(p.header("h").style.bold);
    assert!(p.error("e").style.bold);
}

#[test]
fn enabled_painter_picks_configured_colors() {
    let mut c = Config::default();
    let p = Painter::new(&c, true);
    assert_eq!(p.dir("d").style.hue, Hue::Rgb(0, 191, 255));
    assert_eq!(p.file("f").style.hue, Hue::White);
    c.set_value("colors.link", "bright_cyan").unwrap();
    c.colors.tree = ColorValue::Hex("#12".to_string());
    let p = Painter::new(&c, true);
    assert_eq!(p.link("l").style.hue, Hue::BrightCyan);
    assert_eq!(p.tree("t").style.hue, Hue::Plain);
    assert_eq!(p.link("l").text, "l");
}

#[test]
fn readable_colors() {
    let mut c = Config::default();
    assert!(can_draw(&c, ColorKey::Dir));
    c.colors.dir = ColorValue::Hex("#aéé0".to_string());
    assert!(!can_draw(&c, ColorKey::Dir));
    assert!(can_draw(&c, ColorKey::File));
    assert!(!Painter::new(&c, true).can_paint(ColorKey::Dir));
    // Without colors nothing is read.
    assert!(Painter::new(&c, false).can_paint(ColorKey::Dir));
    c.display.colors = false;
    assert!(can_draw(&c, ColorKey::Dir));
    c.display.colors = true;
    c.colors.dir = ColorValue::Hex("#éééé".to_string());
    assert!(can_draw(&c, ColorKey::Dir));
}

#[test]
fn emoji_by_kind() {
    let c = Config::default();
    assert_eq!(get_emoji("src", true, false, &c), "📁");
    assert_eq!(get_emoji("x.rs", true, true, &c), "🔗");
    assert_eq!(get_emoji("a.tar.GZ", false, false, &c), "📦");
    assert_eq!(get_emoji("photo.JPeG", false, false, &c), "🖼️");
    assert_eq!(get_emoji("clip.webm", false, false, &c), "🎬");
    assert_eq!(get_emoji("song.flac", false, false, &c), "🎵");
    assert_eq!(get_emoji("main.rs", false, false, &c), "💻");
    assert_eq!(get_emoji("README.md", false, false, &c), "📝");
    assert_eq!(get_emoji("Makefile", false, false, &c), "📄");
    assert_eq!(get_emoji("json", false, false, &c), "💻");
    let mut off = Config::default();
    off.display.emoji = false;
    assert_eq!(get_emoji("main.rs", false, false, &off), "");
}

#[test]
fn kinds_of_extensions() {
    assert_eq!(file_kind("zip"), FileKind::Archive);
    assert_eq!(file_kind("svg"), FileKind::Image);
    assert_eq!(file_kind("yml"), FileKind::Code);
    assert_eq!(file_kind("tex"), FileKind::Doc);
    assert_eq!(file_kind("ZIP"), FileKind::Other);
    assert_eq!(file_kind(""), FileKind::Other);
}
