use tar2::config::{
    config_candidates, default_config_path, is_json_path, is_named_color, load_config, parse_bool,
    ColorValue, ColorsConfig, Config, ConfigError, DisplayConfig, EmojisConfig, Platform,
};

fn s(x: &str) -> String {
    x.to_string()
}

#[test]
fn defaults_read_back() {
    let c = Config::default();
    assert_eq!(c.get_value("colors.dir"), Some(s("#00BFFF")));
    assert_eq!(c.get_value("colors.file"), Some(s("white")));
    assert_eq!(c.get_value("colors.exec"), Some(s("#00FF7F")));
    assert_eq!(c.get_value("emojis.dir"), Some(s("📁")));
    assert_eq!(c.get_value("emojis.image"), Some(s("🖼️")));
    assert_eq!(c.get_value("display.emoji"), Some(s("true")));
    assert_eq!(c.get_value("display.tree_depth"), Some(s("0")));
    assert_eq!(c.get_value("display.progress_style"), Some(s("bar")));
    assert_eq!(c.get_value("display.date_format"), Some(s("%Y-%m-%d %H:%M")));
    assert_eq!(c.get_value("display.tree_style"), Some(s("unicode")));
}

#[test]
fn unknown_keys_read_nothing() {
    let c = Config::default();
    assert_eq!(c.get_value("nope"), None);
    assert_eq!(c.get_value("colors.nope"), None);
    assert_eq!(c.get_value("colors.dir.more"), None);
    assert_eq!(c.get_value(""), None);
}

#[test]
fn a_section_reads_as_json() {
    let c = Config::default();
    assert_eq!(
        c.get_value("colors"),
        Some(s("{\"date\":\"#DDA0DD\",\"dir\":\"#00BFFF\",\"error\":\"#FF4444\",\"exec\":\"#00FF7F\",\"file\":\"white\",\"header\":\"#FFD700\",\"link\":\"#FF69B4\",\"ok\":\"#44FF44\",\"perm\":\"#FFA500\",\"size\":\"#00FFFF\",\"tree\":\"#808080\",\"warn\":\"#FFFF00\"}"))
    );
    assert_eq!(
        c.get_value("display"),
        Some(s("{\"colors\":true,\"date_format\":\"%Y-%m-%d %H:%M\",\"emoji\":true,\"human_readable\":true,\"progress_style\":\"bar\",\"tree_depth\":0,\"tree_style\":\"unicode\",\"verbose\":false}"))
    );
}

#[test]
fn set_then_get() {
    let mut c = Config::default();
    assert!(c.set_value("colors.dir", "#FF6600").is_ok());
    assert_eq!(c.get_value("colors.dir"), Some(s("#FF6600")));
    assert!(c.set_value("colors.exec", "cyan").is_ok());
    assert_eq!(c.get_value("colors.exec"), Some(s("cyan")));
    assert!(c.set_value("emojis.code", "C").is_ok());
    assert_eq!(c.get_value("emojis.code"), Some(s("C")));
    assert!(c.set_value("display.emoji", "off").is_ok());
    assert_eq!(c.get_value("display.emoji"), Some(s("false")));
    assert!(c.set_value("display.tree_depth", "3").is_ok());
    assert_eq!(c.get_value("display.tree_depth"), Some(s("3")));
    assert!(c.set_value("display.tree_style", "ascii").is_ok());
    assert_eq!(c.get_value("display.tree_style"), Some(s("ascii")));
    assert!(c.set_value("display.date_format", "%d").is_ok());
    assert_eq!(c.get_value("display.date_format"), Some(s("%d")));
    // Other settings are left alone.
    assert_eq!(c.get_value("colors.file"), Some(s("white")));
    assert_eq!(c.get_value("emojis.dir"), Some(s("📁")));
}

#[test]
fn keys_must_have_exactly_two_parts() {
    let mut c = Config::default();
    assert_eq!(c.set_value("colors.dir.extra", "red"), Err(ConfigError::KeyFormat));
    assert_eq!(c.set_value("colors.", "red"), Err(ConfigError::UnknownColorKey(s(""))));
    assert_eq!(c.set_value("a.b.c", "1"), Err(ConfigError::KeyFormat));
    assert_eq!(c.get_value("colors.dir"), Some(s("#00BFFF")));
}

#[test]
fn hex_colors_need_six_digits() {
    let mut c = Config::default();
    assert_eq!(c.set_value("colors.dir", "#GG0000"), Err(ConfigError::InvalidColor(s("#GG0000"))));
    assert_eq!(c.set_value("colors.dir", "#FFF"), Err(ConfigError::InvalidColor(s("#FFF"))));
    assert_eq!(c.set_value("colors.dir", "#+F+F+F"), Err(ConfigError::InvalidColor(s("#+F+F+F"))));
    assert_eq!(c.set_value("colors.dir", "#00ff7F"), Ok(()));
    assert_eq!(c.get_value("colors.dir"), Some(s("#00ff7F")));
}

#[test]
fn set_errors() {
    let mut c = Config::default();
    assert_eq!(c.set_value("colors", "red"), Err(ConfigError::KeyFormat));
    assert_eq!(c.set_value("sound.beep", "1"), Err(ConfigError::UnknownSection(s("sound"))));
    assert_eq!(c.set_value("colors.dir", "purple"), Err(ConfigError::InvalidColor(s("purple"))));
    // The color is checked before the key.
    assert_eq!(c.set_value("colors.nope", "purple"), Err(ConfigError::InvalidColor(s("purple"))));
    assert_eq!(c.set_value("colors.nope", "red"), Err(ConfigError::UnknownColorKey(s("nope"))));
    assert_eq!(c.set_value("emojis.nope", "x"), Err(ConfigError::UnknownEmojiKey(s("nope"))));
    assert_eq!(c.set_value("display.nope", "x"), Err(ConfigError::UnknownDisplayKey(s("nope"))));
    assert_eq!(c.set_value("display.colors", "maybe"), Err(ConfigError::InvalidBool(s("maybe"))));
    assert_eq!(c.set_value("display.tree_depth", "-1"), Err(ConfigError::TreeDepthNotNumber));
    assert_eq!(c.set_value("display.progress_style", "dots"), Err(ConfigError::InvalidProgressStyle));
    assert_eq!(c.set_value("display.tree_style", "fancy"), Err(ConfigError::InvalidTreeStyle));
    // Nothing changed.
    assert_eq!(c.get_value("colors.dir"), Some(s("#00BFFF")));
    assert_eq!(c.get_value("display.colors"), Some(s("true")));
}

#[test]
fn error_messages() {
    assert_eq!(
        ConfigError::KeyFormat.message(),
        "Key must be in format 'section.field' (e.g. 'colors.dir')"
    );
    assert_eq!(
        ConfigError::UnknownSection(s("sound")).message(),
        "Unknown config section: 'sound'. Valid: colors, emojis, display"
    );
    assert_eq!(
        ConfigError::InvalidColor(s("purple")).message(),
        "Invalid color 'purple'. Use hex (#RRGGBB) or named color (red, green, blue, ...)"
    );
    assert_eq!(
        ConfigError::InvalidBool(s("maybe")).message(),
        "Cannot parse 'maybe' as boolean (use true/false/yes/no/1/0)"
    );
    assert_eq!(ConfigError::TreeDepthNotNumber.message(), "tree_depth must be a number");
    assert_eq!(
        ConfigError::InvalidTreeStyle.message(),
        "tree_style must be 'unicode' or 'ascii'"
    );
}

#[test]
fn booleans() {
    assert_eq!(parse_bool("true"), Ok(true));
    assert_eq!(parse_bool("YES"), Ok(true));
    assert_eq!(parse_bool("On"), Ok(true));
    assert_eq!(parse_bool("1"), Ok(true));
    assert_eq!(parse_bool("false"), Ok(false));
    assert_eq!(parse_bool("No"), Ok(false));
    assert_eq!(parse_bool("off"), Ok(false));
    assert_eq!(parse_bool("0"), Ok(false));
    assert_eq!(parse_bool("2"), Err(ConfigError::InvalidBool(s("2"))));
    assert_eq!(parse_bool(""), Err(ConfigError::InvalidBool(s(""))));
}

#[test]
fn color_names() {
    assert!(is_named_color("red"));
    assert!(is_named_color("bright_white"));
    assert!(!is_named_color("Red"));
    assert!(!is_named_color("purple"));
}

#[test]
fn rgb_values() {
    assert_eq!(ColorValue::Hex(s("#00BFFF")).parse_rgb(), Some((0, 191, 255)));
    assert_eq!(ColorValue::Hex(s("#ff6600")).parse_rgb(), Some((255, 102, 0)));
    assert_eq!(ColorValue::Hex(s("#FFF")).parse_rgb(), None);
    assert_eq!(ColorValue::Hex(s("#GG0000")).parse_rgb(), None);
    assert_eq!(ColorValue::Hex(s("#+F+F+F")).parse_rgb(), None);
    assert_eq!(ColorValue::Named(s("cyan")).parse_rgb(), None);
    assert_eq!(ColorValue::Named(s("cyan")).as_str(), "cyan");
    assert_eq!(ColorValue::default().as_str(), "white");
}

#[test]
fn list_all_in_order() {
    let c = Config::default();
    let all = c.list_all();
    assert_eq!(all.len(), 32);
    assert_eq!(all[0], (s("colors.date"), s("#DDA0DD")));
    assert_eq!(all[3], (s("colors.exec"), s("#00FF7F")));
    assert_eq!(all[12], (s("emojis.archive"), s("📦")));
    assert_eq!(all[24], (s("display.colors"), s("true")));
    assert_eq!(all[29], (s("display.tree_depth"), s("0")));
    assert_eq!(all[31], (s("display.verbose"), s("false")));
}

#[test]
fn section_defaults() {
    let c = Config::default();
    assert_eq!(ColorsConfig::default().dir.as_str(), c.colors.dir.as_str());
    assert_eq!(EmojisConfig::default().warn, s("⚠️"));
    let d = DisplayConfig::default();
    assert!(d.emoji && d.colors && d.human_readable && !d.verbose);
    assert_eq!(d.tree_depth, 0);
}

#[test]
fn candidates_on_linux() {
    let v = config_candidates(
        "tar2",
        Platform::Linux,
        Some("/x"),
        Some("/home/u"),
        Some("/appdata"),
        Some("/work"),
        Some("/opt/bin"),
    );
    let want: Vec<String> = vec![
        "/x/tar2/tar2.toml",
        "/x/tar2/.tar2.toml",
        "/x/tar2/tar2.json",
        "/x/tar2/.tar2.json",
        "/home/u/.config/tar2/tar2.toml",
        "/home/u/.config/tar2/.tar2.toml",
        "/home/u/.config/tar2/tar2.json",
        "/home/u/.config/tar2/.tar2.json",
        "/home/u/tar2.toml",
        "/home/u/.tar2.toml",
        "/home/u/tar2.json",
        "/home/u/.tar2.json",
        "/etc/tar2/tar2.toml",
        "/etc/tar2.toml",
        "/work/tar2.toml",
        "/work/.tar2.toml",
        "/work/tar2.json",
        "/work/.tar2.json",
        "/opt/bin/tar2.toml",
        "/opt/bin/.tar2.toml",
        "/opt/bin/tar2.json",
        "/opt/bin/.tar2.json",
    ]
    .into_iter()
    .map(s)
    .collect();
    assert_eq!(v, want);
}

#[test]
fn candidates_without_places() {
    let v = config_candidates("tar", Platform::Linux, None, None, None, None, None);
    assert_eq!(v, vec![s("/etc/tar/tar.toml"), s("/etc/tar.toml")]);
    let v = config_candidates("tar", Platform::Other, Some("/x"), Some("/h"), Some("/a"), None, Some("/b"));
    assert_eq!(v, vec![s("/b/tar.toml"), s("/b/.tar.toml"), s("/b/tar.json"), s("/b/.tar.json")]);
}

#[test]
fn default_path() {
    assert_eq!(
        default_config_path("tar2", Platform::Linux, Some("/home/u"), Some("/a")),
        "/home/u/.config/tar2/tar2.toml"
    );
    assert_eq!(
        default_config_path("tar2", Platform::MacOs, Some("/Users/u"), None),
        "/Users/u/.config/tar2/tar2.toml"
    );
    assert_eq!(default_config_path("tar2", Platform::Windows, Some("/h"), Some("C:/AppData")), "C:/AppData/tar2/tar2.toml");
    assert_eq!(default_config_path("tar2", Platform::Windows, Some("/h"), None), "tar2.toml");
    assert_eq!(default_config_path("tar2", Platform::Linux, None, Some("/a")), "tar2.toml");
    assert_eq!(default_config_path("tar2", Platform::Other, Some("/h"), Some("/a")), "tar2.toml");
}

#[test]
fn json_paths() {
    assert!(is_json_path("/a/tar2.json"));
    assert!(is_json_path(".tar2.json"));
    assert!(!is_json_path("/a/tar2.toml"));
    assert!(!is_json_path("/a/json"));
}

#[test]
fn first_loaded_candidate_wins() {
    let cands = vec![s("/a.toml"), s("/b.toml"), s("/c.toml")];
    let mut second = Config::default();
    second.set_value("colors.dir", "red").unwrap();
    let loaded = vec![None, Some(second), Some(Config::default())];
    let (cfg, path) = load_config(&cands, &loaded);
    assert_eq!(path, Some(s("/b.toml")));
    assert_eq!(cfg.get_value("colors.dir"), Some(s("red")));

    let none: Vec<Option<Config>> = vec![None, None, None];
    let (cfg, path) = load_config(&cands, &none);
    assert_eq!(path, None);
    assert_eq!(cfg.get_value("colors.dir"), Some(s("#00BFFF")));
}

#[test]
fn listed_keys_read_back() {
    let mut c = Config::default();
    c.set_value("colors.warn", "red").unwrap();
    c.set_value("display.tree_depth", "7").unwrap();
    for (k, v) in c.list_all() {
        assert_eq!(c.get_value(&k), Some(v));
    }
}

#[test]
fn candidates_on_macos_and_windows() {
    let v = config_candidates("t", Platform::MacOs, Some("/x"), Some("/Users/u"), Some("/a"), None, None);
    let want: Vec<String> = vec![
        "/Users/u/Library/Application Support/t/t.toml",
        "/Users/u/Library/Application Support/t/.t.toml",
        "/Users/u/Library/Application Support/t/t.json",
        "/Users/u/Library/Application Support/t/.t.json",
        "/Users/u/.config/t/t.toml",
        "/Users/u/.config/t/.t.toml",
        "/Users/u/.config/t/t.json",
        "/Users/u/.config/t/.t.json",
        "/Users/u/t.toml",
        "/Users/u/.t.toml",
        "/Users/u/t.json",
        "/Users/u/.t.json",
        "/Library/Application Support/t/t.toml",
    ]
    .into_iter()
    .map(s)
    .collect();
    assert_eq!(v, want);
    let v = config_candidates("t", Platform::Windows, Some("/x"), Some("C:/Users/u"), Some("C:/AppData"), Some("D:/w"), None);
    let want: Vec<String> = vec![
        "C:/AppData/t/t.toml",
        "C:/AppData/t/.t.toml",
        "C:/AppData/t/t.json",
        "C:/AppData/t/.t.json",
        "C:/Users/u/t.toml",
        "C:/Users/u/.t.toml",
        "C:/Users/u/t.json",
        "C:/Users/u/.t.json",
        "D:/w/t.toml",
        "D:/w/.t.toml",
        "D:/w/t.json",
        "D:/w/.t.json",
    ]
    .into_iter()
    .map(s)
    .collect();
    assert_eq!(v, want);
}

#[test]
fn json_escapes_in_sections() {
    let mut c = Config::default();
    c.set_value("display.date_format", "a\"b\\c\t\u{1}\u{1f}é").unwrap();
    let d = c.get_value("display").unwrap();
    assert!(d.contains("\"date_format\":\"a\\\"b\\\\c\\t\\u0001\\u001fé\""));
}
