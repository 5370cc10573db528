use tar2::archive::EntryInfo;
use tar2::config::Config;
use tar2::config::ColorValue;
use tar2::tree::{
    build_tree, can_draw_flat, can_draw_tree, flat_pieces, render_flat_line, render_tree, try_render_tree,
    TreeOptions,
};

fn s(x: &str) -> String {
    x.to_string()
}

fn entry(path: &str, is_dir: bool, size: u64, perm: Option<u32>) -> EntryInfo {
    EntryInfo {
        path: s(path),
        size,
        mtime: None,
        utc_offset: 0,
        perm,
        is_dir,
        is_link: false,
        link_target: None,
    }
}

fn plain_config() -> Config {
    let mut c = Config::default();
    c.display.colors = false;
    c.display.emoji = false;
    c
}

fn opts<'a>(max_depth: u32, unicode: bool) -> TreeOptions<'a> {
    TreeOptions {
        max_depth,
        show_size: false,
        show_date: false,
        show_perm: false,
        date_fmt: "%Y-%m-%d %H:%M",
        unicode,
    }
}

fn sample() -> Vec<EntryInfo> {
    vec![
        entry("src/", true, 0, Some(0o40755)),
        entry("src/main.rs", false, 100, Some(0o100644)),
        entry("Cargo.toml", false, 2048, Some(0o100644)),
        entry("docs/README.md", false, 1536, None),
    ]
}

#[test]
fn unicode_tree() {
    let root = build_tree(&sample());
    let out = render_tree(&root, &opts(0, true), &plain_config());
    assert_eq!(
        out,
        "├── Cargo.toml\n├── docs\n│   └── README.md\n└── src\n    └── main.rs\n"
    );
}

#[test]
fn ascii_tree() {
    let root = build_tree(&sample());
    let out = render_tree(&root, &opts(0, false), &plain_config());
    assert_eq!(out, "|-- Cargo.toml\n|-- docs\n|   `-- README.md\n`-- src\n    `-- main.rs\n");
}

#[test]
fn depth_limit() {
    let root = build_tree(&sample());
    let out = render_tree(&root, &opts(1, true), &plain_config());
    assert_eq!(out, "├── Cargo.toml\n├── docs\n└── src\n");
    let out = render_tree(&root, &opts(2, true), &plain_config());
    assert_eq!(out, render_tree(&root, &opts(0, true), &plain_config()));
}

#[test]
fn metadata_columns() {
    let root = build_tree(&sample());
    let mut o = opts(0, true);
    o.show_size = true;
    o.show_perm = true;
    o.show_date = true;
    let out = render_tree(&root, &o, &plain_config());
    assert_eq!(
        out,
        "├── Cargo.toml  -rw-r--r--  2 KiB  ?\n├── docs\n│   └── README.md  ?????????  1.50 KiB  ?\n└── src  drwxr-xr-x  ?\n    └── main.rs  -rw-r--r--  100 B  ?\n"
    );
}

#[test]
fn emoji_and_links() {
    let mut c = plain_config();
    c.display.emoji = true;
    let mut link = entry("bin/run", false, 0, None);
    link.is_link = true;
    link.link_target = Some(s("../tools/run.sh"));
    let entries = vec![entry("bin/", true, 0, None), link, entry("pic.PNG", false, 1, None)];
    let root = build_tree(&entries);
    let out = render_tree(&root, &opts(0, true), &c);
    assert_eq!(out, "├── 📁 bin\n│   └── 🔗 run -> ../tools/run.sh\n└── 🖼️ pic.PNG\n");
}

#[test]
fn repeated_and_nested_paths() {
    let entries = vec![
        entry("a/b/c.txt", false, 1, None),
        entry("a/b/c.txt", false, 2048, None),
        entry("./a/x", false, 1, None),
        entry("/", true, 0, None),
    ];
    let root = build_tree(&entries);
    let mut o = opts(0, true);
    o.show_size = true;
    let out = render_tree(&root, &o, &plain_config());
    // The later entry for a path wins; parent directories without entries
    // are drawn as directories.
    assert_eq!(out, "└── a\n    ├── b\n    │   └── c.txt  2 KiB\n    └── x  1 B\n");
}

#[test]
fn empty_tree() {
    let root = build_tree(&vec![]);
    assert_eq!(render_tree(&root, &opts(0, true), &plain_config()), "");
}

#[test]
fn unformattable_dates() {
    let mut e = entry("a", false, 0, None);
    e.mtime = Some(0);
    let root = build_tree(&vec![e]);
    let mut o = opts(0, true);
    o.show_date = true;
    o.date_fmt = "%Q";
    assert_eq!(try_render_tree(&root, &o, &plain_config()), None);
    o.date_fmt = "%%";
    assert_eq!(try_render_tree(&root, &o, &plain_config()), Some(s("└── a  %\n")));
    // Dates of nodes below the deepest level drawn are never formatted.
    let mut deep = entry("a/b", false, 0, None);
    deep.mtime = Some(0);
    let root = build_tree(&vec![deep]);
    o.date_fmt = "%Q";
    o.max_depth = 1;
    assert_eq!(try_render_tree(&root, &o, &plain_config()), Some(s("└── a\n")));
    o.max_depth = 2;
    assert_eq!(try_render_tree(&root, &o, &plain_config()), None);
}

#[test]
fn flat_lines() {
    let c = plain_config();
    let e = entry("src/main.rs", false, 100, Some(0o100644));
    assert_eq!(render_flat_line(&e, false, &c), Some(s("src/main.rs")));
    assert_eq!(
        render_flat_line(&e, true, &c),
        Some(s("-rw-r--r--      100 B ?  src/main.rs"))
    );
    let mut ce = c.clone();
    ce.display.emoji = true;
    let d = entry("src/", true, 0, None);
    assert_eq!(render_flat_line(&d, false, &ce), Some(s("📁 src/")));
    let pieces = flat_pieces(&e, false, &ce, "");
    let texts: Vec<String> = pieces.iter().map(|p| p.text.clone()).collect();
    assert_eq!(texts, vec![s("💻 "), s("src/main.rs")]);
}

#[test]
fn colored_pieces_keep_their_text() {
    let mut c = Config::default();
    c.display.emoji = false;
    let e = entry("a.txt", false, 5, None);
    let pieces = flat_pieces(&e, false, &c, "");
    assert_eq!(pieces.len(), 1);
    assert_eq!(pieces[0].text, "a.txt");
    assert!(pieces[0].style.hue != tar2::colors::Hue::Plain);
}

#[test]
fn unreadable_colors_only_matter_where_used() {
    let mut c = Config::default();
    c.colors.size = ColorValue::Hex("#aéé0".to_string());
    let root = build_tree(&sample());
    let mut o = opts(0, true);
    assert!(can_draw_tree(&root, &o, &c));
    o.show_size = true;
    assert!(!can_draw_tree(&root, &o, &c));
    o.max_depth = 1;
    // Only Cargo.toml is a drawn file with an entry.
    assert!(!can_draw_tree(&root, &o, &c));
    let docs_only = build_tree(&vec![entry("docs/", true, 0, None)]);
    assert!(can_draw_tree(&docs_only, &o, &c));
    c.display.colors = false;
    assert!(can_draw_tree(&root, &o, &c));
    let e = entry("a", false, 1, None);
    assert!(can_draw_flat(&e, false, &c));
    c.display.colors = true;
    assert!(can_draw_flat(&e, false, &c));
    assert!(!can_draw_flat(&e, true, &c));
}
