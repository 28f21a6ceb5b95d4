use desktoporz::config::{
    default_config, default_language, get_language, resolve_config, set_language, ConfigRead,
};
use desktoporz::i18n::{
    builtin_fallback, catalog_of, embedded_language, load_translations, parse_json, t, t_args,
    BuiltinDocuments, Catalog, JsonNode,
};
use desktoporz::profiles::{join_lines, json_stem, profile_file_name, profile_names, with_warning};
use desktoporz::types::{
    keep_layouts, resolution_key, store_layout, update_profile, DesktopProfile, IconEntry,
    Resolution,
};

fn icon(name: &str, x: i32, y: i32) -> IconEntry {
    IconEntry { name: name.to_string(), x, y }
}

fn profile(name: &str, res: Resolution, icons: Vec<IconEntry>) -> DesktopProfile {
    DesktopProfile::captured(name, res, 100, icons)
}

const HD: Resolution = Resolution { width: 1920, height: 1080 };
const SMALL: Resolution = Resolution { width: 1366, height: 768 };

#[test]
fn resolution_key_is_width_x_height() {
    assert_eq!(resolution_key(HD), "1920x1080");
    let back = desktoporz::cli::parse_resolution(&resolution_key(SMALL)).ok().unwrap();
    assert_eq!(back, SMALL);
}

#[test]
fn store_layout_then_layout_for_gives_the_stored_icons() {
    let captured = profile("home", SMALL, vec![icon("Trash", 10, 20)]);
    let existing = profile("home", HD, vec![icon("Trash", 1, 2), icon("Docs", 3, 4)]);
    let p = store_layout(captured, Some(existing), SMALL);
    assert_eq!(p.resolution, HD);
    assert_eq!(p.icons.len(), 2);
    let small = p.layout_for(SMALL);
    assert_eq!(small.len(), 1);
    assert_eq!((small[0].name.as_str(), small[0].x, small[0].y), ("Trash", 10, 20));
    // Without a layout for a resolution, the profile's own icons are used.
    assert_eq!(p.layout_for(HD).len(), 2);
}

#[test]
fn store_layout_without_existing_profile() {
    let captured = profile("new", SMALL, vec![icon("A", 5, 6)]);
    let p = store_layout(captured, None, SMALL);
    assert_eq!(p.icons.len(), 1);
    assert_eq!(p.layout_for(SMALL)[0].x, 5);
    assert!(p.resolutions.contains_key("1366x768"));
}

#[test]
fn keep_layouts_keeps_other_resolutions() {
    let mut existing = profile("home", HD, vec![]);
    existing.resolutions.insert("1366x768".to_string(), vec![icon("A", 1, 1)]);
    let captured = profile("home", HD, vec![icon("B", 2, 2)]);
    let p = keep_layouts(captured, Some(existing));
    assert_eq!(p.icons[0].name, "B");
    assert!(p.resolutions.contains_key("1366x768"));
    let p = keep_layouts(profile("x", HD, vec![]), None);
    assert!(!p.resolutions.contains_key("1366x768"));
}

#[test]
fn update_profile_replaces_only_existing_layout() {
    let mut existing = profile("home", SMALL, vec![icon("Old", 0, 0)]);
    existing.resolutions.insert("1920x1080".to_string(), vec![icon("OldHd", 0, 0)]);
    let captured = profile("home", HD, vec![icon("New", 9, 9)]);
    let p = update_profile(existing, captured, HD);
    assert_eq!(p.resolution, HD);
    assert_eq!(p.icons[0].name, "New");
    assert_eq!(p.layout_for(HD)[0].name, "New");
    let existing = profile("home", SMALL, vec![icon("Old", 0, 0)]);
    let captured = profile("home", HD, vec![icon("New", 9, 9)]);
    let p = update_profile(existing, captured, HD);
    assert!(!p.resolutions.contains_key("1920x1080"));
}

#[test]
fn profile_names_lists_json_stems_sorted() {
    let files: Vec<String> = ["work.json", "notes.txt", "Home.json", ".json", "a.b.json", "zeta.JSON", "alpha.json"]
        .iter()
        .map(|s| s.to_string())
        .collect();
    assert_eq!(profile_names(&files), vec!["Home", "a.b", "alpha", "work"]);
    assert_eq!(json_stem("x.json"), Some("x".to_string()));
    assert_eq!(json_stem(".json"), None);
    assert_eq!(json_stem("json"), None);
    assert_eq!(profile_file_name("home"), "home.json");
    assert_eq!(join_lines(&["a".to_string(), "b".to_string()]), "a\nb");
    assert_eq!(join_lines(&[]), "");
    assert_eq!(with_warning("ok", "careful"), "ok\ncareful");
}

fn doc() -> JsonNode {
    JsonNode::Object(vec![
        ("save".to_string(), JsonNode::Object(vec![
            ("success".to_string(), JsonNode::Text("Saved {name} ({count})".to_string())),
            ("count".to_string(), JsonNode::Other),
        ])),
        ("help".to_string(), JsonNode::Object(vec![("text".to_string(), JsonNode::Text("usage".to_string()))])),
        ("top".to_string(), JsonNode::Text("level".to_string())),
    ])
}

#[test]
fn flatten_gives_dotted_keys() {
    let c = catalog_of(&doc());
    assert_eq!(c.get("save.success").unwrap(), "Saved {name} ({count})");
    assert_eq!(c.get("help.text").unwrap(), "usage");
    assert_eq!(c.get("top").unwrap(), "level");
    assert!(c.get("save.count").is_none());
    assert!(c.get("save").is_none());
}

#[test]
fn t_and_t_args() {
    let c = catalog_of(&doc());
    assert_eq!(t(&c, "help.text"), "usage");
    assert_eq!(t(&c, "missing.key"), "[missing.key]");
    assert_eq!(t_args(&c, "save.success", &[("name", "home"), ("count", "3")]), "Saved home (3)");
    assert_eq!(t_args(&c, "save.success", &[]), "Saved {name} ({count})");
}

static DOCS: BuiltinDocuments = BuiltinDocuments {
    pt_br: r#"{"lang": {"current": "Idioma atual: {lang}"}}"#,
    en_us: r#"{"lang": {"current": "Current language: {lang}"}, "top": "en"}"#,
    ru: "not json",
    zh: r#"{"a": {"b": "zh"}}"#,
    es: r#""just a string""#,
};

#[test]
fn parse_json_flattens_a_document() {
    let c = parse_json(r#"{"save": {"success": "ok", "n": 3, "list": [1]}, "x": "y"}"#).unwrap();
    assert_eq!(t(&c, "save.success"), "ok");
    assert_eq!(t(&c, "x"), "y");
    assert!(c.get("save.n").is_none());
    assert!(c.get("save.list").is_none());
    assert!(parse_json("{not json").is_none());
    let c = parse_json(r#""text""#).unwrap();
    assert_eq!(t(&c, ""), "text");
}

#[test]
fn load_translations_prefers_file_then_embedded_then_builtin() {
    let c = load_translations(Some(r#"{"top": "file"}"#), &DOCS, "en-us");
    assert_eq!(t(&c, "top"), "file");
    let c = load_translations(Some("broken"), &DOCS, "EN-US");
    assert_eq!(t(&c, "top"), "en");
    let c = load_translations(None, &DOCS, "pt-br");
    assert_eq!(t_args(&c, "lang.current", &[("lang", "pt-br")]), "Idioma atual: pt-br");
    let c = load_translations(None, &DOCS, "ru");
    assert_eq!(t(&c, "errors.generic"), "Error: {error}");
    let c = load_translations(None, &DOCS, "fr");
    assert_eq!(t(&c, "lang.current"), "Current language: {lang}");
    let f = builtin_fallback();
    assert_eq!(t_args(&f, "lang.changed", &[("lang", "ru")]), "Language changed to 'ru'.");
}

#[test]
fn embedded_language_ignores_ascii_case() {
    assert_eq!(embedded_language(&DOCS, "EN-US"), Some(DOCS.en_us));
    assert_eq!(embedded_language(&DOCS, "en-us"), embedded_language(&DOCS, "EN-US"));
    assert_eq!(embedded_language(&DOCS, "Zh"), Some(DOCS.zh));
    assert_eq!(embedded_language(&DOCS, "fr"), None);
}

#[test]
fn catalog_insert_replaces() {
    let mut c = Catalog::new();
    c.insert("a".to_string(), "1".to_string());
    c.insert("a".to_string(), "2".to_string());
    assert_eq!(c.get("a").unwrap(), "2");
}

#[test]
fn config_defaults_and_language() {
    assert_eq!(default_language(), "en-us");
    let (c, write) = resolve_config(ConfigRead::Unreadable);
    assert!(write);
    assert_eq!(c.language, "en-us");
    let (c, write) = resolve_config(ConfigRead::Parsed(None));
    assert!(!write);
    assert_eq!(c.language, "en-us");
    let mut custom = default_config();
    set_language(&mut custom, "ru");
    let (c, write) = resolve_config(ConfigRead::Parsed(Some(custom)));
    assert!(!write);
    assert_eq!(get_language(c), "ru");
    let (c, _) = resolve_config(ConfigRead::NoPath);
    assert!(c.startup.is_none() && c.wait_drive.is_none());
}
