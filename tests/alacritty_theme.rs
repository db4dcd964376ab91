use bombadil_theme::alacritty::AlacrityColors;
use bombadil_theme::error::ConfigError;
use bombadil_theme::patch::{parse_document, render_document, replace_subsection};
use bombadil_theme::target::{apply_theme, ToConfig};
use bombadil_theme::theme::Theme;
use serde_yaml::Value;

fn sample_theme() -> Theme {
    Theme {
        background: "#000000".to_string(),
        foreground: "#ffffff".to_string(),
        text: "#101010".to_string(),
        cursor: "#f0f0f0".to_string(),
        black: "#000001".to_string(),
        red: "#000002".to_string(),
        green: "#000003".to_string(),
        yellow: "#000004".to_string(),
        blue: "#000005".to_string(),
        magenta: "#000006".to_string(),
        cyan: "#000007".to_string(),
        white: "#000008".to_string(),
        light_black: "#100001".to_string(),
        light_red: "#100002".to_string(),
        light_green: "#100003".to_string(),
        light_yellow: "#100004".to_string(),
        light_blue: "#100005".to_string(),
        light_magenta: "#100006".to_string(),
        light_cyan: "#100007".to_string(),
        light_white: "#100008".to_string(),
    }
}

fn theme_colors(t: &Theme) -> Vec<String> {
    vec![
        t.background.clone(), t.foreground.clone(), t.text.clone(), t.cursor.clone(),
        t.black.clone(), t.red.clone(), t.green.clone(), t.yellow.clone(),
        t.blue.clone(), t.magenta.clone(), t.cyan.clone(), t.white.clone(),
        t.light_black.clone(), t.light_red.clone(), t.light_green.clone(),
        t.light_yellow.clone(), t.light_blue.clone(), t.light_magenta.clone(),
        t.light_cyan.clone(), t.light_white.clone(),
    ]
}

fn block_colors(c: &AlacrityColors) -> Vec<String> {
    let p = |p: &bombadil_theme::alacritty::Palette| {
        vec![
            p.black.clone(), p.red.clone(), p.green.clone(), p.yellow.clone(),
            p.blue.clone(), p.magenta.clone(), p.cyan.clone(), p.white.clone(),
        ]
    };
    let mut v = vec![
        c.primary.background.clone(),
        c.primary.foreground.clone(),
        c.cursor.text.clone(),
        c.cursor.cursor.clone(),
    ];
    v.extend(p(&c.normal));
    v.extend(p(&c.bright));
    v
}

fn get<'a>(v: &'a Value, path: &[&str]) -> &'a Value {
    let mut cur = v;
    for k in path {
        cur = cur.get(*k).unwrap_or_else(|| panic!("missing key {}", k));
    }
    cur
}

const CONFIG: &str = "colors:\n  primary:\n    background: '#111111'\n    foreground: '#222222'\nfont:\n  size: 12\n";

#[test]
fn from_theme_maps_every_field_once() {
    let t = sample_theme();
    let c = AlacrityColors::from_theme(t.clone());
    assert_eq!(c.primary.background, "#000000");
    assert_eq!(c.primary.foreground, "#ffffff");
    assert_eq!(c.cursor.text, "#101010");
    assert_eq!(c.cursor.cursor, "#f0f0f0");
    assert_eq!(c.normal.black, "#000001");
    assert_eq!(c.normal.white, "#000008");
    assert_eq!(c.bright.black, "#100001");
    assert_eq!(c.bright.white, "#100008");
    assert_eq!(block_colors(&c), theme_colors(&t));
    let back = c.to_theme();
    assert_eq!(theme_colors(&back), theme_colors(&t));
}

#[test]
fn from_theme_is_deterministic() {
    let a = AlacrityColors::from_theme(sample_theme());
    let b = AlacrityColors::from_theme(sample_theme());
    assert_eq!(block_colors(&a), block_colors(&b));
}

#[test]
fn block_value_has_alacritty_shape() {
    let c = AlacrityColors::from_theme(sample_theme());
    let v = c.to_value();
    let keys: Vec<&str> = v.as_mapping().unwrap().keys().map(|k| k.as_str().unwrap()).collect();
    assert_eq!(keys, vec!["primary", "cursor", "normal", "bright"]);
    assert_eq!(get(&v, &["primary", "background"]).as_str(), Some("#000000"));
    assert_eq!(get(&v, &["cursor", "cursor"]).as_str(), Some("#f0f0f0"));
    assert_eq!(get(&v, &["normal", "magenta"]).as_str(), Some("#000006"));
    assert_eq!(get(&v, &["bright", "cyan"]).as_str(), Some("#100007"));
    let palette: Vec<&str> =
        get(&v, &["bright"]).as_mapping().unwrap().keys().map(|k| k.as_str().unwrap()).collect();
    assert_eq!(palette, vec!["black", "red", "green", "yellow", "blue", "magenta", "cyan", "white"]);
}

#[test]
fn key_path_is_colors() {
    assert_eq!(AlacrityColors::key_path(), vec!["colors".to_string()]);
}

#[test]
fn patch_keeps_font_and_sets_background() {
    let out = apply_theme::<AlacrityColors>(CONFIG, sample_theme()).unwrap();
    let doc: Value = serde_yaml::from_str(&out).unwrap();
    assert_eq!(get(&doc, &["font", "size"]).as_i64(), Some(12));
    assert_eq!(get(&doc, &["colors", "primary", "background"]).as_str(), Some("#000000"));
    assert_eq!(get(&doc, &["colors", "primary", "foreground"]).as_str(), Some("#ffffff"));
    assert_eq!(get(&doc, &["colors", "bright", "white"]).as_str(), Some("#100008"));
}

#[test]
fn patch_preserves_unrelated_keys() {
    let text = "window:\n  opacity: 1\n  padding:\n    x: 3\nshell: zsh\ncolors: {}\nkeys:\n  - a\n  - b\n";
    let before: Value = serde_yaml::from_str(text).unwrap();
    let out = apply_theme::<AlacrityColors>(text, sample_theme()).unwrap();
    let after: Value = serde_yaml::from_str(&out).unwrap();
    for k in ["window", "shell", "keys"] {
        assert_eq!(after.get(k), before.get(k));
    }
    let keys: Vec<&str> =
        after.as_mapping().unwrap().keys().map(|k| k.as_str().unwrap()).collect();
    assert_eq!(keys, vec!["window", "shell", "colors", "keys"]);
    let expected = AlacrityColors::from_theme(sample_theme()).to_value();
    assert_eq!(after.get("colors"), Some(&expected));
}

#[test]
fn patch_twice_equals_patch_once() {
    let once = apply_theme::<AlacrityColors>(CONFIG, sample_theme()).unwrap();
    let twice = apply_theme::<AlacrityColors>(&once, sample_theme()).unwrap();
    let a: Value = serde_yaml::from_str(&once).unwrap();
    let b: Value = serde_yaml::from_str(&twice).unwrap();
    assert_eq!(a, b);
    assert_eq!(once, twice);
}

#[test]
fn patch_without_colors_is_schema_error() {
    let text = "font:\n  size: 12\n";
    assert_eq!(apply_theme::<AlacrityColors>(text, sample_theme()), Err(ConfigError::Schema));
}

#[test]
fn patch_of_scalar_document_is_schema_error() {
    assert_eq!(apply_theme::<AlacrityColors>("just text", sample_theme()), Err(ConfigError::Schema));
}

#[test]
fn patch_of_invalid_yaml_is_parse_error() {
    let text = "colors: [unclosed\n";
    assert_eq!(apply_theme::<AlacrityColors>(text, sample_theme()), Err(ConfigError::Parse));
}

#[test]
fn parse_document_reads_mapping() {
    let doc = parse_document("a: 1\nb: two\n").unwrap();
    assert_eq!(doc.get("b").and_then(|v| v.as_str()), Some("two"));
    assert_eq!(parse_document("a: [1").err(), Some(ConfigError::Parse));
}

#[test]
fn render_document_writes_yaml() {
    let doc = parse_document("a: 1\nb: two\n").unwrap();
    let text = render_document(&doc).unwrap();
    assert_eq!(text, "a: 1\nb: two\n");
}

#[test]
fn replace_subsection_nested_path() {
    let mut doc = parse_document("a:\n  b:\n    c: 1\n  d: 2\ne: 3\n").unwrap();
    let path = vec!["a".to_string(), "b".to_string()];
    let section = Value::String("new".to_string());
    assert_eq!(replace_subsection(&mut doc, &path, section), Ok(()));
    assert_eq!(get(&doc, &["a", "b"]).as_str(), Some("new"));
    assert_eq!(get(&doc, &["a", "d"]).as_i64(), Some(2));
    assert_eq!(get(&doc, &["e"]).as_i64(), Some(3));
}

#[test]
fn replace_subsection_empty_path_replaces_document() {
    let mut doc = parse_document("a: 1\n").unwrap();
    let section = Value::String("whole".to_string());
    assert_eq!(replace_subsection(&mut doc, &Vec::new(), section.clone()), Ok(()));
    assert_eq!(doc, section);
}

#[test]
fn replace_subsection_missing_segment_leaves_document() {
    let mut doc = parse_document("a:\n  b: 1\n").unwrap();
    let before = doc.clone();
    let path = vec!["a".to_string(), "x".to_string(), "y".to_string()];
    let r = replace_subsection(&mut doc, &path, Value::Null);
    assert_eq!(r, Err(ConfigError::Schema));
    assert_eq!(doc, before);
    let path = vec!["a".to_string(), "b".to_string(), "c".to_string()];
    assert_eq!(replace_subsection(&mut doc, &path, Value::Null), Err(ConfigError::Schema));
    assert_eq!(doc, before);
}

#[test]
fn tagged_key_counts_as_its_string() {
    let mut doc = parse_document("!t colors: old\nother: 1\n").unwrap();
    let path = vec!["colors".to_string()];
    assert_eq!(replace_subsection(&mut doc, &path, Value::String("new".to_string())), Ok(()));
    let values: Vec<&Value> = doc.as_mapping().unwrap().values().collect();
    assert_eq!(values[0].as_str(), Some("new"));
    assert_eq!(values[1].as_i64(), Some(1));
}
