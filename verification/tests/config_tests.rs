use pandoc_docs::config::{map_contains_key, map_get, map_insert_absent, map_set, ConfigEntry, ConfigValue};
use pandoc_docs::date::parse_date;
use pandoc_docs::document::{Author, Document, FormatKind};

fn entry(key: &str, value: ConfigValue) -> ConfigEntry {
    ConfigEntry { key: String::from(key), value }
}

fn str_value(s: &str) -> ConfigValue {
    ConfigValue::Str(String::from(s))
}

fn config_eq(a: &ConfigValue, b: &ConfigValue) -> bool {
    match (a, b) {
        (ConfigValue::Null, ConfigValue::Null) => true,
        (ConfigValue::Bool(x), ConfigValue::Bool(y)) => x == y,
        (ConfigValue::Int(x), ConfigValue::Int(y)) => x == y,
        (ConfigValue::Str(x), ConfigValue::Str(y)) => x == y,
        (ConfigValue::List(xs), ConfigValue::List(ys)) => {
            xs.len() == ys.len() && xs.iter().zip(ys.iter()).all(|(x, y)| config_eq(x, y))
        }
        (ConfigValue::Mapping(xs), ConfigValue::Mapping(ys)) => entries_eq(xs, ys),
        _ => false,
    }
}

fn entries_eq(a: &[ConfigEntry], b: &[ConfigEntry]) -> bool {
    a.len() == b.len()
        && a.iter()
            .zip(b.iter())
            .all(|(x, y)| x.key == y.key && config_eq(&x.value, &y.value))
}

fn doc_with_overrides(
    overrides: Option<Vec<ConfigEntry>>,
    description: Option<&str>,
    authors: Option<Vec<&str>>,
) -> Document {
    Document {
        format: FormatKind::Pandoc,
        title: String::from("The Title"),
        date: String::from("2020-06-01"),
        date_value: parse_date("2020-06-01").unwrap(),
        description: description.map(String::from),
        slug: None,
        draft: None,
        tags: None,
        authors: authors.map(|names| {
            names
                .into_iter()
                .map(|n| Author {
                    name: String::from(n),
                    email: None,
                    url: None,
                    affiliation: None,
                    affiliation_url: None,
                })
                .collect()
        }),
        bibtex: None,
        bibliography: None,
        commonmark: None,
        pandoc: overrides,
        base_dir: String::from("content/x"),
        assets: Vec::new(),
    }
}

fn metadata_of(config: &[ConfigEntry]) -> &Vec<ConfigEntry> {
    match config.iter().find(|e| e.key == "metadata").map(|e| &e.value) {
        Some(ConfigValue::Mapping(m)) => m,
        other => panic!("expected a metadata mapping, got {:?}", other),
    }
}

fn lookup<'a>(entries: &'a [ConfigEntry], key: &str) -> Option<&'a ConfigValue> {
    entries.iter().find(|e| e.key == key).map(|e| &e.value)
}

#[test]
fn merge_fills_the_defaults() {
    let d = doc_with_overrides(None, Some("About things"), Some(vec!["Ada", "Grace"]));
    let config = d.make_pandoc_config();
    let meta = metadata_of(&config);
    assert!(matches!(lookup(meta, "title"), Some(ConfigValue::Str(s)) if s == "The Title"));
    assert!(matches!(lookup(meta, "date"), Some(ConfigValue::Str(s)) if s == "2020-06-01"));
    assert!(matches!(lookup(meta, "description"), Some(ConfigValue::Str(s)) if s == "About things"));
    assert!(matches!(lookup(meta, "abstract"), Some(ConfigValue::Str(s)) if s == "About things"));
    match lookup(meta, "author") {
        Some(ConfigValue::List(names)) => {
            assert_eq!(names.len(), 2);
            assert!(matches!(&names[0], ConfigValue::Str(s) if s == "Ada"));
            assert!(matches!(&names[1], ConfigValue::Str(s) if s == "Grace"));
        }
        other => panic!("expected the author names, got {:?}", other),
    }
}

#[test]
fn merge_never_overwrites_explicit_settings() {
    let overrides = vec![
        entry("toc", ConfigValue::Bool(true)),
        entry(
            "metadata",
            ConfigValue::Mapping(vec![
                entry("title", str_value("My own title")),
                entry("abstract", str_value("My own abstract")),
            ]),
        ),
    ];
    let d = doc_with_overrides(Some(overrides), Some("Generated description"), None);
    let config = d.make_pandoc_config();
    assert!(matches!(lookup(&config, "toc"), Some(ConfigValue::Bool(true))));
    let meta = metadata_of(&config);
    assert!(matches!(lookup(meta, "title"), Some(ConfigValue::Str(s)) if s == "My own title"));
    assert!(matches!(lookup(meta, "abstract"), Some(ConfigValue::Str(s)) if s == "My own abstract"));
    // the absent keys are still filled
    assert!(matches!(lookup(meta, "date"), Some(ConfigValue::Str(s)) if s == "2020-06-01"));
    assert!(
        matches!(lookup(meta, "description"), Some(ConfigValue::Str(s)) if s == "Generated description")
    );
}

#[test]
fn merge_twice_equals_merge_once() {
    let overrides = vec![entry(
        "metadata",
        ConfigValue::Mapping(vec![entry("title", str_value("Explicit"))]),
    )];
    let mut d = doc_with_overrides(Some(overrides), Some("A description"), Some(vec!["Ada"]));
    let once = d.make_pandoc_config();
    d.pandoc = Some(pandoc_docs::config::duplicate_entries(&once));
    let twice = d.make_pandoc_config();
    assert!(entries_eq(&once, &twice));
}

#[test]
fn empty_author_list_inserts_nothing() {
    let d = doc_with_overrides(None, None, Some(vec![]));
    let config = d.make_pandoc_config();
    let meta = metadata_of(&config);
    assert!(lookup(meta, "author").is_none());
    assert!(lookup(meta, "description").is_none());
}

#[test]
fn map_operations_respect_first_bindings() {
    let mut m = vec![entry("a", ConfigValue::Int(1))];
    assert!(map_contains_key(&m, &String::from("a")));
    assert!(!map_contains_key(&m, &String::from("b")));

    map_insert_absent(&mut m, String::from("a"), ConfigValue::Int(9));
    assert!(matches!(map_get(&m, &String::from("a")), Some(ConfigValue::Int(1))));

    map_insert_absent(&mut m, String::from("b"), ConfigValue::Int(2));
    assert!(matches!(map_get(&m, &String::from("b")), Some(ConfigValue::Int(2))));

    map_set(&mut m, String::from("a"), ConfigValue::Int(7));
    assert!(matches!(map_get(&m, &String::from("a")), Some(ConfigValue::Int(7))));
    assert_eq!(m.len(), 2);
    assert_eq!(m[0].key, "a");
    assert_eq!(m[1].key, "b");
}
