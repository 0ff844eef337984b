use coman::config_doc::{DocItem, DocItemKind, DocValue, Found, Layer, LayerError, SetError, Shown, TomlDoc};

fn path(keys: &[&str]) -> Vec<String> {
    keys.iter().map(|k| k.to_string()).collect()
}

fn value(shown: &str, text: &str) -> DocItemKind {
    DocItemKind::Value { shown: shown.to_string(), text: text.to_string() }
}

fn plain(shown: &str, text: &str) -> DocValue {
    DocValue::Plain { shown: shown.to_string(), text: text.to_string() }
}

/// name = "proj"
/// [cscs]
/// current_system = "daint"
/// env = { A = "1" }
/// [[jobs]]
fn sample() -> TomlDoc {
    TomlDoc {
        items: vec![
            DocItem { path: path(&["name"]), kind: value("proj", "\"proj\"") },
            DocItem { path: path(&["cscs"]), kind: DocItemKind::Table { inline: false } },
            DocItem { path: path(&["cscs", "current_system"]), kind: value("daint", " \"daint\"") },
            DocItem { path: path(&["cscs", "env"]), kind: DocItemKind::Table { inline: true } },
            DocItem { path: path(&["cscs", "env", "A"]), kind: value("1", "\"1\"") },
            DocItem {
                path: path(&["jobs"]),
                kind: DocItemKind::ArrayOfTables { shown: "[{ }]".to_string(), text: "[[jobs]]\n".to_string() },
            },
        ],
    }
}

fn text_of(r: Result<Option<Shown>, LayerError>) -> Option<String> {
    match r {
        Ok(Some(Shown::Text(t))) => Some(t),
        _ => None,
    }
}

fn printed(r: Result<Option<String>, LayerError>) -> Option<String> {
    match r {
        Ok(Some(t)) => Some(t),
        _ => None,
    }
}

#[test]
fn test_config_get_finds_values() {
    let doc = sample();
    assert_eq!(text_of(doc.get("name")), Some("proj".to_string()));
    assert_eq!(text_of(doc.get("cscs.current_system")), Some("daint".to_string()));
    assert_eq!(text_of(doc.get("cscs.env.A")), Some("1".to_string()));
    assert!(matches!(doc.get("cscs"), Ok(Some(Shown::Table))));
    assert!(matches!(doc.get("cscs.env"), Ok(Some(Shown::Table))));
    assert_eq!(text_of(doc.get("jobs")), Some("[{ }]".to_string()));
}

#[test]
fn test_config_get_missing_keys() {
    let doc = sample();
    assert!(matches!(doc.get("missing"), Ok(None)));
    assert!(matches!(doc.get("cscs.missing"), Ok(None)));
    assert!(matches!(doc.get("missing.below"), Ok(None)));
}

#[test]
fn test_config_get_through_a_value_fails() {
    let doc = sample();
    match doc.get("name.first") {
        Err(LayerError::NoSubentry(t)) => assert_eq!(t, "\"proj\""),
        other => panic!("unexpected {:?}", other),
    }
    match doc.get("jobs.x") {
        Err(LayerError::NoSubentry(t)) => assert_eq!(t, "[[jobs]]\n"),
        other => panic!("unexpected {:?}", other),
    }
}

#[test]
fn test_config_bad_key_path() {
    let doc = sample();
    assert!(matches!(doc.get("a..b"), Err(LayerError::KeyPath(_))));
    let mut doc = sample();
    assert!(matches!(doc.set_value("a..b", &plain("x", "\"x\"")), Err(LayerError::KeyPath(_))));
}

#[test]
fn test_config_set_then_get() {
    let mut doc = sample();
    doc.set_value("cscs.current_system", &plain("eiger", "\"eiger\"")).unwrap();
    assert_eq!(text_of(doc.get("cscs.current_system")), Some("eiger".to_string()));
    assert_eq!(text_of(doc.get("name")), Some("proj".to_string()));
    assert_eq!(doc.items.len(), 6);
}

#[test]
fn test_config_set_makes_tables() {
    let mut doc = TomlDoc { items: vec![] };
    doc.set_value("cscs.systems.daint.architecture", &plain("x", "\"x\"")).unwrap();
    assert_eq!(text_of(doc.get("cscs.systems.daint.architecture")), Some("x".to_string()));
    assert!(matches!(doc.get("cscs"), Ok(Some(Shown::Table))));
    assert!(matches!(doc.get("cscs.systems.daint"), Ok(Some(Shown::Table))));
    assert_eq!(doc.items.len(), 4);
    match doc.lookup_path(&path(&["cscs", "systems"])) {
        Found::Item(DocItemKind::Table { inline }) => assert!(!inline),
        other => panic!("unexpected {:?}", other),
    }
}

#[test]
fn test_config_set_refusals() {
    let mut doc = sample();
    assert!(matches!(
        doc.set_value("name.first", &plain("x", "\"x\"")),
        Err(LayerError::Refused(SetError::Blocked(1)))
    ));
    assert!(matches!(
        doc.set_value("cscs.current_system.x", &plain("x", "\"x\"")),
        Err(LayerError::Refused(SetError::Blocked(2)))
    ));
    assert!(matches!(
        doc.set_value("cscs", &plain("x", "\"x\"")),
        Err(LayerError::Refused(SetError::WouldOverwrite))
    ));
    assert!(matches!(
        doc.set_value("jobs", &plain("x", "\"x\"")),
        Err(LayerError::Refused(SetError::WouldOverwrite))
    ));
    assert_eq!(doc.items.len(), 6);
    assert_eq!(doc.set(&vec![], &plain("x", "\"x\"")), Err(SetError::EmptyKeyPath));
}

#[test]
fn test_config_set_replaces_inline_table() {
    let mut doc = sample();
    doc.set_value("cscs.env", &plain("none", "\"none\"")).unwrap();
    assert_eq!(text_of(doc.get("cscs.env")), Some("none".to_string()));
    assert!(matches!(doc.get("cscs.env.A"), Err(LayerError::NoSubentry(_))));
    assert_eq!(doc.items.len(), 5);
}

#[test]
fn test_config_set_inline_table_value() {
    let mut doc = sample();
    let v = DocValue::Inline {
        items: vec![DocItem { path: path(&["B"]), kind: value("2", "2") }],
    };
    doc.set_value("cscs.extra", &v).unwrap();
    assert!(matches!(doc.get("cscs.extra"), Ok(Some(Shown::Table))));
    assert_eq!(text_of(doc.get("cscs.extra.B")), Some("2".to_string()));
}

#[test]
fn test_config_set_keeps_other_keys() {
    let before = sample();
    let mut doc = sample();
    doc.set_value("cscs.partition.name", &plain("normal", "\"normal\"")).unwrap();
    for key in ["name", "cscs.current_system", "cscs.env.A", "jobs", "missing", "name.first"] {
        assert_eq!(format!("{:?}", doc.get(key)), format!("{:?}", before.get(key)));
    }
    assert_eq!(text_of(doc.get("cscs.partition.name")), Some("normal".to_string()));
}

/// `[cscs]\nvalue=10\n`: get and set through the library's model of the
/// layer's document.
#[test]
fn test_toml_doc_get_set() {
    let mut layer = TomlDoc {
        items: vec![
            DocItem { path: path(&["cscs"]), kind: DocItemKind::Table { inline: false } },
            DocItem { path: path(&["cscs", "value"]), kind: value("10", "10") },
        ],
    };
    assert_eq!(text_of(layer.get("cscs.value")), Some("10".to_string()));
    assert!(matches!(layer.get("cscs.other_value"), Ok(None)));
    layer.set_value("cscs.other_value", &plain("20", "20")).unwrap();
    assert_eq!(text_of(layer.get("cscs.other_value")), Some("20".to_string()));
    assert_eq!(text_of(layer.get("cscs.value")), Some("10".to_string()));
}

#[test]
fn test_layer_from_path() {
    let content = "#some comment[cscs]\nvalue=10\n";
    let layer = Layer::from_text(content).expect("couldn't load config");
    assert_eq!(layer.document().to_string(), content);
}

#[test]
fn test_layer_get_set() {
    let mut layer = Layer::from_text("[cscs]\nvalue=10\n").expect("couldn't load config");
    assert_eq!(printed(layer.get("cscs.value")), Some("10".to_string()));
    assert!(matches!(layer.get("cscs.other_value"), Ok(None)));
    layer.set("cscs.other_value", toml_edit::Value::from(20)).unwrap();
    assert_eq!(printed(layer.get("cscs.other_value")), Some("20".to_string()));
    assert_eq!(printed(layer.get("cscs.value")), Some("10".to_string()));
    assert_eq!(layer.document().to_string(), "[cscs]\nvalue=10\nother_value = 20\n");
}

#[test]
fn test_layer_set_refusals_and_tables() {
    let mut layer = Layer::from_text("name = \"p\"\n[cscs]\nenv = { A = \"1\" }\n").unwrap();
    assert!(matches!(layer.set("name.x", toml_edit::Value::from(1)), Err(LayerError::Refused(SetError::Blocked(1)))));
    assert!(matches!(layer.set("cscs", toml_edit::Value::from(1)), Err(LayerError::Refused(SetError::WouldOverwrite))));
    assert!(matches!(layer.set("", toml_edit::Value::from(1)), Err(LayerError::KeyPath(_))));
    assert_eq!(layer.document().to_string(), "name = \"p\"\n[cscs]\nenv = { A = \"1\" }\n");
    let cscs = printed(layer.get("cscs")).unwrap();
    assert!(cscs.starts_with('{') && cscs.contains("env") && cscs.contains("A = \"1\""));
    let env = printed(layer.get("cscs.env")).unwrap();
    assert!(env.starts_with('{') && env.contains("A = \"1\""));
    assert_eq!(printed(layer.get("cscs.env.A")), Some("1".to_string()));
    layer.set("a.b.c", toml_edit::Value::from("x")).unwrap();
    assert_eq!(printed(layer.get("a.b.c")), Some("x".to_string()));
    assert!(printed(layer.get("a.b")).unwrap().contains("c = \"x\""));
    assert_eq!(printed(layer.get("name")), Some("p".to_string()));
    assert!(printed(layer.get_toml("name")).unwrap().contains("\"p\""));
    match layer.get("name.x") {
        Err(LayerError::NoSubentry(t)) => assert!(t.contains("\"p\"")),
        other => panic!("unexpected {:?}", other),
    }
    let empty = Layer::empty();
    assert!(matches!(empty.get("x"), Ok(None)));
}

#[test]
fn test_layer_set_keeps_key_form_and_replaces_values() {
    let mut layer = Layer::from_text("[cscs]\nvalue = 10\n").unwrap();
    layer.set("cscs.value", toml_edit::Value::from(true)).unwrap();
    assert_eq!(printed(layer.get("cscs.value")), Some("true".to_string()));
    layer.set("\"x y\".z", toml_edit::Value::from(2)).unwrap();
    assert_eq!(printed(layer.get("\"x y\".z")), Some("2".to_string()));
    assert!(layer.document().to_string().contains("\"x y\""));
    let inline: toml_edit::Value = "{ a = 1, b = \"t\" }".parse().unwrap();
    layer.set("cscs.extra", inline).unwrap();
    assert_eq!(printed(layer.get("cscs.extra.b")), Some("t".to_string()));
    assert!(matches!(layer.get("cscs.extra.a.q"), Err(LayerError::NoSubentry(_))));
}
