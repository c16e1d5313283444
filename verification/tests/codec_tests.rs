use quickchange::document::CargoConfig;
use quickchange::document::is_blank_text;

#[test]
fn default_document_is_empty() {
    let c = CargoConfig::default();
    assert!(c.source.is_none());
    assert!(c.registry.is_none());
    assert!(c.net.is_none());
    assert!(c.http.is_none());
    assert!(c.https.is_none());
    assert!(c.build.is_none());
    assert!(c.target.is_none());
    assert!(c.env.is_none());
    assert!(c.profile.is_none());
    assert!(c.alias.is_none());
    assert!(c.doc.is_none());
    assert!(c.registries.is_none());
    assert!(c.other.is_empty());
}

#[test]
fn blank_content_is_recognized() {
    assert!(is_blank_text(""));
    assert!(is_blank_text("   \n\t  "));
    assert!(!is_blank_text("[net]\noffline = true\n"));
}

#[test]
fn toml_round_trip_preserves_unknown_fields() {
    let text = r#"
[net]
offline = true

[made-up-section]
alpha = "keep me"
beta = 42

[build]
jobs = 4
mystery-key = ["a", "b"]
"#;
    let table: toml::Table = toml::from_str(text).unwrap();
    let rendered = toml::to_string_pretty(&table).unwrap();
    let reparsed: toml::Table = toml::from_str(&rendered).unwrap();
    assert_eq!(table, reparsed);
    let unknown = reparsed.get("made-up-section").unwrap().as_table().unwrap();
    assert_eq!(unknown.get("alpha").unwrap().as_str(), Some("keep me"));
    assert_eq!(unknown.get("beta").unwrap().as_integer(), Some(42));
    let build = reparsed.get("build").unwrap().as_table().unwrap();
    assert_eq!(build.get("jobs").unwrap().as_integer(), Some(4));
    assert!(build.get("mystery-key").unwrap().is_array());
    assert_eq!(reparsed.get("net").unwrap().as_table().unwrap().get("offline").unwrap().as_bool(), Some(true));
}
