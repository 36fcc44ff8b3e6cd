//! Behaviour of the document model: lookups, key sorting, and the JSON
//! bindings of the website document and its metadata.

use silex_server::json::JsonValue;
use silex_server::json::sort_json_keys;
use silex_server::website::WebsiteData;
use silex_server::website::WebsiteMeta;
use silex_server::website::WebsiteMetaFileContent;
use silex_server::website::default_pages_folder;
use silex_server::website::legacy_pages_folder;
use silex_server::website::website_data_file;
use silex_server::website::website_meta_data_file;

fn s(x: &str) -> JsonValue {
    JsonValue::Str(x.to_string())
}

fn obj(entries: Vec<(&str, JsonValue)>) -> JsonValue {
    JsonValue::Object(entries.into_iter().map(|(k, v)| (k.to_string(), v)).collect())
}

#[test]
fn file_name_constants() {
    assert_eq!(website_data_file(), "website.json");
    assert_eq!(website_meta_data_file(), "meta.json");
    assert_eq!(legacy_pages_folder(), "src");
    assert_eq!(default_pages_folder(), "pages");
}

#[test]
fn lookup_finds_the_first_occurrence() {
    let doc = obj(vec![("a", s("first")), ("b", s("other")), ("a", s("second"))]);
    assert_eq!(doc.get("a"), Some(&s("first")));
    assert_eq!(doc.get("b"), Some(&s("other")));
    assert_eq!(doc.get("c"), None);
    assert_eq!(s("not an object").get("a"), None);
}

#[test]
fn scalar_accessors() {
    assert_eq!(s("text").as_str(), Some(&"text".to_string()));
    assert_eq!(JsonValue::Bool(true).as_bool(), Some(true));
    assert_eq!(JsonValue::Null.as_str(), None);
    assert_eq!(s("text").as_bool(), None);
    assert_eq!(JsonValue::Num("1.5".to_string()).as_str(), None);
}

#[test]
fn deep_copy_is_structural() {
    let doc = obj(vec![
        ("list", JsonValue::Array(vec![s("a"), JsonValue::Num("2".to_string())])),
        ("flag", JsonValue::Bool(false)),
        ("nothing", JsonValue::Null),
    ]);
    assert_eq!(doc.deep_copy(), doc);
}

#[test]
fn sorting_orders_keys_at_every_level() {
    let messy = obj(vec![
        ("zeta", s("z")),
        ("alpha", obj(vec![("d", s("d")), ("c", s("c")), ("b", s("b"))])),
        ("list", JsonValue::Array(vec![obj(vec![("y", s("y")), ("x", s("x"))])])),
    ]);
    let sorted = sort_json_keys(&messy);
    assert_eq!(
        sorted,
        obj(vec![
            ("alpha", obj(vec![("b", s("b")), ("c", s("c")), ("d", s("d"))])),
            ("list", JsonValue::Array(vec![obj(vec![("x", s("x")), ("y", s("y"))])])),
            ("zeta", s("z")),
        ])
    );
}

#[test]
fn sorting_keeps_array_order() {
    let doc = JsonValue::Array(vec![s("c"), s("a"), s("b")]);
    assert_eq!(sort_json_keys(&doc), doc);
}

#[test]
fn sorting_scalars_is_identity() {
    assert_eq!(sort_json_keys(&JsonValue::Null), JsonValue::Null);
    assert_eq!(sort_json_keys(&JsonValue::Bool(true)), JsonValue::Bool(true));
    assert_eq!(
        sort_json_keys(&JsonValue::Num("3.25".to_string())),
        JsonValue::Num("3.25".to_string())
    );
    assert_eq!(sort_json_keys(&s("x")), s("x"));
}

#[test]
fn website_data_reads_defaults_for_missing_fields() {
    let read = WebsiteData::from_json(&JsonValue::Object(Vec::new())).unwrap();
    assert!(read.pages.is_empty());
    assert_eq!(read.pages_folder, "pages");
    assert!(read.assets.is_empty());
    assert!(read.styles.is_empty());
    assert!(read.fonts.is_empty());
    assert!(read.symbols.is_empty());
    assert_eq!(read.settings, JsonValue::Null);
    assert_eq!(read.publication, JsonValue::Null);
}

#[test]
fn website_data_ignores_unknown_fields() {
    let doc = obj(vec![
        ("pagesFolder", s("content")),
        ("somethingElse", s("ignored")),
        ("settings", obj(vec![("lang", s("en"))])),
    ]);
    let read = WebsiteData::from_json(&doc).unwrap();
    assert_eq!(read.pages_folder, "content");
    assert_eq!(read.settings, obj(vec![("lang", s("en"))]));
}

#[test]
fn website_data_rejects_wrong_shapes() {
    assert!(WebsiteData::from_json(&s("not an object")).is_err());
    let bad_pages = obj(vec![("pages", s("not an array"))]);
    assert!(WebsiteData::from_json(&bad_pages).is_err());
    let bad_folder = obj(vec![("pagesFolder", JsonValue::Bool(true))]);
    assert!(WebsiteData::from_json(&bad_folder).is_err());
    let bad_assets = obj(vec![("assets", JsonValue::Null)]);
    assert!(WebsiteData::from_json(&bad_assets).is_err());
}

#[test]
fn meta_round_trips_through_json() {
    let meta = WebsiteMetaFileContent {
        name: "My Site".to_string(),
        image_url: Some("http://example.test/p.png".to_string()),
        connector_user_settings: vec![("fs-storage".to_string(), obj(vec![("k", s("v"))]))],
    };
    let doc = meta.to_json();
    assert_eq!(doc.get("name").unwrap(), &s("My Site"));
    assert_eq!(doc.get("imageUrl").unwrap(), &s("http://example.test/p.png"));
    let back = WebsiteMetaFileContent::from_json(&doc).unwrap();
    assert_eq!(back.name, "My Site");
    assert_eq!(back.image_url, Some("http://example.test/p.png".to_string()));
    assert_eq!(back.connector_user_settings.len(), 1);
    assert_eq!(back.connector_user_settings[0].0, "fs-storage");
}

#[test]
fn meta_without_image_omits_the_field() {
    let meta = WebsiteMetaFileContent {
        name: "Plain".to_string(),
        image_url: None,
        connector_user_settings: Vec::new(),
    };
    let doc = meta.to_json();
    assert_eq!(doc.get("imageUrl"), None);
    let back = WebsiteMetaFileContent::from_json(&doc).unwrap();
    assert!(back.image_url.is_none());
    assert!(back.connector_user_settings.is_empty());
}

#[test]
fn meta_requires_a_name() {
    assert!(WebsiteMetaFileContent::from_json(&JsonValue::Object(Vec::new())).is_err());
    let named = obj(vec![("name", s("ok"))]);
    let read = WebsiteMetaFileContent::from_json(&named).unwrap();
    assert_eq!(read.name, "ok");
    let bad_name = obj(vec![("name", JsonValue::Bool(true))]);
    assert!(WebsiteMetaFileContent::from_json(&bad_name).is_err());
    let null_image = obj(vec![("name", s("ok")), ("imageUrl", JsonValue::Null)]);
    assert!(WebsiteMetaFileContent::from_json(&null_image).unwrap().image_url.is_none());
}

#[test]
fn meta_combines_file_content_and_timestamps() {
    let content = WebsiteMetaFileContent {
        name: "My Site".to_string(),
        image_url: None,
        connector_user_settings: Vec::new(),
    };
    let meta = WebsiteMeta::from_file_content("w1".to_string(), content, Some(1000), Some(2000));
    assert_eq!(meta.website_id, "w1");
    assert_eq!(meta.name, "My Site");
    assert!(meta.image_url.is_none());
    assert_eq!(meta.created_at, Some(1000));
    assert_eq!(meta.updated_at, Some(2000));
}
