//! Behaviour of the storage engine: split, merge, garbage collection,
//! duplication metadata, and the on-disk paths.

use silex_server::fs_storage::FsStorage;
use silex_server::fs_storage::stale_page_files;
use silex_server::json::JsonValue;
use silex_server::website::WebsiteData;
use silex_server::website::WebsiteMetaFileContent;

fn s(x: &str) -> JsonValue {
    JsonValue::Str(x.to_string())
}

fn obj(entries: Vec<(&str, JsonValue)>) -> JsonValue {
    JsonValue::Object(entries.into_iter().map(|(k, v)| (k.to_string(), v)).collect())
}

fn page(name: &str, id: &str) -> JsonValue {
    obj(vec![("name", s(name)), ("id", s(id)), ("body", s("content"))])
}

fn site_with_pages(pages: Vec<JsonValue>) -> WebsiteData {
    WebsiteData {
        pages,
        pages_folder: "pages".to_string(),
        assets: Vec::new(),
        styles: Vec::new(),
        settings: obj(vec![("title", s("My Site"))]),
        fonts: Vec::new(),
        symbols: Vec::new(),
        publication: JsonValue::Object(Vec::new()),
    }
}

fn find_file<'a>(files: &'a [(String, JsonValue)], path: &str) -> Option<&'a JsonValue> {
    files.iter().find(|(p, _)| p == path).map(|(_, v)| v)
}

#[test]
fn slug_examples() {
    assert_eq!(FsStorage::get_page_slug("My Page!"), "my-page");
    assert_eq!(FsStorage::get_page_slug("Hello World"), "hello-world");
    // Every non-alphanumeric character maps to its own dash; only leading
    // and trailing dashes are trimmed.
    assert_eq!(FsStorage::get_page_slug("  Hello  World  "), "hello--world");
    assert_eq!(FsStorage::get_page_slug("Home"), "home");
    assert_eq!(FsStorage::get_page_slug("About Us!"), "about-us");
    assert_eq!(FsStorage::get_page_slug(""), "");
    assert_eq!(FsStorage::get_page_slug("---"), "");
    assert_eq!(FsStorage::get_page_slug("Ünïcode Päge"), "ünïcode-päge");
}

#[test]
fn default_website_is_one_empty_page() {
    let d = WebsiteData::default();
    assert_eq!(d.pages.len(), 1);
    assert_eq!(d.pages[0], JsonValue::Object(Vec::new()));
    assert_eq!(d.pages_folder, "pages");
    assert!(d.assets.is_empty());
    assert!(d.styles.is_empty());
    assert!(d.fonts.is_empty());
    assert!(d.symbols.is_empty());
    assert_eq!(d.settings, JsonValue::Object(Vec::new()));
    assert_eq!(d.publication, JsonValue::Object(Vec::new()));
}

#[test]
fn split_names_page_files_after_slug_and_id() {
    let data = site_with_pages(vec![page("Home", "abc"), page("About Us!", "xyz")]);
    let files = FsStorage::split_website_data(&data);
    assert_eq!(files.len(), 3);
    assert_eq!(files[0].0, "pages/home-abc.json");
    assert_eq!(files[1].0, "pages/about-us-xyz.json");
    assert_eq!(files[2].0, "website.json");
}

#[test]
fn split_replaces_pages_by_ordered_references() {
    let data = site_with_pages(vec![page("Home", "abc"), page("About Us!", "xyz")]);
    let files = FsStorage::split_website_data(&data);
    let main = find_file(&files, "website.json").unwrap();
    let pages = main.get("pages").unwrap();
    let items = match pages {
        JsonValue::Array(items) => items,
        other => panic!("pages is not an array: {:?}", other),
    };
    assert_eq!(items.len(), 2);
    for (i, expected_name, expected_id) in [(0, "Home", "abc"), (1, "About Us!", "xyz")] {
        let r = &items[i];
        assert_eq!(r.get("name").unwrap(), &s(expected_name));
        assert_eq!(r.get("id").unwrap(), &s(expected_id));
        assert_eq!(r.get("isFile").unwrap(), &JsonValue::Bool(true));
    }
}

#[test]
fn split_keeps_pages_without_id_embedded() {
    let placeholder = JsonValue::Object(Vec::new());
    let data = site_with_pages(vec![placeholder.deep_copy()]);
    let files = FsStorage::split_website_data(&data);
    assert_eq!(files.len(), 1);
    assert_eq!(files[0].0, "website.json");
    let main = &files[0].1;
    let pages = main.get("pages").unwrap();
    assert_eq!(pages, &JsonValue::Array(vec![placeholder]));
}

#[test]
fn split_sorts_keys_recursively() {
    let messy = obj(vec![
        ("id", s("p1")),
        ("name", s("Zed")),
        ("inner", obj(vec![("delta", s("d")), ("alpha", s("a"))])),
    ]);
    let data = site_with_pages(vec![messy]);
    let files = FsStorage::split_website_data(&data);
    let content = find_file(&files, "pages/zed-p1.json").unwrap();
    let keys: Vec<&str> = match content {
        JsonValue::Object(entries) => entries.iter().map(|(k, _)| k.as_str()).collect(),
        other => panic!("page is not an object: {:?}", other),
    };
    assert_eq!(keys, vec!["id", "inner", "name"]);
    let inner_keys: Vec<&str> = match content.get("inner").unwrap() {
        JsonValue::Object(entries) => entries.iter().map(|(k, _)| k.as_str()).collect(),
        other => panic!("inner is not an object: {:?}", other),
    };
    assert_eq!(inner_keys, vec!["alpha", "delta"]);
}

#[test]
fn split_resolves_empty_pages_folder_to_legacy_name() {
    let mut data = site_with_pages(vec![page("Home", "abc")]);
    data.pages_folder = String::new();
    let files = FsStorage::split_website_data(&data);
    assert_eq!(files[0].0, "src/home-abc.json");
    let main = find_file(&files, "website.json").unwrap();
    assert_eq!(main.get("pagesFolder").unwrap(), &s("src"));
}

#[test]
fn split_is_deterministic_for_identical_data() {
    let make = || site_with_pages(vec![page("Home", "abc"), page("About Us!", "xyz")]);
    let once = FsStorage::split_website_data(&make());
    let twice = FsStorage::split_website_data(&make());
    assert_eq!(once.len(), twice.len());
    for (a, b) in once.iter().zip(twice.iter()) {
        assert_eq!(a.0, b.0);
        assert_eq!(a.1, b.1);
    }
}

#[test]
fn round_trip_restores_pages_and_fields() {
    let data = site_with_pages(vec![page("Home", "abc"), page("About Us!", "xyz")]);
    let files = FsStorage::split_website_data(&data);
    let main = find_file(&files, "website.json").unwrap();
    let plan = FsStorage::merge_sources(main).expect("split format expected");
    assert_eq!(plan.len(), 2);
    let loaded: Vec<Option<JsonValue>> = plan
        .iter()
        .map(|src| {
            let path = src.as_ref().expect("every page is a reference");
            Some(find_file(&files, path).expect("page file must exist").deep_copy())
        })
        .collect();
    let merged = FsStorage::merge_website_data(main, &loaded).unwrap();
    assert_eq!(merged.pages.len(), 2);
    // Page content survives, with keys sorted.
    assert_eq!(
        merged.pages[0],
        obj(vec![("body", s("content")), ("id", s("abc")), ("name", s("Home"))])
    );
    assert_eq!(
        merged.pages[1],
        obj(vec![("body", s("content")), ("id", s("xyz")), ("name", s("About Us!"))])
    );
    assert_eq!(merged.pages_folder, "pages");
    assert_eq!(merged.settings, obj(vec![("title", s("My Site"))]));
    assert!(merged.assets.is_empty());
}

#[test]
fn merge_keeps_reference_when_page_file_is_unreadable() {
    let data = site_with_pages(vec![page("Home", "abc")]);
    let files = FsStorage::split_website_data(&data);
    let main = find_file(&files, "website.json").unwrap();
    let plan = FsStorage::merge_sources(main).expect("split format expected");
    assert_eq!(plan.len(), 1);
    let loaded: Vec<Option<JsonValue>> = vec![None];
    let merged = FsStorage::merge_website_data(main, &loaded).unwrap();
    assert_eq!(merged.pages.len(), 1);
    // The reference object itself stands in for the unreadable page.
    assert_eq!(merged.pages[0].get("isFile").unwrap(), &JsonValue::Bool(true));
    assert_eq!(merged.pages[0].get("id").unwrap(), &s("abc"));
}

#[test]
fn legacy_embedded_document_is_not_split_merged() {
    let embedded = obj(vec![
        ("pages", JsonValue::Array(vec![page("Home", "abc")])),
        ("pagesFolder", s("pages")),
    ]);
    assert!(FsStorage::merge_sources(&embedded).is_none());
    let read = WebsiteData::from_json(&embedded).unwrap();
    assert_eq!(read.pages, vec![page("Home", "abc")]);
    assert_eq!(read.pages_folder, "pages");
}

#[test]
fn merge_sources_uses_legacy_folder_when_none_is_stored() {
    let refs = JsonValue::Array(vec![obj(vec![
        ("name", s("Home")),
        ("id", s("abc")),
        ("isFile", JsonValue::Bool(true)),
    ])]);
    let main = obj(vec![("pages", refs)]);
    let plan = FsStorage::merge_sources(&main).expect("split format expected");
    assert_eq!(plan, vec![Some("src/home-abc.json".to_string())]);
}

#[test]
fn update_plan_lists_kept_page_files() {
    let data = site_with_pages(vec![page("Home", "abc"), page("About Us!", "xyz")]);
    let plan = FsStorage::update_plan(&data);
    assert_eq!(plan.pages_folder, "pages");
    assert!(plan.has_page_files);
    assert_eq!(
        plan.kept_page_files,
        vec!["home-abc.json".to_string(), "about-us-xyz.json".to_string()]
    );
}

#[test]
fn update_plan_without_page_files() {
    let data = site_with_pages(vec![JsonValue::Object(Vec::new())]);
    let plan = FsStorage::update_plan(&data);
    assert!(!plan.has_page_files);
    assert!(plan.kept_page_files.is_empty());
}

#[test]
fn removing_a_page_deletes_exactly_its_file() {
    let first = site_with_pages(vec![page("Home", "abc"), page("About Us!", "xyz")]);
    let first_plan = FsStorage::update_plan(&first);
    // The pages directory now holds what the first update wrote.
    let existing = first_plan.kept_page_files.clone();
    let second = site_with_pages(vec![page("Home", "abc")]);
    let second_plan = FsStorage::update_plan(&second);
    let stale = stale_page_files(&existing, &second_plan.kept_page_files);
    assert_eq!(stale, vec!["about-us-xyz.json".to_string()]);
}

#[test]
fn garbage_collection_spares_files_without_json_suffix() {
    let existing = vec![
        "home-abc.json".to_string(),
        "notes.txt".to_string(),
        "stale-old.json".to_string(),
    ];
    let keep = vec!["home-abc.json".to_string()];
    let stale = stale_page_files(&existing, &keep);
    assert_eq!(stale, vec!["stale-old.json".to_string()]);
}

#[test]
fn duplicated_meta_appends_copy_to_the_name() {
    let meta = WebsiteMetaFileContent {
        name: "My Site".to_string(),
        image_url: Some("http://example.test/preview.png".to_string()),
        connector_user_settings: vec![("fs-storage".to_string(), obj(vec![("k", s("v"))]))],
    };
    let dup = FsStorage::duplicated_meta(&meta);
    assert_eq!(dup.name, "My Site copy");
    assert_eq!(dup.image_url, meta.image_url);
    assert_eq!(dup.connector_user_settings[0].0, "fs-storage");
    assert_eq!(dup.connector_user_settings[0].1, obj(vec![("k", s("v"))]));
}

#[test]
fn website_directory_paths() {
    let storage = FsStorage::new("/data".to_string(), "assets".to_string());
    assert_eq!(storage.website_path("w1"), "/data/w1");
    assert_eq!(storage.website_data_path("w1"), "/data/w1/website.json");
    assert_eq!(storage.website_meta_path("w1"), "/data/w1/meta.json");
    assert_eq!(storage.assets_path("w1"), "/data/w1/assets");
}

#[test]
fn asset_paths_normalize_leading_slashes() {
    let storage = FsStorage::new("/data".to_string(), "assets".to_string());
    let (full, stored) = storage.asset_write_path("w1", "/images/logo.png");
    assert_eq!(full, "/data/w1/assets/images/logo.png");
    assert_eq!(stored, "/images/logo.png");
    let read = storage.asset_read_path("w1", "///images/logo.png");
    assert_eq!(read, "/data/w1/assets/images/logo.png");
}

#[test]
fn scenario_create_update_remove() {
    // A fresh website: exactly one empty-object page and the default folder.
    let created = WebsiteData::default();
    assert_eq!(created.pages, vec![JsonValue::Object(Vec::new())]);
    assert_eq!(created.pages_folder, "pages");

    // Add two named pages and update.
    let updated = site_with_pages(vec![page("Home", "abc"), page("About Us!", "xyz")]);
    let plan = FsStorage::update_plan(&updated);
    let paths: Vec<&str> = plan.files.iter().map(|(p, _)| p.as_str()).collect();
    assert_eq!(paths, vec!["pages/home-abc.json", "pages/about-us-xyz.json", "website.json"]);
    let main = find_file(&plan.files, "website.json").unwrap();
    let refs = match main.get("pages").unwrap() {
        JsonValue::Array(items) => items.clone(),
        other => panic!("pages is not an array: {:?}", other),
    };
    assert_eq!(refs.len(), 2);
    assert_eq!(refs[0].get("id").unwrap(), &s("abc"));
    assert_eq!(refs[1].get("id").unwrap(), &s("xyz"));
    assert!(refs.iter().all(|r| r.get("isFile") == Some(&JsonValue::Bool(true))));

    // Remove the second page and update again: exactly its file is deleted.
    let third = site_with_pages(vec![page("Home", "abc")]);
    let third_plan = FsStorage::update_plan(&third);
    let stale = stale_page_files(&plan.kept_page_files, &third_plan.kept_page_files);
    assert_eq!(stale, vec!["about-us-xyz.json".to_string()]);
    assert!(third_plan.kept_page_files.contains(&"home-abc.json".to_string()));
}
