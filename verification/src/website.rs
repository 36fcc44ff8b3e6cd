//! Website data: the editable document, its on-disk metadata, and the file
//! unit used for uploads and publication.
//!
//! The main document holds the pages plus pass-through fields (assets,
//! styles, settings, fonts, symbols, publication).  Reading it from JSON
//! follows the storage format: a missing field takes its default, a field of
//! the wrong shape is an error, unknown fields are ignored.

use vstd::prelude::*;

use crate::error::ConnectorError;
use crate::json::Jv;
use crate::json::JsonValue;
use crate::json::copy_entries;
use crate::json::copy_values;
use crate::json::jes_of;
use crate::json::jv_get;
use crate::json::jvs_of;
use crate::json::lemma_jes_of;

verus! {

/// Name of the main data file inside a website directory.
pub fn website_data_file() -> (r: &'static str)
    ensures
        r@ == "website.json"@,
{
    "website.json"
}

/// Name of the metadata file inside a website directory.
pub fn website_meta_data_file() -> (r: &'static str)
    ensures
        r@ == "meta.json"@,
{
    "meta.json"
}

/// Pages folder used by old sites that never stored a folder name.
pub fn legacy_pages_folder() -> (r: &'static str)
    ensures
        r@ == "src"@,
{
    "src"
}

/// Pages folder given to a newly created site.
pub fn default_pages_folder() -> (r: String)
    ensures
        r@ == "pages"@,
{
    "pages".to_owned()
}

/// Mathematical model of a website document.
pub ghost struct WData {
    pub pages: Seq<Jv>,
    pub pages_folder: Seq<char>,
    pub assets: Seq<Jv>,
    pub styles: Seq<Jv>,
    pub settings: Jv,
    pub fonts: Seq<Jv>,
    pub symbols: Seq<Jv>,
    pub publication: Jv,
}

/// Full website data: the pages and every pass-through field.
#[derive(Debug)]
pub struct WebsiteData {
    /// Page documents, in editor order.
    pub pages: Vec<JsonValue>,
    /// Folder where individual page files are stored; empty means the
    /// legacy folder name applies.
    pub pages_folder: String,
    /// Asset descriptions.
    pub assets: Vec<JsonValue>,
    /// Style rules.
    pub styles: Vec<JsonValue>,
    /// Site settings.
    pub settings: JsonValue,
    /// Font definitions.
    pub fonts: Vec<JsonValue>,
    /// Reusable components.
    pub symbols: Vec<JsonValue>,
    /// Publication settings.
    pub publication: JsonValue,
}

impl View for WebsiteData {
    type V = WData;

    open spec fn view(&self) -> WData {
        WData {
            pages: jvs_of(self.pages@),
            pages_folder: self.pages_folder@,
            assets: jvs_of(self.assets@),
            styles: jvs_of(self.styles@),
            settings: self.settings@,
            fonts: jvs_of(self.fonts@),
            symbols: jvs_of(self.symbols@),
            publication: self.publication@,
        }
    }
}

/// The document a freshly created website starts with: exactly one empty
/// page, the default pages folder, and empty pass-through fields.
pub open spec fn spec_default_website_data() -> WData {
    WData {
        pages: seq![Jv::Obj(Seq::empty())],
        pages_folder: "pages"@,
        assets: Seq::empty(),
        styles: Seq::empty(),
        settings: Jv::Obj(Seq::empty()),
        fonts: Seq::empty(),
        symbols: Seq::empty(),
        publication: Jv::Obj(Seq::empty()),
    }
}

impl Default for WebsiteData {
    /// The default document: one empty page so the editor can open the site.
    fn default() -> (r: Self)
        ensures
            r@ == spec_default_website_data(),
    {
        let empty_entries: Vec<(String, JsonValue)> = Vec::new();
        let first_page = JsonValue::Object(empty_entries);
        proof {
            assert(jes_of(Seq::<(String, JsonValue)>::empty()) =~= Seq::<(Seq<char>, Jv)>::empty());
            assert(first_page@ == Jv::Obj(Seq::<(Seq<char>, Jv)>::empty()));
        }
        let mut pages: Vec<JsonValue> = Vec::new();
        pages.push(first_page);
        let r = WebsiteData {
            pages,
            pages_folder: default_pages_folder(),
            assets: Vec::new(),
            styles: Vec::new(),
            settings: JsonValue::Object(Vec::new()),
            fonts: Vec::new(),
            symbols: Vec::new(),
            publication: JsonValue::Object(Vec::new()),
        };
        proof {
            assert(jes_of(Seq::<(String, JsonValue)>::empty()) =~= Seq::<(Seq<char>, Jv)>::empty());
            assert(jvs_of(Seq::<JsonValue>::empty()) =~= Seq::<Jv>::empty());
            assert(r.pages@.drop_first() =~= Seq::<JsonValue>::empty());
            assert(jvs_of(r.pages@) =~= seq![Jv::Obj(Seq::<(Seq<char>, Jv)>::empty())]);
        }
        r
    }
}

/// An array-valued field: the default when missing, the items when present
/// as an array, nothing (an error) otherwise.
pub open spec fn arr_field(
    es: Seq<(Seq<char>, Jv)>,
    k: Seq<char>,
    dflt: Seq<Jv>,
) -> Option<Seq<Jv>> {
    match jv_get(es, k) {
        Option::None => Option::Some(dflt),
        Option::Some(v) => match v {
            Jv::Arr(items) => Option::Some(items),
            _ => Option::None,
        },
    }
}

/// A string-valued field: the default when missing, the text when present
/// as a string, nothing (an error) otherwise.
pub open spec fn str_field(
    es: Seq<(Seq<char>, Jv)>,
    k: Seq<char>,
    dflt: Seq<char>,
) -> Option<Seq<char>> {
    match jv_get(es, k) {
        Option::None => Option::Some(dflt),
        Option::Some(v) => match v {
            Jv::Str(s) => Option::Some(s),
            _ => Option::None,
        },
    }
}

/// A field that passes through verbatim, with a default when missing.
pub open spec fn any_field(es: Seq<(Seq<char>, Jv)>, k: Seq<char>, dflt: Jv) -> Jv {
    match jv_get(es, k) {
        Option::None => dflt,
        Option::Some(v) => v,
    }
}

/// How a website document is read from its JSON form: the document must be
/// an object; a missing field takes its default, a field of the wrong shape
/// makes the whole read fail, unknown fields are ignored.
pub open spec fn spec_wd_from_json(j: Jv) -> Option<WData> {
    match j {
        Jv::Obj(es) => {
            let pages = arr_field(es, "pages"@, Seq::empty());
            let folder = str_field(es, "pagesFolder"@, "pages"@);
            let assets = arr_field(es, "assets"@, Seq::empty());
            let styles = arr_field(es, "styles"@, Seq::empty());
            let fonts = arr_field(es, "fonts"@, Seq::empty());
            let symbols = arr_field(es, "symbols"@, Seq::empty());
            match (pages, folder, assets, styles, fonts, symbols) {
                (
                    Option::Some(pages),
                    Option::Some(folder),
                    Option::Some(assets),
                    Option::Some(styles),
                    Option::Some(fonts),
                    Option::Some(symbols),
                ) => Option::Some(
                    WData {
                        pages: pages,
                        pages_folder: folder,
                        assets: assets,
                        styles: styles,
                        settings: any_field(es, "settings"@, Jv::Null),
                        fonts: fonts,
                        symbols: symbols,
                        publication: any_field(es, "publication"@, Jv::Null),
                    },
                ),
                _ => Option::None,
            }
        },
        _ => Option::None,
    }
}

/// Read an array-valued field, copying its items.
fn read_arr_field(v: &JsonValue, key: &str) -> (r: Result<Vec<JsonValue>, ConnectorError>)
    requires
        v@ is Obj,
    ensures
        match r {
            Ok(items) => arr_field(v@->Obj_0, key@, Seq::empty()) == Option::Some(jvs_of(items@)),
            Err(e) => arr_field(v@->Obj_0, key@, Seq::empty()) is None && e is Json,
        },
{
    match v.get(key) {
        Option::None => {
            proof {
                assert(jvs_of(Seq::<JsonValue>::empty()) =~= Seq::<Jv>::empty());
            }
            Ok(Vec::new())
        },
        Option::Some(x) => match x.as_array() {
            Option::Some(items) => Ok(copy_values(items)),
            Option::None => Err(
                ConnectorError::Json("website data field is not an array".to_owned()),
            ),
        },
    }
}

impl WebsiteData {
    /// Read a website document from its JSON form.
    pub fn from_json(v: &JsonValue) -> (r: Result<WebsiteData, ConnectorError>)
        ensures
            match r {
                Ok(w) => spec_wd_from_json(v@) == Option::Some(w@),
                Err(e) => spec_wd_from_json(v@) is None && e is Json,
            },
    {
        if v.as_object().is_none() {
            return Err(ConnectorError::Json("website data is not an object".to_owned()));
        }
        let pages: Vec<JsonValue> = match read_arr_field(v, "pages") {
            Ok(items) => items,
            Err(e) => {
                return Err(e);
            },
        };
        let pages_folder: String = match v.get("pagesFolder") {
            Option::None => default_pages_folder(),
            Option::Some(x) => match x.as_str() {
                Option::Some(s) => s.clone(),
                Option::None => {
                    return Err(
                        ConnectorError::Json("website data pagesFolder is not a string".to_owned()),
                    );
                },
            },
        };
        let assets: Vec<JsonValue> = match read_arr_field(v, "assets") {
            Ok(items) => items,
            Err(e) => {
                return Err(e);
            },
        };
        let styles: Vec<JsonValue> = match read_arr_field(v, "styles") {
            Ok(items) => items,
            Err(e) => {
                return Err(e);
            },
        };
        let fonts: Vec<JsonValue> = match read_arr_field(v, "fonts") {
            Ok(items) => items,
            Err(e) => {
                return Err(e);
            },
        };
        let symbols: Vec<JsonValue> = match read_arr_field(v, "symbols") {
            Ok(items) => items,
            Err(e) => {
                return Err(e);
            },
        };
        let settings: JsonValue = match v.get("settings") {
            Option::None => JsonValue::Null,
            Option::Some(x) => x.deep_copy(),
        };
        let publication: JsonValue = match v.get("publication") {
            Option::None => JsonValue::Null,
            Option::Some(x) => x.deep_copy(),
        };
        Ok(
            WebsiteData {
                pages,
                pages_folder,
                assets,
                styles,
                settings,
                fonts,
                symbols,
                publication,
            },
        )
    }
}

/// Mathematical model of the metadata file.
pub ghost struct MetaV {
    pub name: Seq<char>,
    pub image_url: Option<Seq<char>>,
    pub connector_user_settings: Seq<(Seq<char>, Jv)>,
}

/// Content of the metadata file stored alongside the website data.
#[derive(Debug)]
pub struct WebsiteMetaFileContent {
    /// Human-readable website name.
    pub name: String,
    /// Preview image URL, when one was set.
    pub image_url: Option<String>,
    /// Per-connector settings for this website, keyed by connector id.
    pub connector_user_settings: Vec<(String, JsonValue)>,
}

impl View for WebsiteMetaFileContent {
    type V = MetaV;

    open spec fn view(&self) -> MetaV {
        MetaV {
            name: self.name@,
            image_url: match self.image_url {
                Option::Some(u) => Option::Some(u@),
                Option::None => Option::None,
            },
            connector_user_settings: jes_of(self.connector_user_settings@),
        }
    }
}

/// The JSON form of the metadata file: the name, the preview image URL when
/// one is set (omitted otherwise), and the per-connector settings.
pub open spec fn spec_meta_json(m: MetaV) -> Jv {
    Jv::Obj(
        seq![("name"@, Jv::Str(m.name))] + (match m.image_url {
            Option::Some(u) => seq![("imageUrl"@, Jv::Str(u))],
            Option::None => Seq::empty(),
        }) + seq![("connectorUserSettings"@, Jv::Obj(m.connector_user_settings))],
    )
}

/// How the metadata file is read back: the name is required; a missing or
/// null image URL means none; missing settings mean none.
pub open spec fn spec_meta_from_json(j: Jv) -> Option<MetaV> {
    match j {
        Jv::Obj(es) => {
            let name = match jv_get(es, "name"@) {
                Option::Some(v) => match v {
                    Jv::Str(s) => Option::Some(s),
                    _ => Option::None,
                },
                Option::None => Option::None,
            };
            let image = match jv_get(es, "imageUrl"@) {
                Option::None => Option::Some(Option::None),
                Option::Some(v) => match v {
                    Jv::Null => Option::Some(Option::None),
                    Jv::Str(u) => Option::Some(Option::Some(u)),
                    _ => Option::None,
                },
            };
            let cus = match jv_get(es, "connectorUserSettings"@) {
                Option::None => Option::Some(Seq::<(Seq<char>, Jv)>::empty()),
                Option::Some(v) => match v {
                    Jv::Obj(inner) => Option::Some(inner),
                    _ => Option::None,
                },
            };
            match (name, image, cus) {
                (Option::Some(name), Option::Some(image), Option::Some(cus)) => Option::Some(
                    MetaV { name: name, image_url: image, connector_user_settings: cus },
                ),
                _ => Option::None,
            }
        },
        _ => Option::None,
    }
}

impl WebsiteMetaFileContent {
    /// Render the metadata as the JSON document written to the metadata file.
    pub fn to_json(&self) -> (r: JsonValue)
        ensures
            r@ == spec_meta_json(self@),
    {
        let mut entries: Vec<(String, JsonValue)> = Vec::new();
        entries.push(("name".to_owned(), JsonValue::Str(self.name.clone())));
        match &self.image_url {
            Option::Some(u) => {
                entries.push(("imageUrl".to_owned(), JsonValue::Str(u.clone())));
            },
            Option::None => {},
        }
        let settings = copy_entries(&self.connector_user_settings);
        entries.push(("connectorUserSettings".to_owned(), JsonValue::Object(settings)));
        proof {
            lemma_jes_of(entries@);
            assert(jes_of(entries@) =~= spec_meta_json(self@)->Obj_0);
        }
        JsonValue::Object(entries)
    }

    /// Read the metadata file from its JSON form.
    pub fn from_json(v: &JsonValue) -> (r: Result<WebsiteMetaFileContent, ConnectorError>)
        ensures
            match r {
                Ok(m) => spec_meta_from_json(v@) == Option::Some(m@),
                Err(e) => spec_meta_from_json(v@) is None && e is Json,
            },
    {
        if v.as_object().is_none() {
            return Err(ConnectorError::Json("website metadata is not an object".to_owned()));
        }
        let name: String = match v.get("name") {
            Option::Some(x) => match x.as_str() {
                Option::Some(s) => s.clone(),
                Option::None => {
                    return Err(
                        ConnectorError::Json("website metadata name is not a string".to_owned()),
                    );
                },
            },
            Option::None => {
                return Err(ConnectorError::Json("website metadata has no name".to_owned()));
            },
        };
        let image_url: Option<String> = match v.get("imageUrl") {
            Option::None => Option::None,
            Option::Some(x) => match x {
                JsonValue::Null => Option::None,
                JsonValue::Str(u) => Option::Some(u.clone()),
                _ => {
                    return Err(
                        ConnectorError::Json(
                            "website metadata image URL is not a string".to_owned(),
                        ),
                    );
                },
            },
        };
        let connector_user_settings: Vec<(String, JsonValue)> = match v.get(
            "connectorUserSettings",
        ) {
            Option::None => Vec::new(),
            Option::Some(x) => match x.as_object() {
                Option::Some(entries) => copy_entries(entries),
                Option::None => {
                    return Err(
                        ConnectorError::Json(
                            "website metadata connector settings are not an object".to_owned(),
                        ),
                    );
                },
            },
        };
        proof {
            assert(jes_of(Seq::<(String, JsonValue)>::empty()) =~= Seq::<(Seq<char>, Jv)>::empty());
        }
        Ok(WebsiteMetaFileContent { name, image_url, connector_user_settings })
    }
}

/// Website metadata returned to callers: the stored metadata plus the
/// directory timestamps, as milliseconds since the Unix epoch.
#[derive(Debug)]
pub struct WebsiteMeta {
    /// Unique website identifier.
    pub website_id: String,
    /// Human-readable website name.
    pub name: String,
    /// Preview image URL, when one was set.
    pub image_url: Option<String>,
    /// Per-connector settings for this website.
    pub connector_user_settings: Vec<(String, JsonValue)>,
    /// When the website directory was created, if the filesystem reports it.
    pub created_at: Option<i64>,
    /// When the website directory was last modified, if the filesystem
    /// reports it.
    pub updated_at: Option<i64>,
}

impl WebsiteMeta {
    /// Combine the stored metadata file with the directory timestamps.
    pub fn from_file_content(
        website_id: String,
        content: WebsiteMetaFileContent,
        created_at: Option<i64>,
        updated_at: Option<i64>,
    ) -> (r: WebsiteMeta)
        ensures
            r.website_id@ == website_id@,
            r.name@ == content.name@,
            (match r.image_url {
                Option::Some(u) => content@.image_url == Option::Some(u@),
                Option::None => content@.image_url is None,
            }),
            jes_of(r.connector_user_settings@) == content@.connector_user_settings,
            r.created_at == created_at,
            r.updated_at == updated_at,
    {
        WebsiteMeta {
            website_id,
            name: content.name,
            image_url: content.image_url,
            connector_user_settings: content.connector_user_settings,
            created_at,
            updated_at,
        }
    }
}

/// A file to be written to storage or hosting: a relative path and its
/// binary content.
#[derive(Debug)]
pub struct ConnectorFile {
    /// Path relative to the website root.
    pub path: String,
    /// File content.
    pub content: Vec<u8>,
}

} // verus!
