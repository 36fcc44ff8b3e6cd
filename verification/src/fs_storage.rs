//! Filesystem storage engine: the split/merge document algorithm, the
//! directory layout, and the garbage-collection rule for page files.
//!
//! A website is stored as a directory holding the main data file, a metadata
//! file, an assets folder, and one file per page.  Splitting replaces each
//! page that carries an id by a small reference object and plans a page file
//! named after the page's slug and id; merging resolves the references back
//! to full pages.  Everything here computes plans over plain values; the
//! shells that touch the disk execute them.

use vstd::prelude::*;

use crate::connector::ConnectorOptions;
use crate::connector::ConnectorType;
use crate::connector::ConnectorUser;
use crate::connector::file_icon;
use crate::connector::user_icon;
use crate::error::ConnectorError;
use crate::json::Jv;
use crate::json::JsonValue;
use crate::json::copy_entries;
use crate::json::copy_values;
use crate::json::jes_of;
use crate::json::jv_lookup;
use crate::json::jvs_of;
use crate::json::lemma_jes_of;
use crate::json::lemma_jvs_of;
use crate::json::opt_jvs_view;
use crate::json::sort_json_keys;
use crate::json::spec_sort;
use crate::text::append_str;
use crate::text::concat2;
use crate::text::ends_with;
use crate::text::opt_strs_view;
use crate::text::spec_ends_with;
use crate::text::spec_slug;
use crate::text::spec_starts_with;
use crate::text::spec_trim_leading_slashes;
use crate::text::slug_of;
use crate::text::starts_with;
use crate::text::str_eq;
use crate::text::strs_view;
use crate::text::trim_leading_slashes;
use crate::sys::system_username;
use crate::traits::ConnectorInfo;
use crate::traits::to_connector_data;
use crate::website::WData;
use crate::website::WebsiteData;
use crate::website::WebsiteMetaFileContent;
use crate::website::legacy_pages_folder;
use crate::website::spec_wd_from_json;
use crate::website::website_data_file;

verus! {

/// Filesystem storage engine.
///
/// `data_path` is the directory all websites live under; `assets_folder` is
/// the name of the asset folder inside each website directory.
pub struct FsStorage {
    /// Root path all websites are stored under.
    pub data_path: String,
    /// Folder name for assets within each website.
    pub assets_folder: String,
}

/// The pages folder a document resolves to: the stored name, or the legacy
/// name when none is stored.
pub open spec fn spec_pages_folder(folder: Seq<char>) -> Seq<char> {
    if folder.len() == 0 {
        "src"@
    } else {
        folder
    }
}

/// The id under which a page is split out: the page's `id` field when it is
/// a string, nothing otherwise.
pub open spec fn page_id_of(p: Jv) -> Option<Seq<char>> {
    match jv_lookup(p, "id"@) {
        Option::Some(v) => match v {
            Jv::Str(s) => Option::Some(s),
            _ => Option::None,
        },
        Option::None => Option::None,
    }
}

/// The name a page file is derived from: the page's `name` field when it is
/// a string, a fixed fallback otherwise.
pub open spec fn page_name_of(p: Jv) -> Seq<char> {
    match jv_lookup(p, "name"@) {
        Option::Some(v) => match v {
            Jv::Str(s) => s,
            _ => "page"@,
        },
        Option::None => "page"@,
    }
}

/// File name of a split-out page: its slug, a dash, its id, and the JSON
/// suffix.
pub open spec fn page_file_name(name: Seq<char>, id: Seq<char>) -> Seq<char> {
    spec_slug(name) + "-"@ + id + ".json"@
}

/// The reference object that stands in for a split-out page in the main
/// document.
pub open spec fn page_ref(name: Seq<char>, id: Seq<char>) -> Jv {
    Jv::Obj(
        seq![
            ("name"@, Jv::Str(name)),
            ("id"@, Jv::Str(id)),
            ("isFile"@, Jv::Bool(true)),
        ],
    )
}

/// Split a page sequence: the page files to write (path and key-sorted
/// content, in page order) and the page entries of the main document (a
/// reference for each page with an id, the page itself otherwise).
pub open spec fn spec_split_pages(pages: Seq<Jv>, folder: Seq<char>) -> (Seq<(Seq<char>, Jv)>, Seq<
    Jv,
>)
    decreases pages.len(),
{
    if pages.len() == 0 {
        (Seq::empty(), Seq::empty())
    } else {
        let rest = spec_split_pages(pages.drop_first(), folder);
        let p = pages[0];
        match page_id_of(p) {
            Option::None => (rest.0, seq![p] + rest.1),
            Option::Some(id) => {
                let name = page_name_of(p);
                (
                    seq![(folder + "/"@ + page_file_name(name, id), spec_sort(p))] + rest.0,
                    seq![page_ref(name, id)] + rest.1,
                )
            },
        }
    }
}

/// Splitting a concatenation splits each part, in order.
pub proof fn lemma_split_pages_concat(a: Seq<Jv>, b: Seq<Jv>, folder: Seq<char>)
    ensures
        spec_split_pages(a + b, folder).0 == spec_split_pages(a, folder).0 + spec_split_pages(
            b,
            folder,
        ).0,
        spec_split_pages(a + b, folder).1 == spec_split_pages(a, folder).1 + spec_split_pages(
            b,
            folder,
        ).1,
    decreases a.len(),
{
    if a.len() == 0 {
        assert(a + b =~= b);
        assert(spec_split_pages(a, folder).0 + spec_split_pages(b, folder).0 =~= spec_split_pages(
            b,
            folder,
        ).0);
        assert(spec_split_pages(a, folder).1 + spec_split_pages(b, folder).1 =~= spec_split_pages(
            b,
            folder,
        ).1);
    } else {
        assert((a + b).drop_first() =~= a.drop_first() + b);
        assert((a + b)[0] == a[0]);
        lemma_split_pages_concat(a.drop_first(), b, folder);
        assert(spec_split_pages(a + b, folder).0 =~= spec_split_pages(a, folder).0
            + spec_split_pages(b, folder).0);
        assert(spec_split_pages(a + b, folder).1 =~= spec_split_pages(a, folder).1
            + spec_split_pages(b, folder).1);
    }
}

/// The page entries a stored main document holds; empty when it has no
/// `pages` array.
pub open spec fn spec_merge_pages(j: Jv) -> Seq<Jv> {
    match jv_lookup(j, "pages"@) {
        Option::Some(v) => match v {
            Jv::Arr(pages) => pages,
            _ => Seq::empty(),
        },
        Option::None => Seq::empty(),
    }
}

/// Whether the split format is in use: the document has a non-empty `pages`
/// array whose first entry carries an `isFile` key.  Otherwise the document
/// is a fully embedded (legacy) one and is read as it stands.
pub open spec fn spec_merge_mode(j: Jv) -> bool {
    match jv_lookup(j, "pages"@) {
        Option::Some(v) => match v {
            Jv::Arr(pages) => pages.len() > 0 && !(jv_lookup(pages[0], "isFile"@) is None),
            _ => false,
        },
        Option::None => false,
    }
}

/// The pages folder used to resolve page files on read: the stored name, or
/// the legacy name when none is stored as a string.
pub open spec fn spec_merge_folder(j: Jv) -> Seq<char> {
    match jv_lookup(j, "pagesFolder"@) {
        Option::Some(v) => match v {
            Jv::Str(s) => s,
            _ => "src"@,
        },
        Option::None => "src"@,
    }
}

/// Whether a page entry is a reference to a page file.
pub open spec fn page_is_file(p: Jv) -> bool {
    match jv_lookup(p, "isFile"@) {
        Option::Some(v) => match v {
            Jv::Bool(b) => b,
            _ => false,
        },
        Option::None => false,
    }
}

/// The id a page reference resolves with; references written by the split
/// always carry one, a hand-written file may not.
pub open spec fn merge_id_of(p: Jv) -> Seq<char> {
    match jv_lookup(p, "id"@) {
        Option::Some(v) => match v {
            Jv::Str(s) => s,
            _ => Seq::empty(),
        },
        Option::None => Seq::empty(),
    }
}

/// For each page entry, the file (relative to the website directory) to load
/// when the entry is a reference; nothing when it is embedded.
pub open spec fn spec_page_sources(pages: Seq<Jv>, folder: Seq<char>) -> Seq<Option<Seq<char>>> {
    Seq::new(
        pages.len(),
        |i: int|
            if page_is_file(pages[i]) {
                Option::Some(folder + "/"@ + page_file_name(page_name_of(pages[i]), merge_id_of(pages[i])))
            } else {
                Option::None
            },
    )
}

/// The page a merged document holds at one position: the loaded file when
/// the entry is a reference and its file could be read, the entry itself
/// otherwise (an embedded page, or the reference left in place when its file
/// could not be read).
pub open spec fn merge_one(p: Jv, l: Option<Jv>) -> Jv {
    if page_is_file(p) {
        match l {
            Option::Some(d) => d,
            Option::None => p,
        }
    } else {
        p
    }
}

/// The pages of the merged document, in stored order.
pub open spec fn spec_merged_pages(pages: Seq<Jv>, loaded: Seq<Option<Jv>>) -> Seq<Jv> {
    Seq::new(pages.len(), |i: int| merge_one(pages[i], loaded[i]))
}

/// The main document written beside the page files: the page entries, the
/// resolved pages folder, and every other field verbatim.
pub open spec fn spec_main_doc(w: WData) -> Jv {
    Jv::Obj(
        seq![
            ("pages"@, Jv::Arr(spec_split_pages(w.pages, spec_pages_folder(w.pages_folder)).1)),
            ("pagesFolder"@, Jv::Str(spec_pages_folder(w.pages_folder))),
            ("assets"@, Jv::Arr(w.assets)),
            ("styles"@, Jv::Arr(w.styles)),
            ("settings"@, w.settings),
            ("fonts"@, Jv::Arr(w.fonts)),
            ("symbols"@, Jv::Arr(w.symbols)),
            ("publication"@, w.publication),
        ],
    )
}

/// The whole file set an update writes: the page files, then the main data
/// file, each with keys sorted.
pub open spec fn spec_split(w: WData) -> Seq<(Seq<char>, Jv)> {
    spec_split_pages(w.pages, spec_pages_folder(w.pages_folder)).0 + seq![
        ("website.json"@, spec_sort(spec_main_doc(w))),
    ]
}

impl FsStorage {
    /// Create a new filesystem storage engine.
    pub fn new(data_path: String, assets_folder: String) -> (r: Self)
        ensures
            r.data_path@ == data_path@,
            r.assets_folder@ == assets_folder@,
    {
        FsStorage { data_path, assets_folder }
    }

    /// Path of a website's directory.
    pub fn website_path(&self, website_id: &str) -> (r: String)
        ensures
            r@ == self.data_path@ + "/"@ + website_id@,
    {
        let mut r: String = self.data_path.clone();
        append_str(&mut r, "/");
        append_str(&mut r, website_id);
        r
    }

    /// Path of a website's main data file.
    pub fn website_data_path(&self, website_id: &str) -> (r: String)
        ensures
            r@ == self.data_path@ + "/"@ + website_id@ + "/"@ + "website.json"@,
    {
        let mut r: String = self.website_path(website_id);
        append_str(&mut r, "/");
        append_str(&mut r, website_data_file());
        r
    }

    /// Path of a website's metadata file.
    pub fn website_meta_path(&self, website_id: &str) -> (r: String)
        ensures
            r@ == self.data_path@ + "/"@ + website_id@ + "/"@ + "meta.json"@,
    {
        let mut r: String = self.website_path(website_id);
        append_str(&mut r, "/");
        append_str(&mut r, crate::website::website_meta_data_file());
        r
    }

    /// Path of a website's assets folder.
    pub fn assets_path(&self, website_id: &str) -> (r: String)
        ensures
            r@ == self.data_path@ + "/"@ + website_id@ + "/"@ + self.assets_folder@,
    {
        let mut r: String = self.website_path(website_id);
        append_str(&mut r, "/");
        append_str(&mut r, self.assets_folder.as_str());
        r
    }

    /// The pages folder of a document, falling back to the legacy name when
    /// the document stores none.
    pub fn get_pages_folder(data: &WebsiteData) -> (r: String)
        ensures
            r@ == spec_pages_folder(data@.pages_folder),
    {
        if data.pages_folder.as_str().is_empty() {
            legacy_pages_folder().to_owned()
        } else {
            data.pages_folder.clone()
        }
    }

    /// The slug a page file is named after.
    pub fn get_page_slug(name: &str) -> (r: String)
        ensures
            r@ == spec_slug(name@),
    {
        slug_of(name)
    }

    /// Decompose a document into the files an update writes: one file per
    /// page that carries an id, then the main data file in which those pages
    /// are replaced by references.  Every file content has its keys sorted.
    pub fn split_website_data(data: &WebsiteData) -> (r: Vec<(String, JsonValue)>)
        ensures
            jes_of(r@) == spec_split(data@),
    {
        let ghost w = data@;
        let ghost folder = spec_pages_folder(w.pages_folder);
        let pages_folder: String = Self::get_pages_folder(data);
        proof {
            lemma_jvs_of(data.pages@);
        }
        let n: usize = data.pages.len();
        let mut files: Vec<(String, JsonValue)> = Vec::new();
        let mut refs: Vec<JsonValue> = Vec::new();
        let mut i: usize = 0;
        proof {
            assert(w.pages.take(0) =~= Seq::<Jv>::empty());
            lemma_jes_of(files@);
            lemma_jvs_of(refs@);
            assert(jes_of(files@) =~= spec_split_pages(w.pages.take(0), folder).0);
            assert(jvs_of(refs@) =~= spec_split_pages(w.pages.take(0), folder).1);
        }
        while i < n
            invariant
                i <= n,
                n == data.pages@.len(),
                w == data@,
                w.pages.len() == n,
                forall|j: int| 0 <= j < n ==> w.pages[j] == data.pages@[j]@,
                folder == spec_pages_folder(w.pages_folder),
                pages_folder@ == folder,
                jes_of(files@) == spec_split_pages(w.pages.take(i as int), folder).0,
                jvs_of(refs@) == spec_split_pages(w.pages.take(i as int), folder).1,
            decreases n - i,
        {
            let ghost pv = w.pages[i as int];
            let ghost old_files = jes_of(files@);
            let ghost old_refs = jvs_of(refs@);
            let p: &JsonValue = &data.pages[i];
            let id_opt: Option<String> = match p.get("id") {
                Option::None => Option::None,
                Option::Some(x) => match x.as_str() {
                    Option::Some(s) => Option::Some(s.clone()),
                    Option::None => Option::None,
                },
            };
            match id_opt {
                Option::None => {
                    proof {
                        assert(page_id_of(pv) is None);
                    }
                    let c: JsonValue = p.deep_copy();
                    let ghost refs_seq = refs@;
                    refs.push(c);
                    proof {
                        lemma_jvs_of(refs_seq);
                        lemma_jvs_of(refs@);
                        assert(jvs_of(refs@) =~= old_refs + seq![pv]);
                    }
                },
                Option::Some(id) => {
                    proof {
                        assert(page_id_of(pv) == Option::Some(id@));
                    }
                    let ghost id_v = id@;
                    let name: String = match p.get("name") {
                        Option::None => "page".to_owned(),
                        Option::Some(x) => match x.as_str() {
                            Option::Some(s) => s.clone(),
                            Option::None => "page".to_owned(),
                        },
                    };
                    proof {
                        assert(name@ == page_name_of(pv));
                    }
                    let ghost name_v = name@;
                    let slug: String = Self::get_page_slug(name.as_str());
                    let mut file_path: String = pages_folder.clone();
                    append_str(&mut file_path, "/");
                    append_str(&mut file_path, slug.as_str());
                    append_str(&mut file_path, "-");
                    append_str(&mut file_path, id.as_str());
                    append_str(&mut file_path, ".json");
                    proof {
                        assert(file_path@ =~= folder + "/"@ + page_file_name(name_v, id_v));
                    }
                    let content: JsonValue = sort_json_keys(p);
                    let ghost files_seq = files@;
                    files.push((file_path, content));
                    let mut ref_entries: Vec<(String, JsonValue)> = Vec::new();
                    ref_entries.push(("name".to_owned(), JsonValue::Str(name)));
                    ref_entries.push(("id".to_owned(), JsonValue::Str(id)));
                    ref_entries.push(("isFile".to_owned(), JsonValue::Bool(true)));
                    proof {
                        lemma_jes_of(ref_entries@);
                        assert(jes_of(ref_entries@) =~= page_ref(name_v, id_v)->Obj_0);
                    }
                    let ghost refs_seq = refs@;
                    refs.push(JsonValue::Object(ref_entries));
                    proof {
                        lemma_jes_of(files_seq);
                        lemma_jes_of(files@);
                        lemma_jvs_of(refs_seq);
                        lemma_jvs_of(refs@);
                        assert(jes_of(files@) =~= old_files + seq![
                            (folder + "/"@ + page_file_name(name_v, id_v), spec_sort(pv)),
                        ]);
                        assert(jvs_of(refs@) =~= old_refs + seq![page_ref(name_v, id_v)]);
                    }
                },
            }
            proof {
                assert(w.pages.take(i + 1) =~= w.pages.take(i as int) + seq![pv]);
                lemma_split_pages_concat(w.pages.take(i as int), seq![pv], folder);
                assert(seq![pv].drop_first() =~= Seq::<Jv>::empty());
                assert(spec_split_pages(Seq::<Jv>::empty(), folder).0 =~= Seq::<
                    (Seq<char>, Jv),
                >::empty());
                assert(spec_split_pages(Seq::<Jv>::empty(), folder).1 =~= Seq::<Jv>::empty());
                match page_id_of(pv) {
                    Option::None => {
                        assert(spec_split_pages(seq![pv], folder).0 =~= Seq::<
                            (Seq<char>, Jv),
                        >::empty());
                        assert(spec_split_pages(seq![pv], folder).1 =~= seq![pv]);
                        assert(jes_of(files@) =~= spec_split_pages(w.pages.take(i + 1), folder).0);
                        assert(jvs_of(refs@) =~= spec_split_pages(w.pages.take(i + 1), folder).1);
                    },
                    Option::Some(id_g) => {
                        let name_g = page_name_of(pv);
                        assert(spec_split_pages(seq![pv], folder).0 =~= seq![
                            (folder + "/"@ + page_file_name(name_g, id_g), spec_sort(pv)),
                        ]);
                        assert(spec_split_pages(seq![pv], folder).1 =~= seq![
                            page_ref(name_g, id_g),
                        ]);
                        assert(jes_of(files@) =~= spec_split_pages(w.pages.take(i + 1), folder).0);
                        assert(jvs_of(refs@) =~= spec_split_pages(w.pages.take(i + 1), folder).1);
                    },
                }
            }
            i = i + 1;
        }
        proof {
            assert(w.pages.take(n as int) =~= w.pages);
        }
        let mut main_entries: Vec<(String, JsonValue)> = Vec::new();
        main_entries.push(("pages".to_owned(), JsonValue::Array(refs)));
        main_entries.push(("pagesFolder".to_owned(), JsonValue::Str(pages_folder)));
        main_entries.push(("assets".to_owned(), JsonValue::Array(copy_values(&data.assets))));
        main_entries.push(("styles".to_owned(), JsonValue::Array(copy_values(&data.styles))));
        main_entries.push(("settings".to_owned(), data.settings.deep_copy()));
        main_entries.push(("fonts".to_owned(), JsonValue::Array(copy_values(&data.fonts))));
        main_entries.push(("symbols".to_owned(), JsonValue::Array(copy_values(&data.symbols))));
        main_entries.push(("publication".to_owned(), data.publication.deep_copy()));
        let main_doc = JsonValue::Object(main_entries);
        proof {
            lemma_jes_of(main_doc->Object_0@);
            assert(jes_of(main_doc->Object_0@) =~= spec_main_doc(w)->Obj_0);
            assert(main_doc@ == spec_main_doc(w));
        }
        let sorted_main: JsonValue = sort_json_keys(&main_doc);
        let ghost files_before = jes_of(files@);
        let ghost files_seq = files@;
        files.push((website_data_file().to_owned(), sorted_main));
        proof {
            lemma_jes_of(files_seq);
            lemma_jes_of(files@);
            assert(jes_of(files@) =~= files_before + seq![
                ("website.json"@, spec_sort(spec_main_doc(w))),
            ]);
            assert(jes_of(files@) =~= spec_split(w));
        }
        files
    }

    /// Decide how a stored main document is read back.  `None` means the
    /// document is fully embedded (legacy format) and is used as it stands;
    /// otherwise, for each page entry, the page file (relative to the
    /// website directory) to load when the entry is a reference.
    pub fn merge_sources(main: &JsonValue) -> (r: Option<Vec<Option<String>>>)
        ensures
            (r is Some) == spec_merge_mode(main@),
            (match r {
                Option::Some(plan) => opt_strs_view(plan@) == spec_page_sources(
                    spec_merge_pages(main@),
                    spec_merge_folder(main@),
                ),
                Option::None => true,
            }),
    {
        let pages: &Vec<JsonValue> = match main.get("pages") {
            Option::Some(x) => match x.as_array() {
                Option::Some(items) => items,
                Option::None => {
                    return Option::None;
                },
            },
            Option::None => {
                return Option::None;
            },
        };
        if pages.len() == 0 {
            return Option::None;
        }
        proof {
            lemma_jvs_of(pages@);
        }
        let ghost pv = jvs_of(pages@);
        if pages[0].get("isFile").is_none() {
            return Option::None;
        }
        let folder: String = match main.get("pagesFolder") {
            Option::Some(x) => match x.as_str() {
                Option::Some(s) => s.clone(),
                Option::None => legacy_pages_folder().to_owned(),
            },
            Option::None => legacy_pages_folder().to_owned(),
        };
        let ghost folder_v = folder@;
        let n: usize = pages.len();
        let mut plan: Vec<Option<String>> = Vec::new();
        let mut i: usize = 0;
        while i < n
            invariant
                i <= n,
                n == pages@.len(),
                pv == jvs_of(pages@),
                pv.len() == n,
                forall|j: int| 0 <= j < n ==> pv[j] == pages@[j]@,
                folder_v == spec_merge_folder(main@),
                folder@ == folder_v,
                plan@.len() == i,
                forall|j: int| 0 <= j < i ==> opt_strs_view(plan@)[j] == spec_page_sources(
                    pv,
                    folder_v,
                )[j],
            decreases n - i,
        {
            let p: &JsonValue = &pages[i];
            let is_file: bool = match p.get("isFile") {
                Option::Some(x) => match x.as_bool() {
                    Option::Some(b) => b,
                    Option::None => false,
                },
                Option::None => false,
            };
            if is_file {
                let name: String = match p.get("name") {
                    Option::None => "page".to_owned(),
                    Option::Some(x) => match x.as_str() {
                        Option::Some(s) => s.clone(),
                        Option::None => "page".to_owned(),
                    },
                };
                let id: String = match p.get("id") {
                    Option::None => String::new(),
                    Option::Some(x) => match x.as_str() {
                        Option::Some(s) => s.clone(),
                        Option::None => String::new(),
                    },
                };
                proof {
                    assert(name@ == page_name_of(pv[i as int]));
                    assert(id@ == merge_id_of(pv[i as int]));
                }
                let slug: String = Self::get_page_slug(name.as_str());
                let mut file_path: String = folder.clone();
                append_str(&mut file_path, "/");
                append_str(&mut file_path, slug.as_str());
                append_str(&mut file_path, "-");
                append_str(&mut file_path, id.as_str());
                append_str(&mut file_path, ".json");
                proof {
                    assert(file_path@ =~= folder_v + "/"@ + page_file_name(
                        page_name_of(pv[i as int]),
                        merge_id_of(pv[i as int]),
                    ));
                }
                plan.push(Option::Some(file_path));
            } else {
                plan.push(Option::None);
            }
            i = i + 1;
        }
        proof {
            assert(opt_strs_view(plan@) =~= spec_page_sources(pv, folder_v));
        }
        Option::Some(plan)
    }

    /// Assemble the merged document: the stored main document with each
    /// reference replaced by its loaded page file, or left in place when
    /// that file could not be read.
    pub fn merge_website_data(main: &JsonValue, loaded: &Vec<Option<JsonValue>>) -> (r: Result<
        WebsiteData,
        ConnectorError,
    >)
        requires
            spec_merge_mode(main@),
            loaded@.len() == spec_merge_pages(main@).len(),
        ensures
            match r {
                Ok(w) => match spec_wd_from_json(main@) {
                    Option::Some(w0) => w@ == (WData {
                        pages: spec_merged_pages(spec_merge_pages(main@), opt_jvs_view(loaded@)),
                        ..w0
                    }),
                    Option::None => false,
                },
                Err(e) => spec_wd_from_json(main@) is None && e is Json,
            },
    {
        let base: WebsiteData = match WebsiteData::from_json(main) {
            Ok(w) => w,
            Err(e) => {
                return Err(e);
            },
        };
        let pages: &Vec<JsonValue> = match main.get("pages") {
            Option::Some(x) => match x.as_array() {
                Option::Some(items) => items,
                Option::None => {
                    proof {
                        assert(false);
                    }
                    return Err(ConnectorError::Json("unreachable".to_owned()));
                },
            },
            Option::None => {
                proof {
                    assert(false);
                }
                return Err(ConnectorError::Json("unreachable".to_owned()));
            },
        };
        proof {
            lemma_jvs_of(pages@);
        }
        let ghost pv = jvs_of(pages@);
        let n: usize = pages.len();
        let mut merged: Vec<JsonValue> = Vec::new();
        let mut i: usize = 0;
        while i < n
            invariant
                i <= n,
                n == pages@.len(),
                pv == jvs_of(pages@),
                pv.len() == n,
                forall|j: int| 0 <= j < n ==> pv[j] == pages@[j]@,
                loaded@.len() == n,
                merged@.len() == i,
                forall|j: int| 0 <= j < i ==> merged@[j]@ == spec_merged_pages(
                    pv,
                    opt_jvs_view(loaded@),
                )[j],
            decreases n - i,
        {
            let p: &JsonValue = &pages[i];
            let is_file: bool = match p.get("isFile") {
                Option::Some(x) => match x.as_bool() {
                    Option::Some(b) => b,
                    Option::None => false,
                },
                Option::None => false,
            };
            if is_file {
                match &loaded[i] {
                    Option::Some(d) => {
                        let c: JsonValue = d.deep_copy();
                        merged.push(c);
                    },
                    Option::None => {
                        let c: JsonValue = p.deep_copy();
                        merged.push(c);
                    },
                }
            } else {
                let c: JsonValue = p.deep_copy();
                merged.push(c);
            }
            i = i + 1;
        }
        let mut result: WebsiteData = base;
        result.pages = merged;
        proof {
            lemma_jvs_of(result.pages@);
            assert(jvs_of(result.pages@) =~= spec_merged_pages(pv, opt_jvs_view(loaded@)));
        }
        Ok(result)
    }
}

/// The stale page files an update deletes: the existing entries that carry
/// the JSON suffix but are not among the kept names, in directory order.
/// Files without the suffix are never touched.
pub open spec fn spec_stale(existing: Seq<Seq<char>>, keep: Seq<Seq<char>>) -> Seq<Seq<char>>
    decreases existing.len(),
{
    if existing.len() == 0 {
        Seq::empty()
    } else {
        let rest = spec_stale(existing.drop_first(), keep);
        if spec_ends_with(existing[0], ".json"@) && !keep.contains(existing[0]) {
            seq![existing[0]] + rest
        } else {
            rest
        }
    }
}

/// A name is stale exactly when it exists, carries the JSON suffix, and is
/// not among the kept names.
pub proof fn lemma_stale_membership(existing: Seq<Seq<char>>, keep: Seq<Seq<char>>, x: Seq<char>)
    ensures
        spec_stale(existing, keep).contains(x) <==> (existing.contains(x) && spec_ends_with(
            x,
            ".json"@,
        ) && !keep.contains(x)),
    decreases existing.len(),
{
    if existing.len() == 0 {
        assert(!existing.contains(x));
        assert(!spec_stale(existing, keep).contains(x));
    } else {
        let rest = spec_stale(existing.drop_first(), keep);
        lemma_stale_membership(existing.drop_first(), keep, x);
        assert(existing.contains(x) <==> (existing[0] == x || existing.drop_first().contains(x)))
            by {
            if existing.contains(x) {
                let w = choose|w: int| 0 <= w < existing.len() && existing[w] == x;
                if w > 0 {
                    assert(existing.drop_first()[w - 1] == x);
                }
            }
            if existing.drop_first().contains(x) {
                let w = choose|w: int|
                    0 <= w < existing.drop_first().len() && existing.drop_first()[w] == x;
                assert(existing[w + 1] == x);
            }
        }
        if spec_ends_with(existing[0], ".json"@) && !keep.contains(existing[0]) {
            assert(spec_stale(existing, keep) =~= seq![existing[0]] + rest);
            assert(spec_stale(existing, keep).contains(x) <==> (existing[0] == x || rest.contains(
                x,
            ))) by {
                if spec_stale(existing, keep).contains(x) {
                    let w = choose|w: int|
                        0 <= w < spec_stale(existing, keep).len() && spec_stale(existing, keep)[w]
                            == x;
                    if w > 0 {
                        assert(rest[w - 1] == x);
                    }
                }
                if rest.contains(x) {
                    let w = choose|w: int| 0 <= w < rest.len() && rest[w] == x;
                    assert(spec_stale(existing, keep)[w + 1] == x);
                }
                if existing[0] == x {
                    assert(spec_stale(existing, keep)[0] == x);
                }
            }
        }
    }
}

/// Splitting the directory listing splits the stale set, in order.
pub proof fn lemma_stale_concat(a: Seq<Seq<char>>, b: Seq<Seq<char>>, keep: Seq<Seq<char>>)
    ensures
        spec_stale(a + b, keep) == spec_stale(a, keep) + spec_stale(b, keep),
    decreases a.len(),
{
    if a.len() == 0 {
        assert(a + b =~= b);
        assert(spec_stale(a, keep) + spec_stale(b, keep) =~= spec_stale(b, keep));
    } else {
        assert((a + b).drop_first() =~= a.drop_first() + b);
        assert((a + b)[0] == a[0]);
        lemma_stale_concat(a.drop_first(), b, keep);
        assert(spec_stale(a + b, keep) =~= spec_stale(a, keep) + spec_stale(b, keep));
    }
}

/// Whether one of the kept names equals the given name.
fn contains_str(keep: &Vec<String>, x: &str) -> (r: bool)
    ensures
        r == strs_view(keep@).contains(x@),
{
    let n: usize = keep.len();
    let mut i: usize = 0;
    while i < n
        invariant
            i <= n,
            n == keep@.len(),
            forall|j: int| 0 <= j < i ==> keep@[j]@ != x@,
        decreases n - i,
    {
        if str_eq(keep[i].as_str(), x) {
            proof {
                assert(strs_view(keep@)[i as int] == x@);
            }
            return true;
        }
        i = i + 1;
    }
    proof {
        assert(forall|j: int| 0 <= j < n ==> strs_view(keep@)[j] != x@);
    }
    false
}

/// The files an update removes from the pages directory: every existing
/// entry that carries the JSON suffix but is not among the kept page file
/// names.  Entries without the suffix are never deleted.
pub fn stale_page_files(existing: &Vec<String>, keep: &Vec<String>) -> (r: Vec<String>)
    ensures
        strs_view(r@) == spec_stale(strs_view(existing@), strs_view(keep@)),
{
    let ghost ev = strs_view(existing@);
    let ghost kv = strs_view(keep@);
    let n: usize = existing.len();
    let mut out: Vec<String> = Vec::new();
    let mut i: usize = 0;
    proof {
        assert(ev.take(0) =~= Seq::<Seq<char>>::empty());
        assert(strs_view(out@) =~= spec_stale(ev.take(0), kv));
    }
    while i < n
        invariant
            i <= n,
            n == existing@.len(),
            ev == strs_view(existing@),
            ev.len() == n,
            kv == strs_view(keep@),
            strs_view(out@) == spec_stale(ev.take(i as int), kv),
        decreases n - i,
    {
        let ghost before = strs_view(out@);
        let name: &String = &existing[i];
        if ends_with(name.as_str(), ".json") && !contains_str(keep, name.as_str()) {
            out.push(name.clone());
            proof {
                assert(strs_view(out@) =~= before + seq![ev[i as int]]);
            }
        }
        proof {
            assert(ev.take(i + 1) =~= ev.take(i as int) + seq![ev[i as int]]);
            lemma_stale_concat(ev.take(i as int), seq![ev[i as int]], kv);
            assert(seq![ev[i as int]].drop_first() =~= Seq::<Seq<char>>::empty());
            assert(spec_stale(Seq::<Seq<char>>::empty(), kv) =~= Seq::<Seq<char>>::empty());
            if spec_ends_with(ev[i as int], ".json"@) && !kv.contains(ev[i as int]) {
                assert(spec_stale(seq![ev[i as int]], kv) =~= seq![ev[i as int]]);
                assert(strs_view(out@) =~= spec_stale(ev.take(i + 1), kv));
            } else {
                assert(spec_stale(seq![ev[i as int]], kv) =~= Seq::<Seq<char>>::empty());
                assert(strs_view(out@) =~= spec_stale(ev.take(i + 1), kv));
            }
        }
        i = i + 1;
    }
    proof {
        assert(ev.take(n as int) =~= ev);
    }
    out
}

/// The file name under the pages folder: the path with the folder prefix
/// stripped when it carries one, the path itself otherwise.
pub open spec fn strip_folder(path: Seq<char>, folder: Seq<char>) -> Seq<char> {
    if spec_starts_with(path, folder + "/"@) {
        path.skip(folder.len() as int + 1)
    } else {
        path
    }
}

/// The page file names an update keeps: for each planned file whose path
/// lies under the pages folder, its name within that folder.
pub open spec fn spec_kept_names(files: Seq<(Seq<char>, Jv)>, folder: Seq<char>) -> Seq<Seq<char>>
    decreases files.len(),
{
    if files.len() == 0 {
        Seq::empty()
    } else {
        let rest = spec_kept_names(files.drop_first(), folder);
        if spec_starts_with(files[0].0, folder) {
            seq![strip_folder(files[0].0, folder)] + rest
        } else {
            rest
        }
    }
}

/// Splitting the file list splits the kept names, in order.
pub proof fn lemma_kept_names_concat(
    a: Seq<(Seq<char>, Jv)>,
    b: Seq<(Seq<char>, Jv)>,
    folder: Seq<char>,
)
    ensures
        spec_kept_names(a + b, folder) == spec_kept_names(a, folder) + spec_kept_names(b, folder),
    decreases a.len(),
{
    if a.len() == 0 {
        assert(a + b =~= b);
        assert(spec_kept_names(a, folder) + spec_kept_names(b, folder) =~= spec_kept_names(
            b,
            folder,
        ));
    } else {
        assert((a + b).drop_first() =~= a.drop_first() + b);
        assert((a + b)[0] == a[0]);
        lemma_kept_names_concat(a.drop_first(), b, folder);
        assert(spec_kept_names(a + b, folder) =~= spec_kept_names(a, folder) + spec_kept_names(
            b,
            folder,
        ));
    }
}

/// The names of the page files among the planned files, relative to the
/// pages folder.
pub fn page_file_names(files: &Vec<(String, JsonValue)>, folder: &str) -> (r: Vec<String>)
    ensures
        strs_view(r@) == spec_kept_names(jes_of(files@), folder@),
{
    proof {
        lemma_jes_of(files@);
        reveal_strlit("/");
    }
    let ghost fv = jes_of(files@);
    let prefix: String = concat2(folder, "/");
    let prefix_len: usize = prefix.as_str().unicode_len();
    let n: usize = files.len();
    let mut out: Vec<String> = Vec::new();
    let mut i: usize = 0;
    proof {
        assert(fv.take(0) =~= Seq::<(Seq<char>, Jv)>::empty());
        assert(strs_view(out@) =~= spec_kept_names(fv.take(0), folder@));
    }
    while i < n
        invariant
            i <= n,
            n == files@.len(),
            fv == jes_of(files@),
            fv.len() == n,
            forall|j: int| 0 <= j < n ==> fv[j] == (files@[j].0@, files@[j].1@),
            prefix@ == folder@ + "/"@,
            prefix_len == prefix@.len(),
            strs_view(out@) == spec_kept_names(fv.take(i as int), folder@),
        decreases n - i,
    {
        let ghost before = strs_view(out@);
        let path: &String = &files[i].0;
        if starts_with(path.as_str(), folder) {
            if starts_with(path.as_str(), prefix.as_str()) {
                let plen: usize = path.as_str().unicode_len();
                proof {
                    reveal_strlit("/");
                    assert(prefix@.len() == folder@.len() + 1);
                }
                let name: &str = path.as_str().substring_char(prefix_len, plen);
                proof {
                    assert(name@ =~= path@.skip(folder@.len() as int + 1));
                }
                out.push(name.to_owned());
            } else {
                out.push(path.clone());
            }
            proof {
                assert(strs_view(out@) =~= before + seq![strip_folder(fv[i as int].0, folder@)]);
            }
        }
        proof {
            assert(fv.take(i + 1) =~= fv.take(i as int) + seq![fv[i as int]]);
            lemma_kept_names_concat(fv.take(i as int), seq![fv[i as int]], folder@);
            assert(seq![fv[i as int]].drop_first() =~= Seq::<(Seq<char>, Jv)>::empty());
            assert(spec_kept_names(Seq::<(Seq<char>, Jv)>::empty(), folder@) =~= Seq::<
                Seq<char>,
            >::empty());
            if spec_starts_with(fv[i as int].0, folder@) {
                assert(spec_kept_names(seq![fv[i as int]], folder@) =~= seq![
                    strip_folder(fv[i as int].0, folder@),
                ]);
            } else {
                assert(spec_kept_names(seq![fv[i as int]], folder@) =~= Seq::<Seq<char>>::empty());
            }
            assert(strs_view(out@) =~= spec_kept_names(fv.take(i + 1), folder@));
        }
        i = i + 1;
    }
    proof {
        assert(fv.take(n as int) =~= fv);
    }
    out
}

/// Whether any planned file lies under the pages folder, so that the folder
/// must exist before the files are written.
pub fn has_page_files(files: &Vec<(String, JsonValue)>, folder: &str) -> (r: bool)
    ensures
        r == (exists|i: int|
            0 <= i < jes_of(files@).len() && spec_starts_with(
                #[trigger] jes_of(files@)[i].0,
                folder@,
            )),
{
    proof {
        lemma_jes_of(files@);
    }
    let ghost fv = jes_of(files@);
    let n: usize = files.len();
    let mut i: usize = 0;
    while i < n
        invariant
            i <= n,
            n == files@.len(),
            fv == jes_of(files@),
            fv.len() == n,
            forall|j: int| 0 <= j < n ==> fv[j] == (files@[j].0@, files@[j].1@),
            forall|j: int| 0 <= j < i ==> !spec_starts_with(#[trigger] fv[j].0, folder@),
        decreases n - i,
    {
        if starts_with(files[i].0.as_str(), folder) {
            proof {
                assert(spec_starts_with(fv[i as int].0, folder@));
            }
            return true;
        }
        i = i + 1;
    }
    false
}

/// Everything an update writes and keeps: the files, the resolved pages
/// folder, whether the folder must exist, and the page file names the
/// garbage collection spares.
pub struct UpdatePlan {
    /// Files to write, as paths relative to the website directory.
    pub files: Vec<(String, JsonValue)>,
    /// The resolved pages folder.
    pub pages_folder: String,
    /// Whether any file lies under the pages folder.
    pub has_page_files: bool,
    /// Names (within the pages folder) of the page files this update keeps.
    pub kept_page_files: Vec<String>,
}

impl FsStorage {
    /// The whole plan of an update: decompose the document and name what the
    /// garbage collection must spare.
    pub fn update_plan(data: &WebsiteData) -> (r: UpdatePlan)
        ensures
            jes_of(r.files@) == spec_split(data@),
            r.pages_folder@ == spec_pages_folder(data@.pages_folder),
            r.has_page_files == (exists|i: int|
                0 <= i < spec_split(data@).len() && spec_starts_with(
                    #[trigger] spec_split(data@)[i].0,
                    spec_pages_folder(data@.pages_folder),
                )),
            strs_view(r.kept_page_files@) == spec_kept_names(
                spec_split(data@),
                spec_pages_folder(data@.pages_folder),
            ),
    {
        let files: Vec<(String, JsonValue)> = Self::split_website_data(data);
        let pages_folder: String = Self::get_pages_folder(data);
        let has: bool = has_page_files(&files, pages_folder.as_str());
        let kept: Vec<String> = page_file_names(&files, pages_folder.as_str());
        UpdatePlan { files, pages_folder, has_page_files: has, kept_page_files: kept }
    }

    /// Paths of an asset write: where the file lands on disk, and the stored
    /// path handed back to the caller, with one leading slash.
    pub fn asset_write_path(&self, website_id: &str, file_path: &str) -> (r: (String, String))
        ensures
            r.0@ == self.data_path@ + "/"@ + website_id@ + "/"@ + self.assets_folder@ + "/"@
                + spec_trim_leading_slashes(file_path@),
            r.1@ == "/"@ + spec_trim_leading_slashes(file_path@),
    {
        let rel: String = trim_leading_slashes(file_path);
        let mut full: String = self.assets_path(website_id);
        append_str(&mut full, "/");
        append_str(&mut full, rel.as_str());
        let stored: String = concat2("/", rel.as_str());
        proof {
            assert(full@ =~= self.data_path@ + "/"@ + website_id@ + "/"@ + self.assets_folder@
                + "/"@ + spec_trim_leading_slashes(file_path@));
        }
        (full, stored)
    }

    /// Path an asset is read from, the leading slashes of the requested name
    /// removed.
    pub fn asset_read_path(&self, website_id: &str, file_name: &str) -> (r: String)
        ensures
            r@ == self.data_path@ + "/"@ + website_id@ + "/"@ + self.assets_folder@ + "/"@
                + spec_trim_leading_slashes(file_name@),
    {
        let rel: String = trim_leading_slashes(file_name);
        let mut full: String = self.assets_path(website_id);
        append_str(&mut full, "/");
        append_str(&mut full, rel.as_str());
        proof {
            assert(full@ =~= self.data_path@ + "/"@ + website_id@ + "/"@ + self.assets_folder@
                + "/"@ + spec_trim_leading_slashes(file_name@));
        }
        full
    }

    /// The metadata a duplicated website starts with: the same metadata with
    /// a marker appended to the name.
    pub fn duplicated_meta(meta: &WebsiteMetaFileContent) -> (r: WebsiteMetaFileContent)
        ensures
            r@.name == meta@.name + " copy"@,
            r@.image_url == meta@.image_url,
            r@.connector_user_settings == meta@.connector_user_settings,
    {
        WebsiteMetaFileContent {
            name: concat2(meta.name.as_str(), " copy"),
            image_url: match &meta.image_url {
                Option::Some(u) => Option::Some(u.clone()),
                Option::None => Option::None,
            },
            connector_user_settings: copy_entries(&meta.connector_user_settings),
        }
    }

    /// Whether the user is logged in; filesystem storage has no
    /// authentication, so this always holds.
    pub fn is_logged_in(&self) -> (r: bool)
        ensures
            r,
    {
        true
    }

    /// The OAuth URL; filesystem storage uses none.
    pub fn get_oauth_url(&self) -> (r: Option<String>)
        ensures
            r is None,
    {
        Option::None
    }

    /// Connector options read from form data; filesystem storage has none.
    pub fn get_options(&self) -> (r: ConnectorOptions)
        ensures
            r.website_url is None,
            r.extra@.len() == 0,
    {
        ConnectorOptions::default()
    }

    /// The current user: the system account name, with the stock icon and
    /// this connector's description.
    pub fn get_user(&self) -> (r: ConnectorUser)
        ensures
            r.email is None,
            r.picture is Some,
            r.storage.connector_id@ == self.spec_connector_id(),
            r.storage.connector_type == self.spec_connector_type(),
            r.storage.is_logged_in,
            r.storage.oauth_url is None,
    {
        let name: String = match system_username() {
            Option::Some(u) => u,
            Option::None => "unknown".to_owned(),
        };
        ConnectorUser {
            name,
            email: Option::None,
            picture: Option::Some(user_icon().to_owned()),
            storage: to_connector_data(self, true, Option::None),
        }
    }
}

impl ConnectorInfo for FsStorage {
    open spec fn spec_connector_id(&self) -> Seq<char> {
        "fs-storage"@
    }

    open spec fn spec_connector_type(&self) -> ConnectorType {
        ConnectorType::Storage
    }

    open spec fn spec_disable_logout(&self) -> bool {
        true
    }

    open spec fn spec_display_name(&self) -> Seq<char> {
        "File system storage"@
    }

    open spec fn spec_icon(&self) -> Seq<char> {
        "/assets/laptop.png"@
    }

    open spec fn spec_color(&self) -> Seq<char> {
        "#ffffff"@
    }

    open spec fn spec_background(&self) -> Seq<char> {
        "#006400"@
    }

    fn connector_id(&self) -> (r: String) {
        "fs-storage".to_owned()
    }

    fn connector_type(&self) -> (r: ConnectorType) {
        ConnectorType::Storage
    }

    fn display_name(&self) -> (r: String) {
        "File system storage".to_owned()
    }

    fn icon(&self) -> (r: String) {
        file_icon().to_owned()
    }

    fn color(&self) -> (r: String) {
        "#ffffff".to_owned()
    }

    fn background(&self) -> (r: String) {
        "#006400".to_owned()
    }

    fn disable_logout(&self) -> (r: bool) {
        true
    }
}

} // verus!
