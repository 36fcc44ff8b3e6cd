//! The storage engine's governing properties, stated and proved once over
//! the split and merge specifications: reading back what an update wrote
//! yields the same document (up to key sorting), a fully embedded document
//! is never mistaken for a split one, and the garbage collection deletes
//! exactly the stale page files.

use vstd::prelude::*;

use crate::fs_storage::merge_id_of;
use crate::fs_storage::page_file_name;
use crate::fs_storage::page_id_of;
use crate::fs_storage::page_is_file;
use crate::fs_storage::page_name_of;
use crate::fs_storage::page_ref;
use crate::fs_storage::spec_kept_names;
use crate::fs_storage::spec_main_doc;
use crate::fs_storage::spec_merge_folder;
use crate::fs_storage::spec_merge_mode;
use crate::fs_storage::spec_merge_pages;
use crate::fs_storage::spec_merged_pages;
use crate::fs_storage::spec_page_sources;
use crate::fs_storage::spec_pages_folder;
use crate::fs_storage::spec_split;
use crate::fs_storage::spec_split_pages;
use crate::fs_storage::spec_stale;
use crate::fs_storage::lemma_stale_membership;
use crate::json::Jv;
use crate::json::distinct_keys;
use crate::json::jv_get;
use crate::json::jv_lookup;
use crate::json::lemma_get_at_index;
use crate::json::lemma_sort_lookup;
use crate::json::lemma_spec_sort_seq;
use crate::json::spec_sort;
use crate::json::spec_sort_seq;
use crate::text::spec_ends_with;
use crate::text::spec_slug;
use crate::text::spec_starts_with;
use crate::website::WData;
use crate::website::spec_wd_from_json;

verus! {

/// The path of the file a page is split out to.
pub open spec fn split_path(w: WData, i: int) -> Seq<char> {
    spec_pages_folder(w.pages_folder) + "/"@ + page_file_name(
        page_name_of(w.pages[i]),
        merge_id_of(w.pages[i]),
    )
}

/// When every page carries an id, the split writes one file per page, in
/// page order, and replaces each page by its reference.
pub proof fn lemma_split_pages_all_ids(pages: Seq<Jv>, folder: Seq<char>)
    requires
        forall|i: int| 0 <= i < pages.len() ==> #[trigger] page_id_of(pages[i]) is Some,
    ensures
        spec_split_pages(pages, folder).0.len() == pages.len(),
        spec_split_pages(pages, folder).1.len() == pages.len(),
        forall|i: int| 0 <= i < pages.len() ==> #[trigger] spec_split_pages(pages, folder).0[i]
            == (
            folder + "/"@ + page_file_name(page_name_of(pages[i]), merge_id_of(pages[i])),
            spec_sort(pages[i]),
        ),
        forall|i: int| 0 <= i < pages.len() ==> #[trigger] spec_split_pages(pages, folder).1[i]
            == page_ref(page_name_of(pages[i]), merge_id_of(pages[i])),
    decreases pages.len(),
{
    if pages.len() > 0 {
        let t = pages.drop_first();
        assert(forall|i: int| 0 <= i < t.len() ==> t[i] == pages[i + 1]);
        lemma_split_pages_all_ids(t, folder);
        let p = pages[0];
        assert(page_id_of(p) is Some);
        assert(page_id_of(p) == Option::Some(merge_id_of(p)));
        let head_file = (
            folder + "/"@ + page_file_name(page_name_of(p), merge_id_of(p)),
            spec_sort(p),
        );
        let head_ref = page_ref(page_name_of(p), merge_id_of(p));
        assert(spec_split_pages(pages, folder).0 == seq![head_file] + spec_split_pages(
            t,
            folder,
        ).0);
        assert(spec_split_pages(pages, folder).1 == seq![head_ref] + spec_split_pages(
            t,
            folder,
        ).1);
        assert forall|i: int| 0 <= i < pages.len() implies #[trigger] spec_split_pages(
            pages,
            folder,
        ).0[i] == (
            folder + "/"@ + page_file_name(page_name_of(pages[i]), merge_id_of(pages[i])),
            spec_sort(pages[i]),
        ) by {
            if i > 0 {
                assert(spec_split_pages(pages, folder).0[i] == spec_split_pages(t, folder).0[i
                    - 1]);
                assert(t[i - 1] == pages[i]);
            }
        }
        assert forall|i: int| 0 <= i < pages.len() implies #[trigger] spec_split_pages(
            pages,
            folder,
        ).1[i] == page_ref(page_name_of(pages[i]), merge_id_of(pages[i])) by {
            if i > 0 {
                assert(spec_split_pages(pages, folder).1[i] == spec_split_pages(t, folder).1[i
                    - 1]);
                assert(t[i - 1] == pages[i]);
            }
        }
    }
}

/// Round trip: for a document whose pages all carry ids and whose derived
/// page files have distinct paths, merging what the split wrote yields the
/// same pages, in the same order, and the same pass-through fields, each up
/// to key sorting; the pages folder comes back resolved.
pub proof fn lemma_split_merge_round_trip(w: WData)
    requires
        w.pages.len() > 0,
        forall|i: int| 0 <= i < w.pages.len() ==> #[trigger] page_id_of(w.pages[i]) is Some,
        forall|i: int, j: int| 0 <= i < j < w.pages.len() ==> split_path(w, i) != split_path(w, j),
    ensures
        ({
            let files = spec_split(w);
            let main = spec_sort(spec_main_doc(w));
            let pages = spec_merge_pages(main);
            let sources = spec_page_sources(pages, spec_merge_folder(main));
            let loaded = Seq::new(
                pages.len(),
                |i: int|
                    match sources[i] {
                        Option::Some(path) => jv_get(files, path),
                        Option::None => Option::None,
                    },
            );
            let merged = spec_merged_pages(pages, loaded);
            &&& files.len() == w.pages.len() + 1
            &&& files.last() == ("website.json"@, main)
            &&& spec_merge_mode(main)
            &&& spec_merge_folder(main) == spec_pages_folder(w.pages_folder)
            &&& pages.len() == w.pages.len()
            &&& (forall|i: int| 0 <= i < w.pages.len() ==> #[trigger] sources[i] == Option::Some(
                split_path(w, i),
            ))
            &&& merged.len() == w.pages.len()
            &&& (forall|i: int| 0 <= i < w.pages.len() ==> #[trigger] merged[i] == spec_sort(
                w.pages[i],
            ))
            &&& (match spec_wd_from_json(main) {
                Option::Some(w0) => {
                    &&& w0.pages_folder == spec_pages_folder(w.pages_folder)
                    &&& w0.assets == spec_sort_seq(w.assets)
                    &&& w0.styles == spec_sort_seq(w.styles)
                    &&& w0.settings == spec_sort(w.settings)
                    &&& w0.fonts == spec_sort_seq(w.fonts)
                    &&& w0.symbols == spec_sort_seq(w.symbols)
                    &&& w0.publication == spec_sort(w.publication)
                },
                Option::None => false,
            })
        }),
{
    let folder = spec_pages_folder(w.pages_folder);
    let n = w.pages.len() as int;
    lemma_split_pages_all_ids(w.pages, folder);
    let pfiles = spec_split_pages(w.pages, folder).0;
    let refs = spec_split_pages(w.pages, folder).1;
    let main_doc = spec_main_doc(w);
    let main = spec_sort(main_doc);
    let files = spec_split(w);
    assert(files =~= pfiles + seq![("website.json"@, main)]);
    assert(files.last() == ("website.json"@, main));

    // The main document's keys are distinct, so sorting keeps its lookups.
    let es = main_doc->Obj_0;
    proof_main_keys_distinct(es);
    lemma_get_at_index(es, 0);
    lemma_get_at_index(es, 1);
    lemma_get_at_index(es, 2);
    lemma_get_at_index(es, 3);
    lemma_get_at_index(es, 4);
    lemma_get_at_index(es, 5);
    lemma_get_at_index(es, 6);
    lemma_get_at_index(es, 7);
    lemma_sort_lookup(main_doc, "pages"@);
    lemma_sort_lookup(main_doc, "pagesFolder"@);
    lemma_sort_lookup(main_doc, "assets"@);
    lemma_sort_lookup(main_doc, "styles"@);
    lemma_sort_lookup(main_doc, "settings"@);
    lemma_sort_lookup(main_doc, "fonts"@);
    lemma_sort_lookup(main_doc, "symbols"@);
    lemma_sort_lookup(main_doc, "publication"@);
    assert(jv_lookup(main, "pages"@) == Option::Some(spec_sort(Jv::Arr(refs))));
    assert(spec_sort(Jv::Arr(refs)) == Jv::Arr(spec_sort_seq(refs)));
    let sorted_refs = spec_sort_seq(refs);
    lemma_spec_sort_seq(refs);
    assert(sorted_refs.len() == n);
    assert(jv_lookup(main, "pagesFolder"@) == Option::Some(spec_sort(Jv::Str(folder))));
    assert(spec_sort(Jv::Str(folder)) == Jv::Str(folder));
    assert(spec_merge_folder(main) == folder);
    let pages = spec_merge_pages(main);
    assert(pages == sorted_refs);

    // Each sorted reference still answers the name, id and marker lookups.
    assert forall|i: int| 0 <= i < n implies {
        &&& page_is_file(#[trigger] pages[i])
        &&& page_name_of(pages[i]) == page_name_of(w.pages[i])
        &&& merge_id_of(pages[i]) == merge_id_of(w.pages[i])
    } by {
        let name = page_name_of(w.pages[i]);
        let id = merge_id_of(w.pages[i]);
        let r = page_ref(name, id);
        assert(refs[i] == r);
        assert(pages[i] == spec_sort(r));
        let res = r->Obj_0;
        proof_ref_keys_distinct(res);
        lemma_get_at_index(res, 0);
        lemma_get_at_index(res, 1);
        lemma_get_at_index(res, 2);
        lemma_sort_lookup(r, "name"@);
        lemma_sort_lookup(r, "id"@);
        lemma_sort_lookup(r, "isFile"@);
        assert(jv_lookup(spec_sort(r), "isFile"@) == Option::Some(spec_sort(Jv::Bool(true))));
        assert(spec_sort(Jv::Bool(true)) == Jv::Bool(true));
        assert(jv_lookup(spec_sort(r), "name"@) == Option::Some(spec_sort(Jv::Str(name))));
        assert(spec_sort(Jv::Str(name)) == Jv::Str(name));
        assert(jv_lookup(spec_sort(r), "id"@) == Option::Some(spec_sort(Jv::Str(id))));
        assert(spec_sort(Jv::Str(id)) == Jv::Str(id));
    }
    assert(spec_merge_mode(main)) by {
        assert(jv_lookup(pages[0], "isFile"@) == Option::Some(Jv::Bool(true)));
    }

    // Each source points at the file the split wrote for that page.
    let sources = spec_page_sources(pages, folder);
    assert forall|i: int| 0 <= i < n implies #[trigger] sources[i] == Option::Some(
        split_path(w, i),
    ) by {
        assert(page_is_file(pages[i]));
    }

    // Looking a source path up among the written files finds that page's
    // sorted content, because earlier files carry different paths.
    let loaded = Seq::new(
        pages.len(),
        |i: int|
            match sources[i] {
                Option::Some(path) => jv_get(files, path),
                Option::None => Option::None,
            },
    );
    assert forall|i: int| 0 <= i < n implies #[trigger] loaded[i] == Option::Some(
        spec_sort(w.pages[i]),
    ) by {
        assert(files[i] == pfiles[i]);
        assert(files[i].0 == split_path(w, i));
        assert forall|j: int| 0 <= j < i implies files[j].0 != files[i].0 by {
            assert(files[j] == pfiles[j]);
            assert(files[j].0 == split_path(w, j));
        }
        lemma_get_at_index(files, i);
    }
    let merged = spec_merged_pages(pages, loaded);
    assert forall|i: int| 0 <= i < n implies #[trigger] merged[i] == spec_sort(w.pages[i]) by {
        assert(page_is_file(pages[i]));
        assert(loaded[i] == Option::Some(spec_sort(w.pages[i])));
    }

    // The merged document's pass-through fields are the original ones, key
    // sorted.
    assert(jv_lookup(main, "assets"@) == Option::Some(Jv::Arr(spec_sort_seq(w.assets))));
    assert(jv_lookup(main, "styles"@) == Option::Some(Jv::Arr(spec_sort_seq(w.styles))));
    assert(jv_lookup(main, "fonts"@) == Option::Some(Jv::Arr(spec_sort_seq(w.fonts))));
    assert(jv_lookup(main, "symbols"@) == Option::Some(Jv::Arr(spec_sort_seq(w.symbols))));
    assert(jv_lookup(main, "settings"@) == Option::Some(spec_sort(w.settings)));
    assert(jv_lookup(main, "publication"@) == Option::Some(spec_sort(w.publication)));
    assert(spec_wd_from_json(main) is Some);
}

/// The eight keys of the main document are distinct.
proof fn proof_main_keys_distinct(es: Seq<(Seq<char>, Jv)>)
    requires
        es.len() == 8,
        es[0].0 == "pages"@,
        es[1].0 == "pagesFolder"@,
        es[2].0 == "assets"@,
        es[3].0 == "styles"@,
        es[4].0 == "settings"@,
        es[5].0 == "fonts"@,
        es[6].0 == "symbols"@,
        es[7].0 == "publication"@,
    ensures
        distinct_keys(es),
{
    reveal_strlit("pages");
    reveal_strlit("pagesFolder");
    reveal_strlit("assets");
    reveal_strlit("styles");
    reveal_strlit("settings");
    reveal_strlit("fonts");
    reveal_strlit("symbols");
    reveal_strlit("publication");
    assert("pages"@.len() == 5);
    assert("pagesFolder"@.len() == 11);
    assert("assets"@.len() == 6);
    assert("styles"@.len() == 6);
    assert("settings"@.len() == 8);
    assert("fonts"@.len() == 5);
    assert("symbols"@.len() == 7);
    assert("publication"@.len() == 11);
    assert("pages"@[0] == 'p');
    assert("fonts"@[0] == 'f');
    assert("assets"@[0] == 'a');
    assert("styles"@[0] == 's');
    assert("pagesFolder"@[1] == 'a');
    assert("publication"@[1] == 'u');
    assert("pages"@ != "pagesFolder"@);
    assert("pages"@ != "assets"@);
    assert("pages"@ != "styles"@);
    assert("pages"@ != "settings"@);
    assert("pages"@ != "fonts"@);
    assert("pages"@ != "symbols"@);
    assert("pages"@ != "publication"@);
    assert("pagesFolder"@ != "assets"@);
    assert("pagesFolder"@ != "styles"@);
    assert("pagesFolder"@ != "settings"@);
    assert("pagesFolder"@ != "fonts"@);
    assert("pagesFolder"@ != "symbols"@);
    assert("pagesFolder"@ != "publication"@);
    assert("assets"@ != "styles"@);
    assert("assets"@ != "settings"@);
    assert("assets"@ != "fonts"@);
    assert("assets"@ != "symbols"@);
    assert("assets"@ != "publication"@);
    assert("styles"@ != "settings"@);
    assert("styles"@ != "fonts"@);
    assert("styles"@ != "symbols"@);
    assert("styles"@ != "publication"@);
    assert("settings"@ != "fonts"@);
    assert("settings"@ != "symbols"@);
    assert("settings"@ != "publication"@);
    assert("fonts"@ != "symbols"@);
    assert("fonts"@ != "publication"@);
    assert("symbols"@ != "publication"@);
}

/// The three keys of a page reference are distinct.
proof fn proof_ref_keys_distinct(es: Seq<(Seq<char>, Jv)>)
    requires
        es.len() == 3,
        es[0].0 == "name"@,
        es[1].0 == "id"@,
        es[2].0 == "isFile"@,
    ensures
        distinct_keys(es),
{
    reveal_strlit("name");
    reveal_strlit("id");
    reveal_strlit("isFile");
    assert("name"@.len() == 4);
    assert("id"@.len() == 2);
    assert("isFile"@.len() == 6);
    assert("name"@ != "id"@);
    assert("name"@ != "isFile"@);
    assert("id"@ != "isFile"@);
}

/// The name of the file a page is split out to, within the pages folder.
pub open spec fn split_fname(w: WData, i: int) -> Seq<char> {
    page_file_name(page_name_of(w.pages[i]), merge_id_of(w.pages[i]))
}

/// When every file lies under the pages folder, the kept names are exactly
/// the paths with the folder prefix stripped, in order.
proof fn lemma_kept_names_all(files: Seq<(Seq<char>, Jv)>, folder: Seq<char>)
    requires
        forall|i: int| 0 <= i < files.len() ==> spec_starts_with(
            #[trigger] files[i].0,
            folder + "/"@,
        ),
    ensures
        spec_kept_names(files, folder) == Seq::new(
            files.len(),
            |i: int| files[i].0.skip(folder.len() as int + 1),
        ),
    decreases files.len(),
{
    if files.len() > 0 {
        let t = files.drop_first();
        assert(forall|i: int| 0 <= i < t.len() ==> t[i] == files[i + 1]);
        lemma_kept_names_all(t, folder);
        let p = files[0].0;
        assert(spec_starts_with(p, folder + "/"@));
        assert(spec_starts_with(p, folder)) by {
            assert(p.take(folder.len() as int) =~= p.take((folder + "/"@).len() as int).take(
                folder.len() as int,
            ));
            assert((folder + "/"@).take(folder.len() as int) =~= folder);
        }
        reveal_strlit("/");
        assert((folder + "/"@).len() == folder.len() + 1);
        assert(crate::fs_storage::strip_folder(p, folder) == p.skip(folder.len() as int + 1));
        assert(spec_kept_names(files, folder) =~= Seq::new(
            files.len(),
            |i: int| files[i].0.skip(folder.len() as int + 1),
        ));
    }
}

/// When every listed name is kept, the garbage collection deletes nothing.
proof fn lemma_stale_none(a: Seq<Seq<char>>, keep: Seq<Seq<char>>)
    requires
        forall|i: int| 0 <= i < a.len() ==> keep.contains(#[trigger] a[i]),
    ensures
        spec_stale(a, keep) == Seq::<Seq<char>>::empty(),
    decreases a.len(),
{
    if a.len() > 0 {
        assert(forall|i: int| 0 <= i < a.drop_first().len() ==> a.drop_first()[i] == a[i + 1]);
        lemma_stale_none(a.drop_first(), keep);
        assert(keep.contains(a[0]));
        assert(spec_stale(a, keep) =~= Seq::<Seq<char>>::empty());
    }
}

/// What an update keeps in the pages folder: one file name per page, in
/// page order — provided the main data file's name does not itself begin
/// with the folder name.
pub proof fn lemma_kept_names_of_split(w: WData)
    requires
        forall|i: int| 0 <= i < w.pages.len() ==> #[trigger] page_id_of(w.pages[i]) is Some,
        !spec_starts_with("website.json"@, spec_pages_folder(w.pages_folder)),
    ensures
        spec_kept_names(spec_split(w), spec_pages_folder(w.pages_folder)) == Seq::new(
            w.pages.len(),
            |i: int| split_fname(w, i),
        ),
{
    let folder = spec_pages_folder(w.pages_folder);
    let n = w.pages.len() as int;
    lemma_split_pages_all_ids(w.pages, folder);
    let pfiles = spec_split_pages(w.pages, folder).0;
    let main = spec_sort(spec_main_doc(w));
    let tail = seq![("website.json"@, main)];
    assert(spec_split(w) =~= pfiles + tail);
    crate::fs_storage::lemma_kept_names_concat(pfiles, tail, folder);
    assert forall|i: int| 0 <= i < pfiles.len() implies spec_starts_with(
        #[trigger] pfiles[i].0,
        folder + "/"@,
    ) by {
        assert(pfiles[i].0 == folder + "/"@ + split_fname(w, i));
        assert(pfiles[i].0.take((folder + "/"@).len() as int) =~= folder + "/"@);
    }
    lemma_kept_names_all(pfiles, folder);
    assert(tail.drop_first() =~= Seq::<(Seq<char>, Jv)>::empty());
    assert(spec_kept_names(Seq::<(Seq<char>, Jv)>::empty(), folder) =~= Seq::<Seq<char>>::empty());
    assert(spec_kept_names(tail, folder) =~= Seq::<Seq<char>>::empty());
    assert forall|i: int| 0 <= i < n implies (folder + "/"@ + split_fname(w, i)).skip(
        folder.len() as int + 1,
    ) =~= split_fname(w, i) by {
        reveal_strlit("/");
        assert(("/"@).len() == 1);
    }
    assert(spec_kept_names(spec_split(w), folder) =~= Seq::new(
        w.pages.len(),
        |i: int| split_fname(w, i),
    ));
}

/// Updating after removing one page deletes exactly that page's file from
/// the pages folder, and no other.  The directory is assumed to hold what
/// the previous update wrote.
pub proof fn lemma_update_deletes_exactly_removed_page(w1: WData, w2: WData, k: int)
    requires
        0 <= k < w1.pages.len(),
        forall|i: int| 0 <= i < w1.pages.len() ==> #[trigger] page_id_of(w1.pages[i]) is Some,
        forall|i: int, j: int| 0 <= i < j < w1.pages.len() ==> split_path(w1, i) != split_path(
            w1,
            j,
        ),
        w2.pages_folder == w1.pages_folder,
        w2.pages == w1.pages.subrange(0, k) + w1.pages.subrange(k + 1, w1.pages.len() as int),
        !spec_starts_with("website.json"@, spec_pages_folder(w1.pages_folder)),
    ensures
        spec_stale(
            spec_kept_names(spec_split(w1), spec_pages_folder(w1.pages_folder)),
            spec_kept_names(spec_split(w2), spec_pages_folder(w2.pages_folder)),
        ) == seq![split_fname(w1, k)],
{
    let folder = spec_pages_folder(w1.pages_folder);
    let n = w1.pages.len() as int;
    assert(w2.pages.len() == n - 1);
    assert(forall|i: int| 0 <= i < k ==> w2.pages[i] == w1.pages[i]);
    assert(forall|i: int| k <= i < n - 1 ==> w2.pages[i] == w1.pages[i + 1]);
    assert(forall|i: int| 0 <= i < n - 1 ==> #[trigger] page_id_of(w2.pages[i]) is Some);
    lemma_kept_names_of_split(w1);
    lemma_kept_names_of_split(w2);
    let existing = spec_kept_names(spec_split(w1), folder);
    let keep = spec_kept_names(spec_split(w2), folder);
    assert(existing.len() == n);
    assert(keep.len() == n - 1);
    assert(forall|i: int| 0 <= i < k ==> #[trigger] keep[i] == split_fname(w1, i));
    assert(forall|i: int| k <= i < n - 1 ==> #[trigger] keep[i] == split_fname(w1, i + 1));

    // Distinct paths under one folder mean distinct file names.
    assert forall|i: int, j: int| 0 <= i < j < n implies split_fname(w1, i) != split_fname(
        w1,
        j,
    ) by {
        if split_fname(w1, i) == split_fname(w1, j) {
            assert(split_path(w1, i) == split_path(w1, j));
        }
    }

    // Split the listing around the removed page's file.
    let a = existing.subrange(0, k);
    let b = existing.subrange(k + 1, n);
    assert(existing =~= a + (seq![split_fname(w1, k)] + b));
    crate::fs_storage::lemma_stale_concat(a, seq![split_fname(w1, k)] + b, keep);
    crate::fs_storage::lemma_stale_concat(seq![split_fname(w1, k)], b, keep);

    // Every other file name is kept, so nothing else is deleted.
    assert forall|i: int| 0 <= i < a.len() implies keep.contains(#[trigger] a[i]) by {
        assert(a[i] == split_fname(w1, i));
        assert(keep[i] == split_fname(w1, i));
    }
    lemma_stale_none(a, keep);
    assert forall|i: int| 0 <= i < b.len() implies keep.contains(#[trigger] b[i]) by {
        assert(b[i] == split_fname(w1, k + 1 + i));
        assert(keep[k + i] == split_fname(w1, k + 1 + i));
    }
    lemma_stale_none(b, keep);

    // The removed page's file carries the JSON suffix and is not kept.
    let f = split_fname(w1, k);
    assert(spec_ends_with(f, ".json"@)) by {
        assert(f.skip(f.len() - ".json"@.len()) =~= ".json"@);
    }
    assert(!keep.contains(f)) by {
        if keep.contains(f) {
            let i = choose|i: int| 0 <= i < keep.len() && keep[i] == f;
            if i < k {
                assert(keep[i] == split_fname(w1, i));
            } else {
                assert(keep[i] == split_fname(w1, i + 1));
            }
        }
    }
    assert(seq![f].drop_first() =~= Seq::<Seq<char>>::empty());
    assert(spec_stale(Seq::<Seq<char>>::empty(), keep) =~= Seq::<Seq<char>>::empty());
    assert(spec_stale(seq![f], keep) =~= seq![f]);
    assert(spec_stale(existing, keep) =~= seq![f]);
}

/// Distinct page ids of one fixed length (as generated ids are) give
/// distinct page file paths, whatever the page names: the id occupies a
/// fixed tail position of the file name, so equal paths would mean equal
/// ids.
pub proof fn lemma_distinct_ids_give_distinct_paths(w: WData, idlen: nat)
    requires
        forall|i: int| 0 <= i < w.pages.len() ==> #[trigger] page_id_of(w.pages[i]) is Some,
        forall|i: int| 0 <= i < w.pages.len() ==> #[trigger] merge_id_of(w.pages[i]).len()
            == idlen,
        forall|i: int, j: int| 0 <= i < j < w.pages.len() ==> merge_id_of(w.pages[i])
            != merge_id_of(w.pages[j]),
    ensures
        forall|i: int, j: int| 0 <= i < j < w.pages.len() ==> split_path(w, i) != split_path(w, j),
{
    reveal_strlit("/");
    reveal_strlit("-");
    reveal_strlit(".json");
    assert(("/"@).len() == 1);
    assert(("-"@).len() == 1);
    assert((".json"@).len() == 5);
    let folder = spec_pages_folder(w.pages_folder);
    assert forall|i: int, j: int| 0 <= i < j < w.pages.len() implies split_path(w, i)
        != split_path(w, j) by {
        if split_path(w, i) == split_path(w, j) {
            let fi = split_fname(w, i);
            let fj = split_fname(w, j);
            assert(fi =~= split_path(w, i).skip(folder.len() as int + 1));
            assert(fj =~= split_path(w, j).skip(folder.len() as int + 1));
            assert(fi == fj);
            let idi = merge_id_of(w.pages[i]);
            let idj = merge_id_of(w.pages[j]);
            let si = spec_slug(page_name_of(w.pages[i])).len() as int;
            let sj = spec_slug(page_name_of(w.pages[j])).len() as int;
            assert(fi.len() == si + 1 + idlen + 5);
            assert(fj.len() == sj + 1 + idlen + 5);
            assert(si == sj);
            assert(idi =~= fi.subrange(si + 1, si + 1 + idlen as int));
            assert(idj =~= fj.subrange(sj + 1, sj + 1 + idlen as int));
            assert(idi == idj);
        }
    }
}

/// A fully embedded document is read as it stands: when its first page
/// carries no file marker (or it has no pages at all), the merge never
/// engages.
pub proof fn lemma_legacy_document_kept(j: Jv)
    requires
        spec_merge_pages(j).len() == 0 || jv_lookup(spec_merge_pages(j)[0], "isFile"@) is None,
    ensures
        !spec_merge_mode(j),
{
}

/// Garbage collection never deletes a file without the JSON suffix.
pub proof fn lemma_gc_spares_other_files(
    existing: Seq<Seq<char>>,
    keep: Seq<Seq<char>>,
    x: Seq<char>,
)
    requires
        !spec_ends_with(x, ".json"@),
    ensures
        !spec_stale(existing, keep).contains(x),
{
    lemma_stale_membership(existing, keep, x);
}

} // verus!
