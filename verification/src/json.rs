//! The JSON document model the storage engine works on.
//!
//! Pages, assets, styles and settings are structured documents the editor
//! owns; the engine only reads a few well-known fields and otherwise passes
//! them through verbatim.  [`JsonValue`] is the executable representation; a
//! number is kept as its decimal rendering so the engine never interprets it.
//! The mathematical model is [`Jv`], reached through the view `@`.
//!
//! Serialization orders object keys, recursively at every nesting level, so
//! that output is deterministic; [`sort_json_keys`] is that ordering step and
//! [`spec_sort`] its specification.

use vstd::prelude::*;

use crate::text::str_le;
use crate::text::str_le_exec;
use crate::text::str_eq;

verus! {

/// Mathematical model of a JSON document.
pub ghost enum Jv {
    Null,
    Bool(bool),
    Num(Seq<char>),
    Str(Seq<char>),
    Arr(Seq<Jv>),
    Obj(Seq<(Seq<char>, Jv)>),
}

/// A JSON document as the engine holds it.
///
/// Object entries keep their insertion order; a number keeps the decimal
/// rendering it was read with.
#[derive(Debug, PartialEq)]
pub enum JsonValue {
    Null,
    Bool(bool),
    Num(String),
    Str(String),
    Array(Vec<JsonValue>),
    Object(Vec<(String, JsonValue)>),
}

/// The model of a document.
pub open spec fn jv_of(v: JsonValue) -> Jv
    decreases v,
{
    match v {
        JsonValue::Null => Jv::Null,
        JsonValue::Bool(b) => Jv::Bool(b),
        JsonValue::Num(s) => Jv::Num(s@),
        JsonValue::Str(s) => Jv::Str(s@),
        JsonValue::Array(items) => Jv::Arr(jvs_of(items@)),
        JsonValue::Object(entries) => Jv::Obj(jes_of(entries@)),
    }
}

/// The model of a sequence of optional documents.
pub open spec fn opt_jvs_view(s: Seq<Option<JsonValue>>) -> Seq<Option<Jv>> {
    Seq::new(
        s.len(),
        |i: int|
            match s[i] {
                Option::Some(v) => Option::Some(v@),
                Option::None => Option::None,
            },
    )
}

/// The model of a sequence of documents.
pub open spec fn jvs_of(s: Seq<JsonValue>) -> Seq<Jv>
    decreases s,
{
    if s.len() == 0 {
        Seq::empty()
    } else {
        seq![jv_of(s[0])] + jvs_of(s.drop_first())
    }
}

/// The model of a sequence of object entries.
pub open spec fn jes_of(s: Seq<(String, JsonValue)>) -> Seq<(Seq<char>, Jv)>
    decreases s,
{
    if s.len() == 0 {
        Seq::empty()
    } else {
        seq![(s[0].0@, jv_of(s[0].1))] + jes_of(s.drop_first())
    }
}

impl View for JsonValue {
    type V = Jv;

    open spec fn view(&self) -> Jv {
        jv_of(*self)
    }
}

/// [`jvs_of`] maps the model over the sequence, element by element.
pub proof fn lemma_jvs_of(s: Seq<JsonValue>)
    ensures
        jvs_of(s).len() == s.len(),
        forall|i: int| 0 <= i < s.len() ==> jvs_of(s)[i] == jv_of(s[i]),
    decreases s.len(),
{
    if s.len() > 0 {
        lemma_jvs_of(s.drop_first());
    }
}

/// [`jes_of`] maps the model over the entries, keeping keys and order.
pub proof fn lemma_jes_of(s: Seq<(String, JsonValue)>)
    ensures
        jes_of(s).len() == s.len(),
        forall|i: int| 0 <= i < s.len() ==> jes_of(s)[i] == (s[i].0@, jv_of(s[i].1)),
    decreases s.len(),
{
    if s.len() > 0 {
        lemma_jes_of(s.drop_first());
    }
}

/// Nesting depth of a document; the termination measure of the functions
/// that walk documents.
pub open spec fn jheight(j: Jv) -> nat
    decreases j,
{
    match j {
        Jv::Arr(items) => 1 + jsheight(items),
        Jv::Obj(es) => 1 + jesheight(es),
        _ => 0,
    }
}

/// Largest nesting depth among a sequence of documents.
pub open spec fn jsheight(s: Seq<Jv>) -> nat
    decreases s,
{
    if s.len() == 0 {
        0
    } else if jheight(s[0]) >= jsheight(s.drop_first()) {
        jheight(s[0])
    } else {
        jsheight(s.drop_first())
    }
}

/// Largest nesting depth among the values of object entries.
pub open spec fn jesheight(s: Seq<(Seq<char>, Jv)>) -> nat
    decreases s,
{
    if s.len() == 0 {
        0
    } else if jheight(s[0].1) >= jesheight(s.drop_first()) {
        jheight(s[0].1)
    } else {
        jesheight(s.drop_first())
    }
}

/// An element is at most as deep as the deepest of the sequence.
pub proof fn lemma_jsheight_elem(s: Seq<Jv>, i: int)
    requires
        0 <= i < s.len(),
    ensures
        jheight(s[i]) <= jsheight(s),
    decreases s.len(),
{
    if i > 0 {
        lemma_jsheight_elem(s.drop_first(), i - 1);
    }
}

/// An entry's value is at most as deep as the deepest of the entries.
pub proof fn lemma_jesheight_elem(s: Seq<(Seq<char>, Jv)>, i: int)
    requires
        0 <= i < s.len(),
    ensures
        jheight(s[i].1) <= jesheight(s),
    decreases s.len(),
{
    if i > 0 {
        lemma_jesheight_elem(s.drop_first(), i - 1);
    }
}

/// First-match lookup among object entries.
pub open spec fn jv_get(es: Seq<(Seq<char>, Jv)>, k: Seq<char>) -> Option<Jv>
    decreases es.len(),
{
    if es.len() == 0 {
        None
    } else if es[0].0 == k {
        Some(es[0].1)
    } else {
        jv_get(es.drop_first(), k)
    }
}

/// Lookup of a key in a document: the value when the document is an object
/// holding the key, nothing otherwise.
pub open spec fn jv_lookup(j: Jv, k: Seq<char>) -> Option<Jv> {
    match j {
        Jv::Obj(es) => jv_get(es, k),
        _ => None,
    }
}

/// No entry carries the key, so lookup fails.
pub proof fn lemma_get_absent(es: Seq<(Seq<char>, Jv)>, k: Seq<char>)
    requires
        forall|i: int| 0 <= i < es.len() ==> es[i].0 != k,
    ensures
        jv_get(es, k) is None,
    decreases es.len(),
{
    if es.len() > 0 {
        lemma_get_absent(es.drop_first(), k);
    }
}

/// Lookup ignores entries before position `i` when none of them carries the key.
pub proof fn lemma_get_skip(es: Seq<(Seq<char>, Jv)>, k: Seq<char>, i: int)
    requires
        0 <= i <= es.len(),
        forall|j: int| 0 <= j < i ==> es[j].0 != k,
    ensures
        jv_get(es, k) == jv_get(es.skip(i), k),
    decreases i,
{
    if i > 0 {
        assert(es.drop_first().skip(i - 1) =~= es.skip(i));
        lemma_get_skip(es.drop_first(), k, i - 1);
    } else {
        assert(es.skip(0) =~= es);
    }
}

/// Lookup of a key that first occurs at position `i` finds that entry.
pub proof fn lemma_get_at_index(es: Seq<(Seq<char>, Jv)>, i: int)
    requires
        0 <= i < es.len(),
        forall|j: int| 0 <= j < i ==> es[j].0 != es[i].0,
    ensures
        jv_get(es, es[i].0) == Some(es[i].1),
{
    lemma_get_skip(es, es[i].0, i);
    assert(es.skip(i)[0] == es[i]);
}

impl JsonValue {
    /// Look a key up in this document; `None` unless the document is an
    /// object holding the key.
    pub fn get<'a>(&'a self, key: &str) -> (r: Option<&'a JsonValue>)
        ensures
            match r {
                Some(v) => jv_lookup(self@, key@) == Some(v@),
                None => jv_lookup(self@, key@) is None,
            },
    {
        match self {
            JsonValue::Object(entries) => {
                proof {
                    lemma_jes_of(entries@);
                }
                let ghost es = jes_of(entries@);
                let n: usize = entries.len();
                let mut i: usize = 0;
                while i < n
                    invariant
                        i <= n,
                        n == entries@.len(),
                        es == jes_of(entries@),
                        es.len() == n,
                        forall|j: int| 0 <= j < n ==> es[j] == (entries@[j].0@, jv_of(
                            entries@[j].1,
                        )),
                        self@ == Jv::Obj(es),
                        forall|j: int| 0 <= j < i ==> es[j].0 != key@,
                    decreases n - i,
                {
                    if str_eq(entries[i].0.as_str(), key) {
                        proof {
                            lemma_get_skip(es, key@, i as int);
                            assert(es.skip(i as int)[0] == es[i as int]);
                        }
                        return Some(&entries[i].1);
                    }
                    i = i + 1;
                }
                proof {
                    lemma_get_absent(es, key@);
                }
                None
            },
            _ => None,
        }
    }

    /// The contained text when this document is a string.
    pub fn as_str(&self) -> (r: Option<&String>)
        ensures
            match r {
                Some(s) => self@ == Jv::Str(s@),
                None => !(self@ is Str),
            },
    {
        match self {
            JsonValue::Str(s) => Some(s),
            _ => None,
        }
    }

    /// The contained truth value when this document is a boolean.
    pub fn as_bool(&self) -> (r: Option<bool>)
        ensures
            match r {
                Some(b) => self@ == Jv::Bool(b),
                None => !(self@ is Bool),
            },
    {
        match self {
            JsonValue::Bool(b) => Some(*b),
            _ => None,
        }
    }

    /// The contained items when this document is an array.
    pub fn as_array(&self) -> (r: Option<&Vec<JsonValue>>)
        ensures
            match r {
                Some(items) => self@ == Jv::Arr(jvs_of(items@)),
                None => !(self@ is Arr),
            },
    {
        match self {
            JsonValue::Array(items) => Some(items),
            _ => None,
        }
    }

    /// The contained entries when this document is an object.
    pub fn as_object(&self) -> (r: Option<&Vec<(String, JsonValue)>>)
        ensures
            match r {
                Some(entries) => self@ == Jv::Obj(jes_of(entries@)),
                None => !(self@ is Obj),
            },
    {
        match self {
            JsonValue::Object(entries) => Some(entries),
            _ => None,
        }
    }

    /// A structurally equal copy of this document.
    pub fn deep_copy(&self) -> (r: JsonValue)
        ensures
            r@ == self@,
        decreases jheight(self@),
    {
        match self {
            JsonValue::Null => JsonValue::Null,
            JsonValue::Bool(b) => JsonValue::Bool(*b),
            JsonValue::Num(s) => JsonValue::Num(s.clone()),
            JsonValue::Str(s) => JsonValue::Str(s.clone()),
            JsonValue::Array(items) => {
                proof {
                    lemma_jvs_of(items@);
                }
                let n: usize = items.len();
                let mut out: Vec<JsonValue> = Vec::new();
                let mut i: usize = 0;
                while i < n
                    invariant
                        i <= n,
                        n == items@.len(),
                        self@ == Jv::Arr(jvs_of(items@)),
                        jvs_of(items@).len() == n,
                        forall|j: int| 0 <= j < n ==> jvs_of(items@)[j] == jv_of(items@[j]),
                        out@.len() == i,
                        forall|j: int| 0 <= j < i ==> out@[j]@ == items@[j]@,
                    decreases n - i,
                {
                    proof {
                        lemma_jsheight_elem(jvs_of(items@), i as int);
                    }
                    let c: JsonValue = items[i].deep_copy();
                    out.push(c);
                    i = i + 1;
                }
                proof {
                    lemma_jvs_of(out@);
                    assert(jvs_of(out@) =~= jvs_of(items@));
                }
                JsonValue::Array(out)
            },
            JsonValue::Object(entries) => {
                proof {
                    lemma_jes_of(entries@);
                }
                let n: usize = entries.len();
                let mut out: Vec<(String, JsonValue)> = Vec::new();
                let mut i: usize = 0;
                while i < n
                    invariant
                        i <= n,
                        n == entries@.len(),
                        self@ == Jv::Obj(jes_of(entries@)),
                        jes_of(entries@).len() == n,
                        forall|j: int| 0 <= j < n ==> jes_of(entries@)[j] == (entries@[j].0@, jv_of(
                            entries@[j].1,
                        )),
                        out@.len() == i,
                        forall|j: int| 0 <= j < i
                            ==> out@[j].0@ == entries@[j].0@ && out@[j].1@ == entries@[j].1@,
                    decreases n - i,
                {
                    proof {
                        lemma_jesheight_elem(jes_of(entries@), i as int);
                    }
                    let k: String = entries[i].0.clone();
                    let c: JsonValue = entries[i].1.deep_copy();
                    out.push((k, c));
                    i = i + 1;
                }
                proof {
                    lemma_jes_of(out@);
                    assert(jes_of(out@) =~= jes_of(entries@));
                }
                JsonValue::Object(out)
            },
        }
    }
}

/// A structurally equal copy of a sequence of documents.
pub fn copy_values(items: &Vec<JsonValue>) -> (r: Vec<JsonValue>)
    ensures
        jvs_of(r@) == jvs_of(items@),
{
    proof {
        lemma_jvs_of(items@);
    }
    let n: usize = items.len();
    let mut out: Vec<JsonValue> = Vec::new();
    let mut i: usize = 0;
    while i < n
        invariant
            i <= n,
            n == items@.len(),
            out@.len() == i,
            forall|j: int| 0 <= j < i ==> out@[j]@ == items@[j]@,
        decreases n - i,
    {
        let c: JsonValue = items[i].deep_copy();
        out.push(c);
        i = i + 1;
    }
    proof {
        lemma_jvs_of(out@);
        assert(jvs_of(out@) =~= jvs_of(items@));
    }
    out
}

/// A structurally equal copy of a sequence of object entries.
pub fn copy_entries(entries: &Vec<(String, JsonValue)>) -> (r: Vec<(String, JsonValue)>)
    ensures
        jes_of(r@) == jes_of(entries@),
{
    proof {
        lemma_jes_of(entries@);
    }
    let n: usize = entries.len();
    let mut out: Vec<(String, JsonValue)> = Vec::new();
    let mut i: usize = 0;
    while i < n
        invariant
            i <= n,
            n == entries@.len(),
            out@.len() == i,
            forall|j: int| 0 <= j < i
                ==> out@[j].0@ == entries@[j].0@ && out@[j].1@ == entries@[j].1@,
        decreases n - i,
    {
        let k: String = entries[i].0.clone();
        let c: JsonValue = entries[i].1.deep_copy();
        out.push((k, c));
        i = i + 1;
    }
    proof {
        lemma_jes_of(out@);
        assert(jes_of(out@) =~= jes_of(entries@));
    }
    out
}

/// Place an entry into an entry sequence that is already sorted, keeping the
/// sort order; on equal keys the new entry comes first.
pub open spec fn insert_entry(
    x: (Seq<char>, Jv),
    t: Seq<(Seq<char>, Jv)>,
) -> Seq<(Seq<char>, Jv)>
    decreases t.len(),
{
    if t.len() == 0 {
        seq![x]
    } else if str_le(x.0, t[0].0) {
        seq![x] + t
    } else {
        seq![t[0]] + insert_entry(x, t.drop_first())
    }
}

/// Insertion sort of object entries by key.
pub open spec fn spec_sort_entries(s: Seq<(Seq<char>, Jv)>) -> Seq<(Seq<char>, Jv)>
    decreases s.len(),
{
    if s.len() == 0 {
        s
    } else {
        insert_entry(s[0], spec_sort_entries(s.drop_first()))
    }
}

/// A document with object keys sorted recursively at every nesting level.
pub open spec fn spec_sort(j: Jv) -> Jv
    decreases j,
{
    match j {
        Jv::Arr(items) => Jv::Arr(spec_sort_seq(items)),
        Jv::Obj(es) => Jv::Obj(spec_sort_entries(spec_sort_values(es))),
        _ => j,
    }
}

/// Each document of the sequence with its keys sorted.
pub open spec fn spec_sort_seq(s: Seq<Jv>) -> Seq<Jv>
    decreases s,
{
    if s.len() == 0 {
        Seq::empty()
    } else {
        seq![spec_sort(s[0])] + spec_sort_seq(s.drop_first())
    }
}

/// Each entry value with its keys sorted; keys and order untouched.
pub open spec fn spec_sort_values(es: Seq<(Seq<char>, Jv)>) -> Seq<(Seq<char>, Jv)>
    decreases es,
{
    if es.len() == 0 {
        Seq::empty()
    } else {
        seq![(es[0].0, spec_sort(es[0].1))] + spec_sort_values(es.drop_first())
    }
}

/// [`spec_sort_seq`] maps [`spec_sort`] over the sequence.
pub proof fn lemma_spec_sort_seq(s: Seq<Jv>)
    ensures
        spec_sort_seq(s).len() == s.len(),
        forall|i: int| 0 <= i < s.len() ==> spec_sort_seq(s)[i] == spec_sort(s[i]),
    decreases s.len(),
{
    if s.len() > 0 {
        lemma_spec_sort_seq(s.drop_first());
    }
}

/// [`spec_sort_values`] maps [`spec_sort`] over the entry values.
pub proof fn lemma_spec_sort_values(es: Seq<(Seq<char>, Jv)>)
    ensures
        spec_sort_values(es).len() == es.len(),
        forall|i: int| 0 <= i < es.len() ==> spec_sort_values(es)[i] == (
            es[i].0,
            spec_sort(es[i].1),
        ),
    decreases es.len(),
{
    if es.len() > 0 {
        lemma_spec_sort_values(es.drop_first());
    }
}

/// No two entries carry the same key.
pub open spec fn distinct_keys(es: Seq<(Seq<char>, Jv)>) -> bool {
    forall|i: int, j: int| 0 <= i < j < es.len() ==> es[i].0 != es[j].0
}

/// Entries in ascending key order.
pub open spec fn sorted_entries(es: Seq<(Seq<char>, Jv)>) -> bool {
    forall|i: int, j: int| 0 <= i < j < es.len() ==> str_le(#[trigger] es[i].0, #[trigger] es[j].0)
}

/// Every entry of an insertion is the inserted one or one of the old ones.
proof fn lemma_insert_entry_elems(x: (Seq<char>, Jv), t: Seq<(Seq<char>, Jv)>)
    ensures
        insert_entry(x, t).len() == t.len() + 1,
        forall|k: int| 0 <= k < insert_entry(x, t).len() ==> (#[trigger] insert_entry(x, t)[k] == x
            || t.contains(insert_entry(x, t)[k])),
    decreases t.len(),
{
    if t.len() == 0 {
    } else if str_le(x.0, t[0].0) {
    } else {
        lemma_insert_entry_elems(x, t.drop_first());
        let r = insert_entry(x, t);
        assert forall|k: int| 0 <= k < r.len() implies (#[trigger] r[k] == x || t.contains(
            r[k],
        )) by {
            if k == 0 {
                assert(t[0] == r[0]);
            } else {
                let inner = insert_entry(x, t.drop_first());
                assert(r[k] == inner[k - 1]);
                if inner[k - 1] != x {
                    let m = choose|m: int|
                        0 <= m < t.drop_first().len() && t.drop_first()[m] == inner[k - 1];
                    assert(t[m + 1] == inner[k - 1]);
                }
            }
        }
    }
}

/// Inserting into a sorted entry list keeps it sorted.
proof fn lemma_insert_entry_sorted(x: (Seq<char>, Jv), t: Seq<(Seq<char>, Jv)>)
    requires
        sorted_entries(t),
    ensures
        sorted_entries(insert_entry(x, t)),
    decreases t.len(),
{
    if t.len() == 0 {
    } else if str_le(x.0, t[0].0) {
        let r = seq![x] + t;
        assert forall|i: int, j: int| 0 <= i < j < r.len() implies str_le(
            #[trigger] r[i].0,
            #[trigger] r[j].0,
        ) by {
            if i == 0 {
                if j > 1 {
                    crate::text::lemma_str_le_trans(x.0, t[0].0, t[j - 1].0);
                }
            }
        }
    } else {
        crate::text::lemma_str_lt_total(x.0, t[0].0);
        assert(str_le(t[0].0, x.0));
        assert(sorted_entries(t.drop_first()));
        lemma_insert_entry_sorted(x, t.drop_first());
        lemma_insert_entry_elems(x, t.drop_first());
        let inner = insert_entry(x, t.drop_first());
        let r = seq![t[0]] + inner;
        assert forall|i: int, j: int| 0 <= i < j < r.len() implies str_le(
            #[trigger] r[i].0,
            #[trigger] r[j].0,
        ) by {
            if i == 0 {
                assert(r[j] == inner[j - 1]);
                if inner[j - 1] == x {
                } else {
                    let m = choose|m: int|
                        0 <= m < t.drop_first().len() && t.drop_first()[m] == inner[j - 1];
                    assert(t[m + 1] == inner[j - 1]);
                    assert(str_le(t[0].0, t[m + 1].0));
                }
            }
        }
    }
}

/// The key sort leaves the entries in ascending key order.
pub proof fn lemma_sort_entries_sorted(s: Seq<(Seq<char>, Jv)>)
    ensures
        sorted_entries(spec_sort_entries(s)),
    decreases s.len(),
{
    if s.len() > 0 {
        lemma_sort_entries_sorted(s.drop_first());
        lemma_insert_entry_sorted(s[0], spec_sort_entries(s.drop_first()));
    }
}

/// Inserting an entry whose key is absent leaves every other lookup as it
/// was and makes the new key resolve to the new value.
pub proof fn lemma_insert_get(x: (Seq<char>, Jv), t: Seq<(Seq<char>, Jv)>, k: Seq<char>)
    requires
        jv_get(t, x.0) is None,
    ensures
        jv_get(insert_entry(x, t), k) == if k == x.0 {
            Some(x.1)
        } else {
            jv_get(t, k)
        },
    decreases t.len(),
{
    if t.len() == 0 {
        assert(insert_entry(x, t) =~= seq![x]);
        assert(seq![x].drop_first() =~= Seq::<(Seq<char>, Jv)>::empty());
    } else if str_le(x.0, t[0].0) {
        assert((seq![x] + t).drop_first() =~= t);
    } else {
        let rest = insert_entry(x, t.drop_first());
        lemma_insert_get(x, t.drop_first(), k);
        assert((seq![t[0]] + rest).drop_first() =~= rest);
    }
}

/// Sorting entries with distinct keys changes no lookup.
pub proof fn lemma_sort_entries_get(s: Seq<(Seq<char>, Jv)>, k: Seq<char>)
    requires
        distinct_keys(s),
    ensures
        jv_get(spec_sort_entries(s), k) == jv_get(s, k),
    decreases s.len(),
{
    if s.len() > 0 {
        let t = s.drop_first();
        assert(distinct_keys(t));
        lemma_sort_entries_get(t, k);
        lemma_sort_entries_get(t, s[0].0);
        assert(forall|i: int| 0 <= i < t.len() ==> t[i].0 != s[0].0);
        lemma_get_absent(t, s[0].0);
        lemma_insert_get(s[0], spec_sort_entries(t), k);
    }
}

/// Sorting entry values changes no key, so a lookup finds the sorted value.
pub proof fn lemma_get_value_mapped(es: Seq<(Seq<char>, Jv)>, k: Seq<char>)
    ensures
        jv_get(spec_sort_values(es), k) == match jv_get(es, k) {
            Some(v) => Some(spec_sort(v)),
            None => None,
        },
    decreases es.len(),
{
    if es.len() > 0 {
        lemma_get_value_mapped(es.drop_first(), k);
        assert(spec_sort_values(es).drop_first() =~= spec_sort_values(es.drop_first()));
    }
}

/// Sorting a well-formed object changes no lookup except to sort the value.
pub proof fn lemma_sort_lookup(j: Jv, k: Seq<char>)
    requires
        j is Obj,
        distinct_keys(j->Obj_0),
    ensures
        jv_lookup(spec_sort(j), k) == match jv_lookup(j, k) {
            Some(v) => Some(spec_sort(v)),
            None => None,
        },
{
    let es = j->Obj_0;
    let mapped = spec_sort_values(es);
    lemma_spec_sort_values(es);
    assert(distinct_keys(mapped));
    lemma_sort_entries_get(mapped, k);
    lemma_get_value_mapped(es, k);
}

/// Place an entry into an already sorted entry list, keeping the order.
fn insert_entry_exec(x: (String, JsonValue), t: Vec<(String, JsonValue)>) -> (r: Vec<
    (String, JsonValue),
>)
    ensures
        jes_of(r@) == insert_entry((x.0@, x.1@), jes_of(t@)),
    decreases t@.len(),
{
    proof {
        lemma_jes_of(t@);
    }
    let ghost xv = (x.0@, jv_of(x.1));
    let ghost tv = jes_of(t@);
    if t.len() == 0 {
        let mut r: Vec<(String, JsonValue)> = Vec::new();
        r.push(x);
        proof {
            lemma_jes_of(r@);
            assert(jes_of(r@) =~= seq![xv]);
        }
        r
    } else if str_le_exec(&x.0, &t[0].0) {
        let mut r = t;
        r.insert(0, x);
        proof {
            lemma_jes_of(r@);
            assert(jes_of(r@) =~= seq![xv] + tv);
        }
        r
    } else {
        let mut t = t;
        let head: (String, JsonValue) = t.remove(0);
        let ghost hv = (head.0@, jv_of(head.1));
        proof {
            lemma_jes_of(t@);
            assert(jes_of(t@) =~= tv.drop_first());
        }
        let mut r = insert_entry_exec(x, t);
        let ghost rec = r@;
        r.insert(0, head);
        proof {
            assert(r@.drop_first() =~= rec);
            lemma_jes_of(r@);
            lemma_jes_of(rec);
            assert(jes_of(r@) =~= seq![hv] + jes_of(rec));
        }
        r
    }
}

/// Insertion sort of object entries by key.
fn sort_entries_exec(es: Vec<(String, JsonValue)>) -> (r: Vec<(String, JsonValue)>)
    ensures
        jes_of(r@) == spec_sort_entries(jes_of(es@)),
    decreases es@.len(),
{
    proof {
        lemma_jes_of(es@);
    }
    let ghost ev = jes_of(es@);
    if es.len() == 0 {
        es
    } else {
        let mut es = es;
        let head: (String, JsonValue) = es.remove(0);
        proof {
            lemma_jes_of(es@);
            assert(jes_of(es@) =~= ev.drop_first());
            assert((head.0@, jv_of(head.1)) == ev[0]);
        }
        let sorted = sort_entries_exec(es);
        insert_entry_exec(head, sorted)
    }
}

/// A copy of the document with object keys sorted recursively at every
/// nesting level, the order page and site files are serialized in.
pub fn sort_json_keys(v: &JsonValue) -> (r: JsonValue)
    ensures
        r@ == spec_sort(v@),
    decreases jheight(v@),
{
    match v {
        JsonValue::Null => JsonValue::Null,
        JsonValue::Bool(b) => JsonValue::Bool(*b),
        JsonValue::Num(s) => JsonValue::Num(s.clone()),
        JsonValue::Str(s) => JsonValue::Str(s.clone()),
        JsonValue::Array(items) => {
            proof {
                lemma_jvs_of(items@);
            }
            let ghost model = jvs_of(items@);
            let n: usize = items.len();
            let mut out: Vec<JsonValue> = Vec::new();
            let mut i: usize = 0;
            while i < n
                invariant
                    i <= n,
                    n == items@.len(),
                    model == jvs_of(items@),
                    v@ == Jv::Arr(model),
                    model.len() == n,
                    forall|j: int| 0 <= j < n ==> model[j] == jv_of(items@[j]),
                    out@.len() == i,
                    forall|j: int| 0 <= j < i ==> out@[j]@ == spec_sort(model[j]),
                decreases n - i,
            {
                proof {
                    lemma_jsheight_elem(model, i as int);
                }
                let c: JsonValue = sort_json_keys(&items[i]);
                out.push(c);
                i = i + 1;
            }
            proof {
                lemma_jvs_of(out@);
                lemma_spec_sort_seq(model);
                assert(jvs_of(out@) =~= spec_sort_seq(model));
            }
            JsonValue::Array(out)
        },
        JsonValue::Object(entries) => {
            proof {
                lemma_jes_of(entries@);
            }
            let ghost es = jes_of(entries@);
            let n: usize = entries.len();
            let mut mapped: Vec<(String, JsonValue)> = Vec::new();
            let mut i: usize = 0;
            while i < n
                invariant
                    i <= n,
                    n == entries@.len(),
                    es == jes_of(entries@),
                    v@ == Jv::Obj(es),
                    es.len() == n,
                    forall|j: int| 0 <= j < n ==> es[j] == (entries@[j].0@, jv_of(entries@[j].1)),
                    mapped@.len() == i,
                    forall|j: int| 0 <= j < i
                        ==> mapped@[j].0@ == es[j].0 && mapped@[j].1@ == spec_sort(es[j].1),
                decreases n - i,
            {
                proof {
                    lemma_jesheight_elem(es, i as int);
                }
                let k: String = entries[i].0.clone();
                let c: JsonValue = sort_json_keys(&entries[i].1);
                mapped.push((k, c));
                i = i + 1;
            }
            proof {
                lemma_jes_of(mapped@);
                lemma_spec_sort_values(es);
                assert(jes_of(mapped@) =~= spec_sort_values(es));
            }
            let sorted = sort_entries_exec(mapped);
            JsonValue::Object(sorted)
        },
    }
}

} // verus!
