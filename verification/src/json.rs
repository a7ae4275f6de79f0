//! JSON values and their mathematical model.
use vstd::prelude::*;
use crate::text::{
    chars_of, dec, dec_int, dec_int_text, dec_text, lex_le, str_eq, string_of,
};

verus! {

/// A JSON value. A number is kept as its decimal text.
#[derive(Debug, PartialEq, Eq)]
pub enum Json {
    Null,
    Bool(bool),
    Number(String),
    Text(String),
    Array(Vec<Json>),
    Object(Vec<(String, Json)>),
}

/// The model of a JSON value: an object is the sequence of its entries.
pub enum JsonView {
    Null,
    Bool(bool),
    Number(Seq<char>),
    Text(Seq<char>),
    Array(Seq<JsonView>),
    Object(Seq<(Seq<char>, JsonView)>),
}

/// The first entry of `entries` under `key`.
pub open spec fn lookup(entries: Seq<(Seq<char>, JsonView)>, key: Seq<char>) -> Option<JsonView>
    decreases entries.len(),
{
    if entries.len() == 0 {
        None
    } else if entries[0].0 == key {
        Some(entries[0].1)
    } else {
        lookup(entries.skip(1), key)
    }
}

impl JsonView {
    /// What the object holds under `key`; `None` where it is no object or has no such key.
    pub open spec fn field(self, key: Seq<char>) -> Option<JsonView> {
        match self {
            JsonView::Object(entries) => lookup(entries, key),
            _ => None,
        }
    }

    /// The string itself, where the value is a string.
    pub open spec fn text(self) -> Option<Seq<char>> {
        match self {
            JsonView::Text(s) => Some(s),
            _ => None,
        }
    }

    /// The string that the object holds under `key`.
    pub open spec fn text_field(self, key: Seq<char>) -> Option<Seq<char>> {
        match self.field(key) {
            Some(v) => v.text(),
            None => None,
        }
    }
}

/// No entries: an object is written down by pushing its entries onto this.
pub open spec fn no_fields() -> Seq<(Seq<char>, JsonView)> {
    Seq::empty()
}

/// The models of a list of values.
pub open spec fn json_views(s: Seq<Json>) -> Seq<JsonView> {
    s.map_values(|j: Json| j@)
}

/// The models of a list of entries.
pub open spec fn entry_views(s: Seq<(String, Json)>) -> Seq<(Seq<char>, JsonView)> {
    s.map_values(|e: (String, Json)| (e.0@, e.1@))
}

/// The models of a list of strings.
pub open spec fn text_views(s: Seq<String>) -> Seq<JsonView> {
    s.map_values(|t: String| JsonView::Text(t@))
}

/// The model of an optional value.
pub open spec fn opt_json_view(o: Option<Json>) -> Option<JsonView> {
    match o {
        Some(j) => Some(j@),
        None => None,
    }
}

impl View for Json {
    type V = JsonView;

    open spec fn view(&self) -> JsonView
        decreases self,
    {
        match self {
            Json::Null => JsonView::Null,
            Json::Bool(b) => JsonView::Bool(*b),
            Json::Number(n) => JsonView::Number(n@),
            Json::Text(s) => JsonView::Text(s@),
            Json::Array(a) => JsonView::Array(
                Seq::new(
                    a@.len(),
                    |i: int|
                        if 0 <= i < a@.len() {
                            a@[i].view()
                        } else {
                            JsonView::Null
                        },
                ),
            ),
            Json::Object(o) => JsonView::Object(
                Seq::new(
                    o@.len(),
                    |i: int|
                        (
                            o@[i].0@,
                            if 0 <= i < o@.len() {
                                o@[i].1.view()
                            } else {
                                JsonView::Null
                            },
                        ),
                ),
            ),
        }
    }
}

/// The model of an array is the sequence of its items' models.
pub broadcast proof fn lemma_array_view(v: Vec<Json>)
    ensures
        #[trigger] Json::Array(v)@ == JsonView::Array(json_views(v@)),
{
    let j = Json::Array(v);
    assert(j@->Array_0 =~= json_views(v@));
}

/// The model of an object is the sequence of its entries' models.
pub broadcast proof fn lemma_object_view(v: Vec<(String, Json)>)
    ensures
        #[trigger] Json::Object(v)@ == JsonView::Object(entry_views(v@)),
{
    let j = Json::Object(v);
    assert forall|i: int| 0 <= i < v@.len() implies #[trigger] (j@->Object_0)[i] == entry_views(
        v@,
    )[i] by {
        assert((j@->Object_0)[i].1 == v@[i].1@);
    }
    assert(j@->Object_0 =~= entry_views(v@));
}

/// Where `lookup` finds the first entry under a key.
pub proof fn lemma_lookup_at(entries: Seq<(Seq<char>, JsonView)>, key: Seq<char>, i: int)
    requires
        0 <= i <= entries.len(),
        forall|j: int| 0 <= j < i ==> entries[j].0 != key,
    ensures
        i == entries.len() ==> lookup(entries, key) is None,
        i < entries.len() && entries[i].0 == key ==> lookup(entries, key) == Some(entries[i].1),
    decreases i,
{
    if i > 0 {
        lemma_lookup_at(entries.skip(1), key, i - 1);
    }
}

/// What `lookup` finds in an object with one entry more.
pub broadcast proof fn lemma_lookup_push(
    entries: Seq<(Seq<char>, JsonView)>,
    e: (Seq<char>, JsonView),
    key: Seq<char>,
)
    ensures
        #[trigger] lookup(entries.push(e), key) == (match lookup(entries, key) {
            Some(v) => Some(v),
            None => if e.0 == key {
                Some(e.1)
            } else {
                None
            },
        }),
    decreases entries.len(),
{
    let more = entries.push(e);
    if entries.len() == 0 {
        assert(more.skip(1) =~= entries);
    } else {
        assert(more[0] == entries[0]);
        assert(more.skip(1) =~= entries.skip(1).push(e));
        lemma_lookup_push(entries.skip(1), e, key);
    }
}

impl Json {
    /// The value under `key`, where `self` is an object that has it.
    pub fn get(&self, key: &str) -> (r: Option<&Json>)
        ensures
            match r {
                Some(v) => self@.field(key@) == Some(v@),
                None => self@.field(key@) is None,
            },
    {
        match self {
            Json::Object(o) => {
                let ghost e = entry_views(o@);
                assert(self@ == JsonView::Object(e)) by {
                    lemma_object_view(*o);
                }
                let mut i: usize = 0;
                while i < o.len()
                    invariant
                        i <= o@.len(),
                        self@ == JsonView::Object(e),
                        e == entry_views(o@),
                        forall|j: int| 0 <= j < i ==> e[j].0 != key@,
                    decreases o@.len() - i,
                {
                    if str_eq(&o[i].0, key) {
                        proof {
                            lemma_lookup_at(e, key@, i as int);
                        }
                        return Some(&o[i].1);
                    }
                    i += 1;
                }
                proof {
                    lemma_lookup_at(e, key@, i as int);
                }
                None
            },
            _ => None,
        }
    }

    /// The string, where `self` is one.
    pub fn as_str(&self) -> (r: Option<&str>)
        ensures
            match r {
                Some(s) => self@.text() == Some(s@),
                None => self@.text() is None,
            },
    {
        match self {
            Json::Text(s) => Some(s.as_str()),
            _ => None,
        }
    }

    /// The string under `key`, where `self` is an object that holds one there.
    pub fn get_str(&self, key: &str) -> (r: Option<&str>)
        ensures
            match r {
                Some(s) => self@.text_field(key@) == Some(s@),
                None => self@.text_field(key@) is None,
            },
    {
        match self.get(key) {
            Some(v) => v.as_str(),
            None => None,
        }
    }

    /// A copy of the value.
    pub fn copy(&self) -> (r: Json)
        ensures
            r@ == self@,
        decreases self,
    {
        broadcast use {lemma_array_view, lemma_object_view};

        match self {
            Json::Null => Json::Null,
            Json::Bool(b) => Json::Bool(*b),
            Json::Number(n) => Json::Number(n.clone()),
            Json::Text(s) => Json::Text(s.clone()),
            Json::Array(a) => {
                let mut v: Vec<Json> = Vec::new();
                let mut i: usize = 0;
                while i < a.len()
                    invariant
                        self == Json::Array(*a),
                        i == v@.len(),
                        i <= a@.len(),
                        forall|j: int| 0 <= j < i ==> v@[j]@ == a@[j]@,
                    decreases a@.len() - i,
                {
                    assert(decreases_to!(self => (*self)->Array_0));
                    assert(decreases_to!((*self)->Array_0 => a[i as int]));
                    assert(decreases_to!(self => a[i as int]));
                    v.push(a[i].copy());
                    i += 1;
                }
                assert(json_views(v@) =~= json_views(a@));
                Json::Array(v)
            },
            Json::Object(o) => {
                let mut v: Vec<(String, Json)> = Vec::new();
                let mut i: usize = 0;
                while i < o.len()
                    invariant
                        self == Json::Object(*o),
                        i == v@.len(),
                        i <= o@.len(),
                        forall|j: int| 0 <= j < i ==> v@[j].0@ == o@[j].0@ && v@[j].1@ == o@[j].1@,
                    decreases o@.len() - i,
                {
                    assert(decreases_to!(self => (*self)->Object_0));
                    assert(decreases_to!((*self)->Object_0 => o[i as int]));
                    assert(decreases_to!(o[i as int] => o[i as int].1));
                    assert(decreases_to!(self => o[i as int].1));
                    v.push((o[i].0.clone(), o[i].1.copy()));
                    i += 1;
                }
                assert(entry_views(v@) =~= entry_views(o@));
                Json::Object(v)
            },
        }
    }

    /// A string value.
    pub fn str(s: &str) -> (r: Json)
        ensures
            r@ == JsonView::Text(s@),
    {
        Json::Text(s.to_owned())
    }

    /// A number value.
    pub fn unsigned(n: u128) -> (r: Json)
        ensures
            r@ == JsonView::Number(dec(n as nat)),
    {
        Json::Number(dec_text(n))
    }

    /// A number value.
    pub fn signed(n: i64) -> (r: Json)
        ensures
            r@ == JsonView::Number(dec_int(n as int)),
    {
        Json::Number(dec_int_text(n))
    }

    /// An array of strings.
    pub fn strings(v: &Vec<String>) -> (r: Json)
        ensures
            r@ == JsonView::Array(text_views(v@)),
    {
        let mut items: Vec<Json> = Vec::new();
        let mut i: usize = 0;
        while i < v.len()
            invariant
                i == items@.len(),
                i <= v@.len(),
                forall|j: int| 0 <= j < i ==> items@[j]@ == JsonView::Text(v@[j]@),
            decreases v@.len() - i,
        {
            items.push(Json::Text(v[i].clone()));
            i += 1;
        }
        assert(json_views(items@) =~= text_views(v@));
        Json::array(items)
    }

    /// An array value.
    pub fn array(items: Vec<Json>) -> (r: Json)
        ensures
            r@ == JsonView::Array(json_views(items@)),
    {
        broadcast use lemma_array_view;

        Json::Array(items)
    }
}

/// An object under construction.
#[derive(Debug)]
pub struct ObjectBuilder {
    entries: Vec<(String, Json)>,
}

impl View for ObjectBuilder {
    type V = Seq<(Seq<char>, JsonView)>;

    closed spec fn view(&self) -> Seq<(Seq<char>, JsonView)> {
        entry_views(self.entries@)
    }
}

impl ObjectBuilder {
    /// No entries yet.
    pub fn new() -> (r: ObjectBuilder)
        ensures
            r@ == no_fields(),
    {
        let r = ObjectBuilder { entries: Vec::new() };
        assert(r@ =~= no_fields());
        r
    }

    /// The entries so far and one more.
    pub fn with(self, key: &str, value: Json) -> (r: ObjectBuilder)
        ensures
            r@ == self@.push((key@, value@)),
    {
        let mut entries = self.entries;
        entries.push((key.to_owned(), value));
        let r = ObjectBuilder { entries };
        assert(r@ =~= self@.push((key@, value@)));
        r
    }

    /// The finished object.
    pub fn done(self) -> (r: Json)
        ensures
            r@ == JsonView::Object(self@),
    {
        broadcast use lemma_object_view;

        Json::Object(self.entries)
    }
}

/// Whether no two entries have the same key.
pub open spec fn distinct_keys(entries: Seq<(Seq<char>, JsonView)>) -> bool {
    forall|i: int, j: int|
        0 <= i < j < entries.len() ==> (#[trigger] entries[i]).0 != (#[trigger] entries[j]).0
}

/// Whether a text is the decimal form of an integer of 64 bits.
pub open spec fn is_integer_text(n: Seq<char>) -> bool {
    exists|k: int| i64::MIN <= k <= u64::MAX && n == #[trigger] dec_int(k)
}

/// Whether `b` holds what `a` holds, up to the order of an object's entries. Of a number that is
/// no integer of 64 bits, and of an object with repeated keys, nothing is said.
pub open spec fn same_json(a: JsonView, b: JsonView) -> bool
    decreases a,
{
    match a {
        JsonView::Number(n) => is_integer_text(n) ==> b == a,
        JsonView::Array(x) => {
            &&& b is Array
            &&& b->Array_0.len() == x.len()
            &&& forall|i: int|
                #![trigger x[i]]
                0 <= i < x.len() ==> same_json(x[i], b->Array_0[i])
        },
        JsonView::Object(x) => distinct_keys(x) ==> {
            &&& b is Object
            &&& forall|i: int|
                #![trigger x[i]]
                0 <= i < x.len() ==> lookup(b->Object_0, x[i].0) is Some && same_json(
                    x[i].1,
                    lookup(b->Object_0, x[i].0)->0,
                )
            &&& forall|j: int|
                #![trigger b->Object_0[j]]
                0 <= j < b->Object_0.len() ==> lookup(x, b->Object_0[j].0) is Some
        },
        _ => b == a,
    }
}

/// Whether arrays and objects are nested at most `depth` deep.
pub open spec fn nested_at_most(v: JsonView, depth: nat) -> bool
    decreases v,
{
    match v {
        JsonView::Array(x) => depth > 0 && forall|i: int|
            #![trigger x[i]]
            0 <= i < x.len() ==> nested_at_most(x[i], (depth - 1) as nat),
        JsonView::Object(x) => depth > 0 && forall|i: int|
            #![trigger x[i]]
            0 <= i < x.len() ==> nested_at_most(x[i].1, (depth - 1) as nat),
        _ => true,
    }
}

/// Whether no object, at any depth, has the key.
pub open spec fn lacks_key(v: JsonView, key: Seq<char>) -> bool
    decreases v,
{
    match v {
        JsonView::Array(x) => forall|i: int|
            #![trigger x[i]]
            0 <= i < x.len() ==> lacks_key(x[i], key),
        JsonView::Object(x) => forall|i: int|
            #![trigger x[i]]
            0 <= i < x.len() ==> x[i].0 != key && lacks_key(x[i].1, key),
        _ => true,
    }
}

/// The key that `serde_json` keeps to itself: built with its feature `raw_value`, it reads an
/// object that begins with this key as the value in the JSON text behind the key.
pub open spec fn raw_key() -> Seq<char> {
    "$serde_json::private::RawValue"@
}

/// Whether the text of a value can be read back: the value is nested at most `depth` deep and does
/// not use the key that has a meaning of its own.
pub open spec fn readable(v: JsonView, depth: nat) -> bool {
    nested_at_most(v, depth) && lacks_key(v, raw_key())
}

/// Whether `b` is `a` with every entry of an object at its place. Of a number that is no integer
/// of 64 bits, and of an object with repeated keys, nothing is said.
pub open spec fn same_record(a: JsonView, b: JsonView) -> bool
    decreases a,
{
    match a {
        JsonView::Number(n) => is_integer_text(n) ==> b == a,
        JsonView::Array(x) => {
            &&& b is Array
            &&& b->Array_0.len() == x.len()
            &&& forall|i: int|
                #![trigger x[i]]
                0 <= i < x.len() ==> same_record(x[i], b->Array_0[i])
        },
        JsonView::Object(x) => distinct_keys(x) ==> {
            &&& b is Object
            &&& b->Object_0.len() == x.len()
            &&& forall|i: int|
                #![trigger x[i]]
                0 <= i < x.len() ==> b->Object_0[i].0 == x[i].0 && same_record(
                    x[i].1,
                    b->Object_0[i].1,
                )
        },
        _ => b == a,
    }
}

/// A record with its entries in place holds the same.
proof fn lemma_same_record(a: JsonView, b: JsonView)
    requires
        same_record(a, b),
    ensures
        same_json(a, b),
    decreases a,
{
    match a {
        JsonView::Array(x) => {
            assert forall|i: int| #![trigger x[i]] 0 <= i < x.len() implies same_json(
                x[i],
                b->Array_0[i],
            ) by {
                lemma_same_record(x[i], b->Array_0[i]);
            }
        },
        JsonView::Object(x) => {
            if distinct_keys(x) {
                let y = b->Object_0;
                assert forall|i: int| #![trigger x[i]] 0 <= i < x.len() implies lookup(
                    y,
                    x[i].0,
                ) is Some && same_json(x[i].1, lookup(y, x[i].0)->0) by {
                    assert forall|j: int| 0 <= j < i implies y[j].0 != x[i].0 by {
                        assert(y[j].0 == x[j].0);
                    }
                    lemma_lookup_at(y, x[i].0, i);
                    lemma_same_record(x[i].1, y[i].1);
                }
                assert forall|j: int| #![trigger y[j]] 0 <= j < y.len() implies lookup(
                    x,
                    y[j].0,
                ) is Some by {
                    assert(y[j].0 == x[j].0);
                    lemma_lookup_at(x, x[j].0, j);
                }
            }
        },
        _ => {},
    }
}

/// Entries in the order of their keys, and one more at its place among them.
pub open spec fn with_entry(
    x: Seq<(Seq<char>, JsonView)>,
    e: (Seq<char>, JsonView),
) -> Seq<(Seq<char>, JsonView)>
    decreases x.len(),
{
    if x.len() == 0 || lex_le(x.last().0, e.0) {
        x.push(e)
    } else {
        with_entry(x.drop_last(), e).push(x.last())
    }
}

/// A value with the entries of every object in the order of their keys.
pub open spec fn key_sorted(v: JsonView) -> JsonView
    decreases v, 0nat,
{
    match v {
        JsonView::Array(x) => JsonView::Array(sorted_items(x, x.len())),
        JsonView::Object(x) => JsonView::Object(sorted_entries(x, x.len())),
        _ => v,
    }
}

/// The first `n` items of an array, each sorted.
pub open spec fn sorted_items(x: Seq<JsonView>, n: nat) -> Seq<JsonView>
    decreases x, n,
{
    if 0 < n <= x.len() {
        sorted_items(x, (n - 1) as nat).push(key_sorted(x[n - 1]))
    } else {
        Seq::empty()
    }
}

/// The first `n` entries of an object, each sorted, in the order of their keys.
pub open spec fn sorted_entries(x: Seq<(Seq<char>, JsonView)>, n: nat) -> Seq<
    (Seq<char>, JsonView),
>
    decreases x, n,
{
    if 0 < n <= x.len() {
        with_entry(sorted_entries(x, (n - 1) as nat), (x[n - 1].0, key_sorted(x[n - 1].1)))
    } else {
        Seq::empty()
    }
}

/// Whether every entry is readable.
spec fn entries_readable(x: Seq<(Seq<char>, JsonView)>, depth: nat) -> bool {
    forall|i: int|
        #![trigger x[i]]
        0 <= i < x.len() ==> x[i].0 != raw_key() && readable(x[i].1, depth)
}

/// Whether every item is readable.
spec fn items_readable(x: Seq<JsonView>, depth: nat) -> bool {
    forall|i: int| #![trigger x[i]] 0 <= i < x.len() ==> readable(x[i], depth)
}

/// Putting in a readable entry leaves all entries readable.
proof fn lemma_entry_readable(
    x: Seq<(Seq<char>, JsonView)>,
    e: (Seq<char>, JsonView),
    depth: nat,
)
    requires
        entries_readable(x, depth),
        e.0 != raw_key(),
        readable(e.1, depth),
    ensures
        entries_readable(with_entry(x, e), depth),
    decreases x.len(),
{
    let y = with_entry(x, e);
    let before = x.drop_last();
    let z = with_entry(before, e);
    if x.len() > 0 && !lex_le(x.last().0, e.0) {
        assert forall|i: int| #![trigger before[i]] 0 <= i < before.len() implies before[i].0
            != raw_key() && readable(before[i].1, depth) by {
            assert(before[i] == x[i]);
        }
        lemma_entry_readable(before, e, depth);
        assert forall|i: int| #![trigger y[i]] 0 <= i < y.len() implies y[i].0 != raw_key()
            && readable(y[i].1, depth) by {
            if i < z.len() {
                assert(y[i] == z[i]);
            } else {
                assert(y[i] == x[x.len() - 1]);
            }
        }
    } else {
        assert forall|i: int| #![trigger y[i]] 0 <= i < y.len() implies y[i].0 != raw_key()
            && readable(y[i].1, depth) by {
            if i < x.len() {
                assert(y[i] == x[i]);
            }
        }
    }
}

/// Sorting leaves a value readable.
proof fn lemma_sorted_readable(v: JsonView, depth: nat)
    requires
        readable(v, depth),
    ensures
        readable(key_sorted(v), depth),
    decreases v, 0nat,
{
    match v {
        JsonView::Array(x) => {
            lemma_items_readable(x, x.len(), (depth - 1) as nat);
            assert(items_readable(key_sorted(v)->Array_0, (depth - 1) as nat));
        },
        JsonView::Object(x) => {
            lemma_entries_readable(x, x.len(), (depth - 1) as nat);
            assert(entries_readable(key_sorted(v)->Object_0, (depth - 1) as nat));
        },
        _ => {},
    }
}

proof fn lemma_items_readable(x: Seq<JsonView>, n: nat, depth: nat)
    requires
        n <= x.len(),
        items_readable(x, depth),
    ensures
        items_readable(sorted_items(x, n), depth),
    decreases x, n,
{
    if n > 0 {
        lemma_items_readable(x, (n - 1) as nat, depth);
        lemma_sorted_readable(x[n - 1], depth);
        let before = sorted_items(x, (n - 1) as nat);
        let y = sorted_items(x, n);
        assert forall|i: int| #![trigger y[i]] 0 <= i < y.len() implies readable(
            y[i],
            depth,
        ) by {
            if i < before.len() {
                assert(y[i] == before[i]);
            }
        }
    }
}

proof fn lemma_entries_readable(x: Seq<(Seq<char>, JsonView)>, n: nat, depth: nat)
    requires
        n <= x.len(),
        entries_readable(x, depth),
    ensures
        entries_readable(sorted_entries(x, n), depth),
    decreases x, n,
{
    if n > 0 {
        lemma_entries_readable(x, (n - 1) as nat, depth);
        lemma_sorted_readable(x[n - 1].1, depth);
        lemma_entry_readable(
            sorted_entries(x, (n - 1) as nat),
            (x[n - 1].0, key_sorted(x[n - 1].1)),
            depth,
        );
    }
}

/// A text comes before or is equal to itself.
proof fn lemma_lex_reflexive(a: Seq<char>)
    ensures
        lex_le(a, a),
    decreases a.len(),
{
    if a.len() > 0 {
        lemma_lex_reflexive(a.skip(1));
    }
}

/// Where an entry is put in does not matter for what is found.
proof fn lemma_lookup_with_entry(
    x: Seq<(Seq<char>, JsonView)>,
    e: (Seq<char>, JsonView),
    key: Seq<char>,
)
    ensures
        lookup(with_entry(x, e), key) == lookup(x.push(e), key),
    decreases x.len(),
{
    lemma_lookup_push(x, e, key);
    if x.len() > 0 && !lex_le(x.last().0, e.0) {
        let before = x.drop_last();
        lemma_lex_reflexive(e.0);
        lemma_lookup_with_entry(before, e, key);
        lemma_lookup_push(before, e, key);
        lemma_lookup_push(with_entry(before, e), x.last(), key);
        assert(before.push(x.last()) =~= x);
        lemma_lookup_push(before, x.last(), key);
    }
}

/// What is found among sorted entries is what was found before, sorted.
proof fn lemma_lookup_sorted(x: Seq<(Seq<char>, JsonView)>, n: nat, key: Seq<char>)
    requires
        n <= x.len(),
    ensures
        lookup(sorted_entries(x, n), key) == (match lookup(x.take(n as int), key) {
            Some(v) => Some(key_sorted(v)),
            None => None,
        }),
    decreases n,
{
    if n > 0 {
        let before = sorted_entries(x, (n - 1) as nat);
        let e = (x[n - 1].0, key_sorted(x[n - 1].1));
        lemma_lookup_sorted(x, (n - 1) as nat, key);
        lemma_lookup_with_entry(before, e, key);
        lemma_lookup_push(before, e, key);
        assert(x.take(n as int) =~= x.take(n - 1).push(x[n - 1]));
        lemma_lookup_push(x.take(n - 1), x[n - 1], key);
    }
}

/// The key of an entry is found, and what is found is an entry.
pub proof fn lemma_found_key(x: Seq<(Seq<char>, JsonView)>, key: Seq<char>)
    ensures
        lookup(x, key) is Some <==> exists|i: int| 0 <= i < x.len() && (#[trigger] x[i]).0 == key,
    decreases x.len(),
{
    if x.len() > 0 && x[0].0 != key {
        let rest = x.skip(1);
        lemma_found_key(rest, key);
        if lookup(rest, key) is Some {
            let i = choose|i: int| 0 <= i < rest.len() && (#[trigger] rest[i]).0 == key;
            assert(x[i + 1].0 == key);
        }
        if exists|i: int| 0 <= i < x.len() && (#[trigger] x[i]).0 == key {
            let i = choose|i: int| 0 <= i < x.len() && (#[trigger] x[i]).0 == key;
            assert(rest[i - 1].0 == key);
        }
    }
}

/// The items of a sorted list.
proof fn lemma_sorted_items(x: Seq<JsonView>, n: nat)
    requires
        n <= x.len(),
    ensures
        sorted_items(x, n).len() == n,
        forall|i: int| 0 <= i < n ==> #[trigger] sorted_items(x, n)[i] == key_sorted(x[i]),
    decreases n,
{
    if n > 0 {
        lemma_sorted_items(x, (n - 1) as nat);
    }
}

/// A sorted value holds what the value holds.
pub proof fn lemma_sorted_same(a: JsonView, b: JsonView)
    requires
        same_json(a, b),
    ensures
        same_json(a, key_sorted(b)),
    decreases a,
{
    match a {
        JsonView::Array(x) => {
            let y = b->Array_0;
            lemma_sorted_items(y, y.len());
            assert forall|i: int| #![trigger x[i]] 0 <= i < x.len() implies same_json(
                x[i],
                sorted_items(y, y.len())[i],
            ) by {
                lemma_sorted_same(x[i], y[i]);
            }
        },
        JsonView::Object(x) => {
            if distinct_keys(x) {
                let y = b->Object_0;
                let z = sorted_entries(y, y.len());
                assert(y.take(y.len() as int) =~= y);
                assert forall|i: int| #![trigger x[i]] 0 <= i < x.len() implies lookup(
                    z,
                    x[i].0,
                ) is Some && same_json(x[i].1, lookup(z, x[i].0)->0) by {
                    lemma_lookup_sorted(y, y.len(), x[i].0);
                    lemma_sorted_same(x[i].1, lookup(y, x[i].0)->0);
                }
                assert forall|j: int| #![trigger z[j]] 0 <= j < z.len() implies lookup(
                    x,
                    z[j].0,
                ) is Some by {
                    let k = z[j].0;
                    lemma_found_key(z, k);
                    lemma_lookup_sorted(y, y.len(), k);
                    lemma_found_key(y, k);
                    let i = choose|i: int| 0 <= i < y.len() && (#[trigger] y[i]).0 == k;
                    assert(lookup(x, y[i].0) is Some);
                }
            }
        },
        _ => {},
    }
}

/// How many strings a value holds, its keys counted in.
pub open spec fn string_count(v: JsonView) -> nat
    decreases v, 0nat,
{
    match v {
        JsonView::Text(_) => 1,
        JsonView::Array(x) => strings_of_items(x, x.len()),
        JsonView::Object(x) => strings_of_entries(x, x.len()),
        _ => 0,
    }
}

/// How many strings the first `n` items of an array hold.
pub open spec fn strings_of_items(x: Seq<JsonView>, n: nat) -> nat
    decreases x, n,
{
    if 0 < n <= x.len() {
        strings_of_items(x, (n - 1) as nat) + string_count(x[n - 1])
    } else {
        0
    }
}

/// How many strings the first `n` entries of an object hold, their keys counted in.
pub open spec fn strings_of_entries(x: Seq<(Seq<char>, JsonView)>, n: nat) -> nat
    decreases x, n,
{
    if 0 < n <= x.len() {
        strings_of_entries(x, (n - 1) as nat) + 1 + string_count(x[n - 1].1)
    } else {
        0
    }
}

/// Where a JSON text stands with regard to string literals.
#[derive(Clone, Copy)]
pub enum Place {
    Outside,
    Inside,
    /// Inside, behind a backslash.
    Escaped,
}

/// Where a JSON text ends, and how many string literals have begun in it.
pub open spec fn scanned(s: Seq<char>) -> (Place, nat)
    decreases s.len(),
{
    if s.len() == 0 {
        (Place::Outside, 0)
    } else {
        let (place, n) = scanned(s.drop_last());
        match place {
            Place::Outside => if s.last() == '"' {
                (Place::Inside, n + 1)
            } else {
                (Place::Outside, n)
            },
            Place::Inside => if s.last() == '"' {
                (Place::Outside, n)
            } else if s.last() == '\\' {
                (Place::Escaped, n)
            } else {
                (Place::Inside, n)
            },
            Place::Escaped => (Place::Inside, n),
        }
    }
}

/// How many string literals a JSON text holds.
pub open spec fn literal_count(s: Seq<char>) -> nat {
    scanned(s).1
}

/// Whether nothing but white space comes between position `p` and a colon.
pub open spec fn colon_follows(s: Seq<char>, p: int) -> bool
    decreases s.len() - p,
{
    0 <= p < s.len() && (s[p] == ':' || (is_json_space(s[p]) && colon_follows(s, p + 1)))
}

/// White space between the parts of a JSON text.
pub open spec fn is_json_space(c: char) -> bool {
    c == ' ' || c == '\t' || c == '\n' || c == '\r'
}

/// Whether the string literal from `i` to `j`, both quotes counted in, is a key of an object.
pub open spec fn key_at(s: Seq<char>, i: int, j: int) -> bool {
    &&& 0 <= i < j < s.len()
    &&& s[i] == '"'
    &&& scanned(s.take(i)).0 == Place::Outside
    &&& s[j] == '"'
    &&& scanned(s.take(j)) == (Place::Inside, scanned(s.take(i)).1 + 1)
    &&& colon_follows(s, j + 1)
}

/// Whether a literal of a JSON text, read by itself, is the string `t`.
pub open spec fn literal_is(s: Seq<char>, i: int, j: int, t: Seq<char>) -> bool {
    json_read(s.subrange(i, j + 1)) == Some(JsonView::Text(t))
}

/// Whether an object in a JSON text has the key.
pub open spec fn text_has_key(s: Seq<char>, key: Seq<char>) -> bool {
    exists|i: int, j: int| #[trigger] key_at(s, i, j) && literal_is(s, i, j, key)
}

/// Whether an object in a JSON text has a key twice. Of such entries only the last is read, so
/// the text holds more string literals than the value that is read from it holds strings. (A text
/// with `raw_key` may be read as another value.)
pub open spec fn repeats_a_key(s: Seq<char>) -> bool {
    json_read(s) is Some && literal_count(s) != string_count(json_read(s)->0)
}

/// The deepest nesting that `serde_json` reads.
pub const READ_DEPTH: u8 = 127;

/// `serde_json::Value`, carried between parsing, printing and the conversions below.
#[verifier::external_type_specification]
#[verifier::external_body]
pub struct ExValue(serde_json::Value);

/// `serde_json::Error`, which is only ever turned into an absent value.
#[verifier::external_type_specification]
#[verifier::external_body]
pub struct ExError(serde_json::Error);

/// What a `serde_json::Value` holds.
pub uninterp spec fn value_view(v: serde_json::Value) -> JsonView;

/// What `serde_json::Value` makes of a JSON value: which of two equal keys it keeps and how it
/// stores a number.
pub uninterp spec fn json_normal(j: JsonView) -> JsonView;

/// The compact text that `serde_json` prints for a value.
pub uninterp spec fn value_text(v: JsonView) -> Seq<char>;

/// What `serde_json::from_str` reads from a text; `None` where it reports an error.
pub uninterp spec fn json_read(s: Seq<char>) -> Option<JsonView>;

/// Reads a `serde_json::Value` variant by variant. The claim: the result holds what the value
/// holds.
#[verifier::external_body]
fn of_value(v: serde_json::Value) -> (r: Json)
    ensures
        r@ == value_view(v),
{
    match v {
        serde_json::Value::Null => Json::Null,
        serde_json::Value::Bool(b) => Json::Bool(b),
        serde_json::Value::Number(n) => Json::Number(n.to_string()),
        serde_json::Value::String(s) => Json::Text(s),
        serde_json::Value::Array(a) => Json::Array(a.into_iter().map(of_value).collect()),
        serde_json::Value::Object(o) => {
            Json::Object(o.into_iter().map(|(k, x)| (k, of_value(x))).collect())
        },
    }
}

/// Builds a `serde_json::Value` variant by variant, a number through `serde_json::Number`'s own
/// `FromStr` (null where that rejects the text). The claims: the result is determined by the
/// value, holds the same in the same order, is not nested deeper and has no other keys.
#[verifier::external_body]
fn to_value(j: &Json) -> (r: serde_json::Value)
    ensures
        value_view(r) == json_normal(j@),
        same_record(j@, value_view(r)),
        forall|d: nat| nested_at_most(j@, d) ==> nested_at_most(value_view(r), d),
        forall|key: Seq<char>| lacks_key(j@, key) ==> lacks_key(value_view(r), key),
{
    match j {
        Json::Null => serde_json::Value::Null,
        Json::Bool(b) => serde_json::Value::Bool(*b),
        Json::Number(n) => n.parse().map_or(serde_json::Value::Null, serde_json::Value::Number),
        Json::Text(s) => serde_json::Value::String(s.clone()),
        Json::Array(a) => serde_json::Value::Array(a.iter().map(to_value).collect()),
        Json::Object(o) => {
            serde_json::Value::Object(o.iter().map(|(k, x)| (k.clone(), to_value(x))).collect())
        },
    }
}

/// `Value::sort_all_objects`. The claim: the result is the value with the entries of every object
/// in the order of their keys.
#[verifier::external_body]
fn sort_value(v: serde_json::Value) -> (r: serde_json::Value)
    ensures
        value_view(r) == key_sorted(value_view(v)),
{
    let mut sorted = v;
    sorted.sort_all_objects();
    sorted
}

/// `Value`'s `Display`, which prints compact JSON, objects in the order of their entries. The
/// claims: the text is determined by what the value holds, has one string literal for each of its
/// strings and keys, has no keys but the value's own, and is read back as the same value where that
/// is not nested too deep to be read and does not use `raw_key`.
#[verifier::external_body]
fn value_to_string(v: &serde_json::Value) -> (r: String)
    ensures
        r@ == value_text(value_view(*v)),
        literal_count(r@) == string_count(value_view(*v)),
        forall|key: Seq<char>| lacks_key(value_view(*v), key) ==> !text_has_key(r@, key),
        readable(value_view(*v), READ_DEPTH as nat) ==> json_read(r@) == Some(value_view(*v)),
{
    v.to_string()
}

/// `serde_json::from_str` into a `Value`. The claim: whether it succeeds, and with what, is
/// determined by the text.
#[verifier::external_body]
fn value_from_str(s: &str) -> (r: Result<serde_json::Value, serde_json::Error>)
    ensures
        match r {
            Ok(v) => json_read(s@) == Some(value_view(v)),
            Err(_) => json_read(s@) is None,
        },
{
    serde_json::from_str(s)
}

/// The compact JSON text of a value, the keys of every object in order.
pub open spec fn json_text(j: JsonView) -> Seq<char> {
    value_text(key_sorted(json_normal(j)))
}

/// The compact JSON text of a record: a value whose objects keep the order of their entries.
pub open spec fn record_text(j: JsonView) -> Seq<char> {
    value_text(json_normal(j))
}

/// Prints a value as compact JSON, the keys of every object in order.
pub fn to_text(j: &Json) -> (r: String)
    ensures
        r@ == json_text(j@),
        readable(j@, READ_DEPTH as nat) ==> {
            &&& json_read(r@) == Some(key_sorted(json_normal(j@)))
            &&& same_json(j@, json_read(r@)->0)
        },
{
    let v = to_value(j);
    proof {
        lemma_same_record(j@, value_view(v));
        lemma_sorted_same(j@, value_view(v));
        if readable(j@, READ_DEPTH as nat) {
            lemma_sorted_readable(value_view(v), READ_DEPTH as nat);
        }
    }
    value_to_string(&sort_value(v))
}

/// Prints a record as compact JSON. Where the record is readable, reading the text gives a value
/// that holds the same in the same order, and no key comes twice.
pub fn to_record_text(j: &Json) -> (r: String)
    ensures
        r@ == record_text(j@),
        readable(j@, READ_DEPTH as nat) ==> {
            &&& json_read(r@) is Some
            &&& same_record(j@, json_read(r@)->0)
            &&& same_json(j@, json_read(r@)->0)
            &&& !repeats_a_key(r@)
            &&& !text_has_key(r@, raw_key())
        },
{
    let v = to_value(j);
    proof {
        lemma_same_record(j@, value_view(v));
    }
    value_to_string(&v)
}

/// A copy of a value with the keys of every object in order.
pub fn sorted_copy(j: &Json) -> (r: Json)
    ensures
        r@ == key_sorted(json_normal(j@)),
{
    of_value(sort_value(to_value(j)))
}

/// How many string literals a JSON text holds.
fn count_literals(s: &str) -> (r: usize)
    ensures
        r == literal_count(s@),
{
    let v = chars_of(s);
    let mut place = Place::Outside;
    let mut n: usize = 0;
    let mut i: usize = 0;
    assert(s@.take(0) =~= Seq::empty());
    while i < v.len()
        invariant
            v@ == s@,
            i <= v@.len(),
            n <= i,
            scanned(s@.take(i as int)) == (place, n as nat),
        decreases v@.len() - i,
    {
        assert(s@.take(i + 1).drop_last() =~= s@.take(i as int));
        let c = v[i];
        match place {
            Place::Outside => {
                if c == '"' {
                    place = Place::Inside;
                    n += 1;
                }
            },
            Place::Inside => {
                if c == '"' {
                    place = Place::Outside;
                } else if c == '\\' {
                    place = Place::Escaped;
                }
            },
            Place::Escaped => {
                place = Place::Inside;
            },
        }
        i += 1;
    }
    assert(s@.take(i as int) =~= s@);
    n
}

/// The first items hold at most as many strings as all.
proof fn lemma_items_grow(x: Seq<JsonView>, i: nat)
    requires
        i <= x.len(),
    ensures
        strings_of_items(x, i) <= strings_of_items(x, x.len()),
    decreases x.len() - i,
{
    if i < x.len() {
        lemma_items_grow(x, i + 1);
    }
}

/// The first entries hold at most as many strings as all.
proof fn lemma_entries_grow(x: Seq<(Seq<char>, JsonView)>, i: nat)
    requires
        i <= x.len(),
    ensures
        strings_of_entries(x, i) <= strings_of_entries(x, x.len()),
    decreases x.len() - i,
{
    if i < x.len() {
        lemma_entries_grow(x, i + 1);
    }
}

impl Json {
    /// How many strings the value holds, its keys counted in; `None` where they are more than
    /// `limit`.
    fn count_strings(&self, limit: usize) -> (r: Option<usize>)
        ensures
            match r {
                Some(n) => n == string_count(self@) && n <= limit,
                None => string_count(self@) > limit,
            },
        decreases self,
    {
        broadcast use {lemma_array_view, lemma_object_view};

        match self {
            Json::Text(_) => if limit > 0 {
                Some(1)
            } else {
                None
            },
            Json::Array(a) => {
                let ghost x = json_views(a@);
                let mut sum: usize = 0;
                let mut i: usize = 0;
                while i < a.len()
                    invariant
                        self == Json::Array(*a),
                        x == json_views(a@),
                        self@ == JsonView::Array(x),
                        i <= a@.len(),
                        sum == strings_of_items(x, i as nat),
                        sum <= limit,
                    decreases a@.len() - i,
                {
                    proof {
                        assert(decreases_to!(self => (*self)->Array_0));
                        assert(decreases_to!((*self)->Array_0 => a[i as int]));
                        assert(decreases_to!(self => a[i as int]));
                        assert(x[i as int] == a[i as int]@);
                        lemma_items_grow(x, (i + 1) as nat);
                    }
                    match a[i].count_strings(limit - sum) {
                        Some(n) => {
                            sum += n;
                        },
                        None => {
                            return None;
                        },
                    }
                    i += 1;
                }
                Some(sum)
            },
            Json::Object(o) => {
                let ghost x = entry_views(o@);
                let mut sum: usize = 0;
                let mut i: usize = 0;
                while i < o.len()
                    invariant
                        self == Json::Object(*o),
                        x == entry_views(o@),
                        self@ == JsonView::Object(x),
                        i <= o@.len(),
                        sum == strings_of_entries(x, i as nat),
                        sum <= limit,
                    decreases o@.len() - i,
                {
                    proof {
                        assert(decreases_to!(self => (*self)->Object_0));
                        assert(decreases_to!((*self)->Object_0 => o[i as int]));
                        assert(decreases_to!(o[i as int] => o[i as int].1));
                        assert(decreases_to!(self => o[i as int].1));
                        assert(x[i as int].1 == o[i as int].1@);
                        lemma_entries_grow(x, (i + 1) as nat);
                    }
                    if sum == limit {
                        return None;
                    }
                    match o[i].1.count_strings(limit - sum - 1) {
                        Some(n) => {
                            sum += n + 1;
                        },
                        None => {
                            return None;
                        },
                    }
                    i += 1;
                }
                Some(sum)
            },
            _ => Some(0),
        }
    }
}

/// Whether a text holds another number of string literals than the value that was read from it
/// holds strings: then a key comes twice in it.
pub fn drops_strings(text: &str, read: &Json) -> (r: bool)
    ensures
        r == (literal_count(text@) != string_count(read@)),
{
    let n = count_literals(text);
    match read.count_strings(n) {
        Some(m) => m != n,
        None => true,
    }
}

/// Reads a value from JSON text; `None` where the text is not JSON.
pub fn parse(s: &str) -> (r: Option<Json>)
    ensures
        opt_json_view(r) == json_read(s@),
{
    match value_from_str(s) {
        Ok(v) => Some(of_value(v)),
        Err(_) => None,
    }
}

/// More of a text holds at least as many string literals.
proof fn lemma_scan_grows(s: Seq<char>, p: int, q: int)
    requires
        0 <= p <= q <= s.len(),
    ensures
        scanned(s.take(p)).1 <= scanned(s.take(q)).1,
    decreases q - p,
{
    if p < q {
        lemma_scan_grows(s, p, q - 1);
        assert(s.take(q).drop_last() =~= s.take(q - 1));
    }
}

/// A literal begins at one place only.
proof fn lemma_one_beginning(s: Seq<char>, a: int, b: int)
    requires
        0 <= a < s.len(),
        0 <= b < s.len(),
        s[a] == '"',
        s[b] == '"',
        scanned(s.take(a)) == scanned(s.take(b)),
        scanned(s.take(a)).0 == Place::Outside,
    ensures
        a == b,
{
    assert(s.take(a + 1).drop_last() =~= s.take(a));
    assert(s.take(b + 1).drop_last() =~= s.take(b));
    if a < b {
        lemma_scan_grows(s, a + 1, b);
    } else if b < a {
        lemma_scan_grows(s, b + 1, a);
    }
}

/// Whether nothing but white space comes between position `p` and a colon.
fn finds_colon(v: &Vec<char>, p: usize) -> (r: bool)
    ensures
        r == colon_follows(v@, p as int),
{
    let mut i: usize = p;
    while i < v.len()
        invariant
            p <= i,
            colon_follows(v@, p as int) == colon_follows(v@, i as int),
        decreases v@.len() - i,
    {
        let c = v[i];
        if c == ':' {
            return true;
        }
        if !(c == ' ' || c == '\t' || c == '\n' || c == '\r') {
            return false;
        }
        i += 1;
    }
    false
}

/// Whether an object in a JSON text has the key, however the text writes it.
pub fn names_key(text: &str, key: &str) -> (r: bool)
    ensures
        r == text_has_key(text@, key@),
{
    let v = chars_of(text);
    let ghost s = text@;
    let mut place = Place::Outside;
    let mut start: usize = 0;
    let mut i: usize = 0;
    assert(s.take(0) =~= Seq::empty());
    while i < v.len()
        invariant
            s == text@,
            v@ == s,
            i <= s.len(),
            scanned(s.take(i as int)).0 == place,
            place != Place::Outside ==> {
                &&& start < i
                &&& s[start as int] == '"'
                &&& scanned(s.take(start as int)).0 == Place::Outside
                &&& scanned(s.take(start as int)).1 + 1 == scanned(s.take(i as int)).1
            },
            forall|a: int, b: int|
                b < i && #[trigger] key_at(s, a, b) ==> !literal_is(s, a, b, key@),
        decreases s.len() - i,
    {
        assert(s.take(i + 1).drop_last() =~= s.take(i as int));
        let c = v[i];
        match place {
            Place::Outside => {
                if c == '"' {
                    start = i;
                    place = Place::Inside;
                }
            },
            Place::Inside => {
                if c == '"' {
                    place = Place::Outside;
                    if finds_colon(&v, i + 1) {
                        let literal = string_of(
                            vstd::slice::slice_subrange(v.as_slice(), start, i + 1),
                        );
                        assert(literal@ =~= s.subrange(start as int, i + 1));
                        assert(key_at(s, start as int, i as int));
                        if let Some(Json::Text(t)) = parse(&literal) {
                            if str_eq(&t, key) {
                                return true;
                            }
                        }
                        assert(!literal_is(s, start as int, i as int, key@));
                    }
                    assert forall|a: int| #[trigger] key_at(s, a, i as int) implies !literal_is(
                        s,
                        a,
                        i as int,
                        key@,
                    ) by {
                        lemma_one_beginning(s, a, start as int);
                    }
                } else if c == '\\' {
                    place = Place::Escaped;
                }
            },
            Place::Escaped => {
                place = Place::Inside;
            },
        }
        i += 1;
    }
    false
}

} // verus!
