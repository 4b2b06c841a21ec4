//! The JSON values that the library works on: a plain, verifiable model of
//! what the EODHD API answers, with objects kept as ordered entry lists.

use vstd::prelude::*;
use crate::text::str_eq;

verus! {

/// A JSON number as the parser classified it. Floating-point numbers are
/// carried as the text the parser prints for them.
#[derive(Debug, PartialEq)]
pub enum JsonNumber {
    PosInt(u64),
    NegInt(i64),
    Float(String),
}

/// A JSON value.
#[derive(Debug, PartialEq)]
pub enum Json {
    Null,
    Bool(bool),
    Number(JsonNumber),
    Str(String),
    Array(Vec<Json>),
    Object(JsonMap),
}

/// A JSON object: its entries in iteration order.
#[derive(Debug, PartialEq)]
pub struct JsonMap {
    pub entries: Vec<(String, Json)>,
}

/// `i` is the first position of an entry with key `k`.
pub open spec fn is_first_key(es: Seq<(String, Json)>, k: Seq<char>, i: int) -> bool {
    &&& 0 <= i < es.len()
    &&& es[i].0@ == k
    &&& forall|j: int| 0 <= j < i ==> es[j].0@ != k
}

/// Position of the first entry with key `k`, or -1 when there is none.
pub open spec fn key_pos(es: Seq<(String, Json)>, k: Seq<char>) -> int {
    if exists|i: int| is_first_key(es, k, i) {
        choose|i: int| is_first_key(es, k, i)
    } else {
        -1
    }
}

/// Some entry of `es` has key `k`.
pub open spec fn has_key(es: Seq<(String, Json)>, k: Seq<char>) -> bool {
    exists|i: int| 0 <= i < es.len() && es[i].0@ == k
}

/// The keys of `es`, in order.
pub open spec fn keys_of(es: Seq<(String, Json)>) -> Seq<Seq<char>> {
    es.map_values(|e: (String, Json)| e.0@)
}

/// No key occurs twice.
pub open spec fn keys_distinct(es: Seq<(String, Json)>) -> bool {
    forall|i: int, j: int| 0 <= i < es.len() && 0 <= j < es.len() && i != j ==> es[i].0@ != es[j].0@
}

/// The value stored under `k`, if any.
pub open spec fn lookup(es: Seq<(String, Json)>, k: Seq<char>) -> Option<Json> {
    if key_pos(es, k) >= 0 {
        Some(es[key_pos(es, k)].1)
    } else {
        None
    }
}

/// The value under `k` when `v` is an object holding it.
pub open spec fn json_field(v: Json, k: Seq<char>) -> Option<Json> {
    match v {
        Json::Object(m) => lookup(m.entries@, k),
        _ => None,
    }
}

/// The text of `v` when it is a string.
pub open spec fn json_text(v: Json) -> Option<Seq<char>> {
    match v {
        Json::Str(s) => Some(s@),
        _ => None,
    }
}

proof fn lemma_first_key_unique(es: Seq<(String, Json)>, k: Seq<char>, i: int)
    requires
        is_first_key(es, k, i),
    ensures
        key_pos(es, k) == i,
{
    let c = choose|c: int| is_first_key(es, k, c);
    assert(is_first_key(es, k, c));
    if c < i {
        assert(es[c].0@ == k);
    } else if i < c {
        assert(es[i].0@ == k);
    }
}

impl JsonMap {
    /// An empty object.
    pub fn new() -> (m: JsonMap)
        ensures
            m.entries@ == Seq::<(String, Json)>::empty(),
    {
        JsonMap { entries: Vec::new() }
    }

    /// Number of entries.
    pub fn len(&self) -> (n: usize)
        ensures
            n == self.entries@.len(),
    {
        self.entries.len()
    }

    /// The object has no entry.
    pub fn is_empty(&self) -> (b: bool)
        ensures
            b == (self.entries@.len() == 0),
    {
        self.entries.len() == 0
    }

    /// Position of the entry with key `k`.
    pub fn find(&self, k: &str) -> (r: Option<usize>)
        ensures
            r matches Some(i) ==> i == key_pos(self.entries@, k@) && is_first_key(self.entries@, k@, i as int),
            r is None ==> key_pos(self.entries@, k@) == -1 && !has_key(self.entries@, k@),
    {
        let mut i: usize = 0;
        while i < self.entries.len()
            invariant
                i <= self.entries@.len(),
                forall|j: int| 0 <= j < i ==> self.entries@[j].0@ != k@,
            decreases self.entries@.len() - i,
        {
            if str_eq(self.entries[i].0.as_str(), k) {
                proof {
                    lemma_first_key_unique(self.entries@, k@, i as int);
                }
                return Some(i);
            }
            i = i + 1;
        }
        assert(!exists|j: int| is_first_key(self.entries@, k@, j));
        None
    }

    /// Some entry has key `k`.
    pub fn contains_key(&self, k: &str) -> (b: bool)
        ensures
            b == has_key(self.entries@, k@),
    {
        match self.find(k) {
            Some(i) => true,
            None => false,
        }
    }

    /// The value stored under `k`.
    pub fn get(&self, k: &str) -> (r: Option<&Json>)
        ensures
            r matches Some(v) ==> lookup(self.entries@, k@) == Some(*v),
            r is None ==> lookup(self.entries@, k@) is None,
    {
        match self.find(k) {
            Some(i) => Some(&self.entries[i].1),
            None => None,
        }
    }

    /// Store `v` under `k`: the entry with that key keeps its place and
    /// takes the new value, or a new entry is appended.
    pub fn insert(&mut self, k: String, v: Json)
        ensures
            has_key(old(self).entries@, k@) ==> final(self).entries@ == old(self).entries@.update(
                key_pos(old(self).entries@, k@),
                (old(self).entries@[key_pos(old(self).entries@, k@)].0, v),
            ),
            !has_key(old(self).entries@, k@) ==> final(self).entries@ == old(self).entries@.push((k, v)),
            entry_views(final(self).entries@) == insert_v(entry_views(old(self).entries@), k@, jview(v)),
    {
        proof {
            lemma_insert_views(self.entries@, k, v);
        }
        match self.find(k.as_str()) {
            Some(i) => {
                let old_key = self.entries[i].0.clone();
                self.entries.set(i, (old_key, v));
            },
            None => {
                self.entries.push((k, v));
            },
        }
    }
}

impl Json {
    /// The field `k` of an object; `None` for anything else.
    pub fn get(&self, k: &str) -> (r: Option<&Json>)
        ensures
            r matches Some(v) ==> json_field(*self, k@) == Some(*v),
            r is None ==> json_field(*self, k@) is None,
    {
        match self {
            Json::Object(m) => m.get(k),
            _ => None,
        }
    }

    /// The object behind `self`, if it is one.
    pub fn as_object(&self) -> (r: Option<&JsonMap>)
        ensures
            r matches Some(m) ==> *self == Json::Object(*m),
            r is None ==> !(*self is Object),
    {
        match self {
            Json::Object(m) => Some(m),
            _ => None,
        }
    }

    /// The text of a string value.
    pub fn as_str(&self) -> (r: Option<&str>)
        ensures
            r matches Some(s) ==> json_text(*self) == Some(s@),
            r is None ==> json_text(*self) is None,
    {
        match self {
            Json::Str(s) => Some(s.as_str()),
            _ => None,
        }
    }

    /// The value is `null`.
    pub fn is_null(&self) -> (b: bool)
        ensures
            b == (*self is Null),
    {
        match self {
            Json::Null => true,
            _ => false,
        }
    }

    /// The value is an object.
    pub fn is_object(&self) -> (b: bool)
        ensures
            b == (*self is Object),
    {
        match self {
            Json::Object(_) => true,
            _ => false,
        }
    }

    /// An integer value that fits in `i64`.
    pub fn as_i64(&self) -> (r: Option<i64>)
        ensures
            r == json_i64(*self),
    {
        match self {
            Json::Number(JsonNumber::PosInt(n)) => {
                if *n <= 9223372036854775807u64 {
                    Some(*n as i64)
                } else {
                    None
                }
            },
            Json::Number(JsonNumber::NegInt(n)) => Some(*n),
            _ => None,
        }
    }
}

/// The value as an `i64`: integers in range, nothing else.
pub open spec fn json_i64(v: Json) -> Option<i64> {
    match v {
        Json::Number(JsonNumber::PosInt(n)) => if n <= i64::MAX {
            Some(n as i64)
        } else {
            None
        },
        Json::Number(JsonNumber::NegInt(n)) => Some(n),
        _ => None,
    }
}

/// The mathematical value of a JSON value: arrays as sequences, objects
/// as sequences of key/value pairs in iteration order.
pub enum JsonV {
    Null,
    Bool(bool),
    PosInt(u64),
    NegInt(i64),
    Float(Seq<char>),
    Str(Seq<char>),
    Array(Seq<JsonV>),
    Object(Seq<(Seq<char>, JsonV)>),
}

/// The mathematical value of `j`.
pub open spec fn jview(j: Json) -> JsonV
    decreases j,
{
    match j {
        Json::Null => JsonV::Null,
        Json::Bool(b) => JsonV::Bool(b),
        Json::Number(JsonNumber::PosInt(n)) => JsonV::PosInt(n),
        Json::Number(JsonNumber::NegInt(n)) => JsonV::NegInt(n),
        Json::Number(JsonNumber::Float(t)) => JsonV::Float(t@),
        Json::Str(s) => JsonV::Str(s@),
        Json::Array(xs) => JsonV::Array(jviews(xs@)),
        Json::Object(m) => JsonV::Object(entry_views(m.entries@)),
    }
}

/// The values of a sequence of JSON values.
pub open spec fn jviews(xs: Seq<Json>) -> Seq<JsonV>
    decreases xs,
{
    if xs.len() == 0 {
        Seq::empty()
    } else {
        seq![jview(xs[0])] + jviews(xs.drop_first())
    }
}

/// The keys and values of a sequence of object entries.
pub open spec fn entry_views(es: Seq<(String, Json)>) -> Seq<(Seq<char>, JsonV)>
    decreases es,
{
    if es.len() == 0 {
        Seq::empty()
    } else {
        seq![(es[0].0@, jview(es[0].1))] + entry_views(es.drop_first())
    }
}

impl View for Json {
    type V = JsonV;

    open spec fn view(&self) -> JsonV {
        jview(*self)
    }
}

/// `jviews` keeps the length and maps each element.
pub proof fn lemma_jviews(xs: Seq<Json>)
    ensures
        jviews(xs).len() == xs.len(),
        forall|i: int| 0 <= i < xs.len() ==> #[trigger] jviews(xs)[i] == jview(xs[i]),
    decreases xs.len(),
{
    if xs.len() > 0 {
        lemma_jviews(xs.drop_first());
        assert forall|i: int| 0 <= i < xs.len() implies #[trigger] jviews(xs)[i] == jview(xs[i]) by {
            if i > 0 {
                assert(xs.drop_first()[i - 1] == xs[i]);
            }
        }
    }
}

/// `jviews` of a concatenation.
pub proof fn lemma_jviews_add(a: Seq<Json>, b: Seq<Json>)
    ensures
        jviews(a + b) == jviews(a) + jviews(b),
{
    lemma_jviews(a);
    lemma_jviews(b);
    lemma_jviews(a + b);
    assert forall|i: int| 0 <= i < (a + b).len() implies #[trigger] jviews(a + b)[i] == (jviews(a) + jviews(b))[i] by {
        if i < a.len() {
            assert((a + b)[i] == a[i]);
        } else {
            assert((a + b)[i] == b[i - a.len()]);
        }
    }
    assert(jviews(a + b) =~= jviews(a) + jviews(b));
}

/// `entry_views` keeps the length and maps each entry.
pub proof fn lemma_entry_views(es: Seq<(String, Json)>)
    ensures
        entry_views(es).len() == es.len(),
        forall|i: int| 0 <= i < es.len() ==> #[trigger] entry_views(es)[i] == (es[i].0@, jview(es[i].1)),
    decreases es.len(),
{
    if es.len() > 0 {
        lemma_entry_views(es.drop_first());
        assert forall|i: int| 0 <= i < es.len() implies #[trigger] entry_views(es)[i] == (es[i].0@, jview(es[i].1)) by {
            if i > 0 {
                assert(es.drop_first()[i - 1] == es[i]);
            }
        }
    }
}

/// Two entry lists with the same keys have the same first positions.
proof fn lemma_key_pos_same_keys(es: Seq<(String, Json)>, fs: Seq<(String, Json)>, k: Seq<char>)
    requires
        es.len() == fs.len(),
        forall|i: int| #![trigger es[i]] #![trigger fs[i]] 0 <= i < es.len() ==> es[i].0@ == fs[i].0@,
    ensures
        key_pos(es, k) == key_pos(fs, k),
        has_key(es, k) == has_key(fs, k),
{
    if exists|i: int| is_first_key(es, k, i) {
        let i = choose|i: int| is_first_key(es, k, i);
        assert(is_first_key(fs, k, i));
        lemma_first_key_unique(es, k, i);
        lemma_first_key_unique(fs, k, i);
    } else if exists|i: int| is_first_key(fs, k, i) {
        let i = choose|i: int| is_first_key(fs, k, i);
        assert(is_first_key(es, k, i));
    }
    if has_key(es, k) {
        let i = choose|i: int| 0 <= i < es.len() && es[i].0@ == k;
        assert(fs[i].0@ == k);
    }
    if has_key(fs, k) {
        let i = choose|i: int| 0 <= i < fs.len() && fs[i].0@ == k;
        assert(es[i].0@ == k);
    }
}

/// There is a first position for every key that occurs.
pub proof fn lemma_has_key_first(es: Seq<(String, Json)>, k: Seq<char>)
    requires
        has_key(es, k),
    ensures
        is_first_key(es, k, key_pos(es, k)),
{
    let i = choose|i: int| 0 <= i < es.len() && es[i].0@ == k;
    lemma_first_at_most(es, k, i);
    let p = choose|p: int| p <= i && is_first_key(es, k, p);
    lemma_first_key_unique(es, k, p);
}

/// If `k` occurs at `j`, it has a first position at most `j`.
proof fn lemma_first_at_most(es: Seq<(String, Json)>, k: Seq<char>, j: int)
    requires
        0 <= j < es.len(),
        es[j].0@ == k,
    ensures
        exists|p: int| p <= j && is_first_key(es, k, p),
    decreases j,
{
    if forall|q: int| 0 <= q < j ==> es[q].0@ != k {
        assert(is_first_key(es, k, j));
    } else {
        let q = choose|q: int| 0 <= q < j && es[q].0@ != k == false;
        lemma_first_at_most(es, k, q);
    }
}

/// Replacing the value of one entry leaves every other key's value alone.
pub proof fn lemma_lookup_update_value(es: Seq<(String, Json)>, p: int, v: Json, k: Seq<char>)
    requires
        0 <= p < es.len(),
        es[p].0@ != k,
    ensures
        lookup(es.update(p, (es[p].0, v)), k) == lookup(es, k),
{
    let fs = es.update(p, (es[p].0, v));
    lemma_key_pos_same_keys(es, fs, k);
    if has_key(es, k) {
        lemma_has_key_first(es, k);
    } else {
        if key_pos(es, k) >= 0 {
            assert(is_first_key(es, k, choose|i: int| is_first_key(es, k, i)));
        }
    }
}

impl JsonMap {
    /// Move out the value stored under `k`, leaving `null` in its place.
    pub fn take(&mut self, k: &str) -> (r: Option<Json>)
        ensures
            r == lookup(old(self).entries@, k@),
            r is Some ==> final(self).entries@ == old(self).entries@.update(
                key_pos(old(self).entries@, k@),
                (old(self).entries@[key_pos(old(self).entries@, k@)].0, Json::Null),
            ),
            r is None ==> final(self).entries@ == old(self).entries@,
    {
        match self.find(k) {
            Some(i) => {
                let (key, v) = self.entries.remove(i);
                self.entries.insert(i, (key, Json::Null));
                assert(self.entries@ =~= old(self).entries@.update(i as int, (old(self).entries@[i as int].0, Json::Null)));
                Some(v)
            },
            None => None,
        }
    }
}

impl Json {
    /// Move out the field `k` of an object, leaving `null` in its place;
    /// `None` when `self` is not an object holding `k`.
    pub fn take_field(&mut self, k: &str) -> (r: Option<Json>)
        ensures
            r == json_field(*old(self), k@),
            *old(self) is Object ==> *final(self) is Object && (r is Some ==> (*final(self))->Object_0.entries@
                == (*old(self))->Object_0.entries@.update(
                key_pos((*old(self))->Object_0.entries@, k@),
                ((*old(self))->Object_0.entries@[key_pos((*old(self))->Object_0.entries@, k@)].0, Json::Null),
            )) && (r is None ==> (*final(self))->Object_0.entries@ == (*old(self))->Object_0.entries@),
            !(*old(self) is Object) ==> *final(self) == *old(self),
            forall|o: Seq<char>| o != k@ ==> #[trigger] json_field(*final(self), o) == json_field(*old(self), o),
    {
        match self {
            Json::Object(m) => {
                let ghost es = m.entries@;
                let r = m.take(k);
                proof {
                    if r is Some {
                        lemma_has_key_first(es, k@);
                        assert forall|o: Seq<char>| o != k@ implies #[trigger] lookup(m.entries@, o) == lookup(es, o) by {
                            lemma_lookup_update_value(es, key_pos(es, k@), Json::Null, o);
                        }
                    } else {
                        if has_key(es, k@) {
                            lemma_has_key_first(es, k@);
                        }
                    }
                }
                r
            },
            _ => None,
        }
    }
}

/// `i` is the first position of key `k` among the pairs `es`.
pub open spec fn vkey_first(es: Seq<(Seq<char>, JsonV)>, k: Seq<char>, i: int) -> bool {
    &&& 0 <= i < es.len()
    &&& es[i].0 == k
    &&& forall|j: int| 0 <= j < i ==> es[j].0 != k
}

/// The value stored under `k` among the pairs `es`, if any.
pub open spec fn vlookup(es: Seq<(Seq<char>, JsonV)>, k: Seq<char>) -> Option<JsonV> {
    if exists|i: int| vkey_first(es, k, i) {
        Some(es[choose|i: int| vkey_first(es, k, i)].1)
    } else {
        None
    }
}

/// Store `v` under `k`: the pair with that key keeps its place and takes
/// the new value, or a new pair is appended.
pub open spec fn insert_v(es: Seq<(Seq<char>, JsonV)>, k: Seq<char>, v: JsonV) -> Seq<(Seq<char>, JsonV)> {
    if exists|i: int| vkey_first(es, k, i) {
        es.update(choose|i: int| vkey_first(es, k, i), (k, v))
    } else {
        es.push((k, v))
    }
}

/// The field `k` of an object value.
pub open spec fn vfield(v: JsonV, k: Seq<char>) -> Option<JsonV> {
    match v {
        JsonV::Object(es) => vlookup(es, k),
        _ => None,
    }
}

/// A key has at most one first position.
pub proof fn lemma_vkey_first_unique(es: Seq<(Seq<char>, JsonV)>, k: Seq<char>, i: int, j: int)
    requires
        vkey_first(es, k, i),
        vkey_first(es, k, j),
    ensures
        i == j,
{
    if i < j {
        assert(es[i].0 == k);
    } else if j < i {
        assert(es[j].0 == k);
    }
}

/// First positions of a key are the same in entries and in their views.
pub proof fn lemma_first_key_view(es: Seq<(String, Json)>, k: Seq<char>, i: int)
    ensures
        is_first_key(es, k, i) <==> vkey_first(entry_views(es), k, i),
{
    lemma_entry_views(es);
    let vs = entry_views(es);
    if is_first_key(es, k, i) {
        assert forall|j: int| 0 <= j < i implies vs[j].0 != k by {
            assert(vs[j] == (es[j].0@, jview(es[j].1)));
        }
    }
    if vkey_first(vs, k, i) {
        assert forall|j: int| 0 <= j < i implies es[j].0@ != k by {
            assert(vs[j] == (es[j].0@, jview(es[j].1)));
        }
    }
}

/// Looking a key up in the views of entries.
pub proof fn lemma_vlookup_views(es: Seq<(String, Json)>, k: Seq<char>)
    ensures
        vlookup(entry_views(es), k) == (match lookup(es, k) {
            Some(x) => Some(jview(x)),
            None => None,
        }),
{
    lemma_entry_views(es);
    let vs = entry_views(es);
    if has_key(es, k) {
        lemma_has_key_first(es, k);
        let p = key_pos(es, k);
        lemma_first_key_view(es, k, p);
        let q = choose|i: int| vkey_first(vs, k, i);
        lemma_vkey_first_unique(vs, k, p, q);
    } else {
        if exists|i: int| vkey_first(vs, k, i) {
            let q = choose|i: int| vkey_first(vs, k, i);
            lemma_first_key_view(es, k, q);
        }
        if key_pos(es, k) >= 0 {
            let c = choose|i: int| is_first_key(es, k, i);
            assert(is_first_key(es, k, c));
        }
    }
}

/// Storing `v` under `k` seen through the views of the entries.
proof fn lemma_insert_views(es: Seq<(String, Json)>, k: String, v: Json)
    ensures
        has_key(es, k@) ==> entry_views(es.update(key_pos(es, k@), (es[key_pos(es, k@)].0, v))) == insert_v(
            entry_views(es),
            k@,
            jview(v),
        ),
        !has_key(es, k@) ==> entry_views(es.push((k, v))) == insert_v(entry_views(es), k@, jview(v)),
{
    lemma_entry_views(es);
    let vs = entry_views(es);
    if has_key(es, k@) {
        lemma_has_key_first(es, k@);
        let p = key_pos(es, k@);
        lemma_first_key_view(es, k@, p);
        let q = choose|i: int| vkey_first(vs, k@, i);
        lemma_vkey_first_unique(vs, k@, p, q);
        let fs = es.update(p, (es[p].0, v));
        lemma_entry_views(fs);
        assert(entry_views(fs) =~= insert_v(vs, k@, jview(v)));
    } else {
        if exists|i: int| vkey_first(vs, k@, i) {
            let q = choose|i: int| vkey_first(vs, k@, i);
            lemma_first_key_view(es, k@, q);
        }
        let fs = es.push((k, v));
        lemma_entry_views(fs);
        assert(entry_views(fs) =~= insert_v(vs, k@, jview(v)));
    }
}

/// Reading a field through the value of a JSON value.
pub proof fn lemma_vfield(j: Json, k: Seq<char>)
    ensures
        vfield(jview(j), k) == (match json_field(j, k) {
            Some(x) => Some(jview(x)),
            None => None,
        }),
{
    if let Json::Object(m) = j {
        lemma_vlookup_views(m.entries@, k);
    }
}

/// Storing under a key whose value was just replaced is the same as
/// storing under it in the first place.
pub proof fn lemma_insert_v_after_update(vs: Seq<(Seq<char>, JsonV)>, k: Seq<char>, p: int, x: JsonV, v: JsonV)
    requires
        vkey_first(vs, k, p),
    ensures
        insert_v(vs.update(p, (k, x)), k, v) == insert_v(vs, k, v),
{
    let ws = vs.update(p, (k, x));
    assert(vkey_first(ws, k, p));
    let q = choose|i: int| vkey_first(ws, k, i);
    lemma_vkey_first_unique(ws, k, p, q);
    let q2 = choose|i: int| vkey_first(vs, k, i);
    lemma_vkey_first_unique(vs, k, p, q2);
    assert(ws.update(p, (k, v)) =~= vs.update(p, (k, v)));
}

/// Taking the value of an entry, seen through the views.
pub proof fn lemma_take_views(es: Seq<(String, Json)>, k: Seq<char>)
    requires
        has_key(es, k),
    ensures
        vkey_first(entry_views(es), k, key_pos(es, k)),
        entry_views(es.update(key_pos(es, k), (es[key_pos(es, k)].0, Json::Null))) == entry_views(es).update(
            key_pos(es, k),
            (k, JsonV::Null),
        ),
{
    let p = key_pos(es, k);
    lemma_has_key_first(es, k);
    lemma_first_key_view(es, k, p);
    let fs = es.update(p, (es[p].0, Json::Null));
    lemma_entry_views(es);
    lemma_entry_views(fs);
    assert(entry_views(fs) =~= entry_views(es).update(p, (k, JsonV::Null)));
}

/// A key that occurs has a first position.
proof fn lemma_vfirst_at_most(es: Seq<(Seq<char>, JsonV)>, k: Seq<char>, j: int)
    requires
        0 <= j < es.len(),
        es[j].0 == k,
    ensures
        exists|p: int| p <= j && vkey_first(es, k, p),
    decreases j,
{
    if forall|q: int| 0 <= q < j ==> es[q].0 != k {
        assert(vkey_first(es, k, j));
    } else {
        let q = choose|q: int| 0 <= q < j && es[q].0 == k;
        lemma_vfirst_at_most(es, k, q);
    }
}

/// What a lookup finds after storing `v` under `k`: `v` under `k`, and
/// under every other key what was there before.
pub proof fn lemma_vlookup_insert(es: Seq<(Seq<char>, JsonV)>, k: Seq<char>, v: JsonV, other: Seq<char>)
    ensures
        vlookup(insert_v(es, k, v), k) == Some(v),
        other != k ==> vlookup(insert_v(es, k, v), other) == vlookup(es, other),
{
    let fs = insert_v(es, k, v);
    if exists|i: int| vkey_first(es, k, i) {
        let p = choose|i: int| vkey_first(es, k, i);
        assert(vkey_first(fs, k, p));
        let q = choose|i: int| vkey_first(fs, k, i);
        lemma_vkey_first_unique(fs, k, p, q);
        if other != k {
            assert forall|i: int| vkey_first(fs, other, i) <==> vkey_first(es, other, i) by {
                if 0 <= i < es.len() {
                    assert forall|j: int| 0 <= j <= i implies (fs[j].0 == other <==> es[j].0 == other) by {
                        if j == p {
                        }
                    }
                }
            }
            if exists|i: int| vkey_first(es, other, i) {
                let a = choose|i: int| vkey_first(es, other, i);
                let b = choose|i: int| vkey_first(fs, other, i);
                lemma_vkey_first_unique(es, other, a, b);
                assert(a != p);
            }
        }
    } else {
        assert forall|j: int| 0 <= j < es.len() implies es[j].0 != k by {
            if es[j].0 == k {
                lemma_vfirst_at_most(es, k, j);
            }
        }
        assert(vkey_first(fs, k, es.len() as int));
        let q = choose|i: int| vkey_first(fs, k, i);
        lemma_vkey_first_unique(fs, k, es.len() as int, q);
        if other != k {
            assert forall|i: int| vkey_first(fs, other, i) <==> vkey_first(es, other, i) by {
                if 0 <= i < es.len() {
                    assert forall|j: int| 0 <= j <= i implies fs[j] == es[j] by {
                    }
                }
            }
            if exists|i: int| vkey_first(es, other, i) {
                let a = choose|i: int| vkey_first(es, other, i);
                let b = choose|i: int| vkey_first(fs, other, i);
                lemma_vkey_first_unique(es, other, a, b);
            }
        }
    }
}

} // verus!
