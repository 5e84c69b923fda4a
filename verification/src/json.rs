//! The JSON documents that the compiler reads and the generator writes.
use vstd::prelude::*;

verus! {

/// A JSON number, kept exactly as the document wrote it.
#[derive(Clone, Copy, Debug, PartialEq, Eq, Structural)]
pub enum JsonNumber {
    PosInt(u64),
    NegInt(i64),
    /// The IEEE-754 bit pattern of a number with a fraction or an exponent.
    Float(u64),
}

/// A JSON document.
#[derive(Debug, PartialEq, Eq)]
pub enum JsonValue {
    Null,
    Bool(bool),
    Number(JsonNumber),
    String(String),
    Array(Vec<JsonValue>),
    Object(JsonMap),
}

/// A JSON object: its members as key and value pairs, in the order in which their
/// keys were first inserted. `insert` keeps each key once; where `entries` is filled
/// otherwise and holds a key twice, the later member is the one that counts.
#[derive(Debug, PartialEq, Eq)]
pub struct JsonMap {
    pub entries: Vec<(String, JsonValue)>,
}

/// What a JSON document means.
pub enum Json {
    Null,
    Bool(bool),
    Number(JsonNumber),
    Str(Seq<char>),
    Array(Seq<Json>),
    Object(Map<Seq<char>, Json>),
}

impl JsonValue {
    /// What this document means.
    pub open spec fn json(&self) -> Json
        decreases self,
    {
        match self {
            JsonValue::Null => Json::Null,
            JsonValue::Bool(b) => Json::Bool(*b),
            JsonValue::Number(n) => Json::Number(*n),
            JsonValue::String(s) => Json::Str(s@),
            JsonValue::Array(items) => Json::Array(json_seq(items@)),
            JsonValue::Object(m) => Json::Object(json_members(m.entries@)),
        }
    }
}

impl View for JsonValue {
    type V = Json;

    open spec fn view(&self) -> Json {
        self.json()
    }
}

impl View for JsonMap {
    type V = Map<Seq<char>, Json>;

    open spec fn view(&self) -> Map<Seq<char>, Json> {
        json_members(self.entries@)
    }
}

/// The meaning of each element of an array, in order.
pub open spec fn json_seq(items: Seq<JsonValue>) -> Seq<Json>
    decreases items,
{
    if items.len() == 0 {
        Seq::empty()
    } else {
        json_seq(items.drop_last()).push(items.last().json())
    }
}

/// The members of an object: each key maps to the value inserted last with it.
pub open spec fn json_members(entries: Seq<(String, JsonValue)>) -> Map<Seq<char>, Json>
    decreases entries,
{
    if entries.len() == 0 {
        Map::empty()
    } else {
        json_members(entries.drop_last()).insert(entries.last().0@, entries.last().1.json())
    }
}

/// The member of `v` under `key`, where `v` is an object that has one.
pub open spec fn json_get(v: Json, key: Seq<char>) -> Option<Json> {
    match v {
        Json::Object(m) => if m.dom().contains(key) {
            Some(m[key])
        } else {
            None
        },
        _ => None,
    }
}

/// Looking up a key just written gives the value written, whatever kind of value it
/// is; looking up any other key gives what it gave before; an empty object has no
/// member.
pub proof fn lemma_json_get_after_insert(m: Map<Seq<char>, Json>, k: Seq<char>, v: Json, other: Seq<
    char,
>)
    ensures
        json_get(Json::Object(m.insert(k, v)), k) == Some(v),
        other != k ==> json_get(Json::Object(m.insert(k, v)), other) == json_get(
            Json::Object(m),
            other,
        ),
        json_get(Json::Object(Map::empty()), k) is None,
{
}

/// An optional string as a JSON value: `null` where it is absent.
pub open spec fn json_opt_str(s: Option<Seq<char>>) -> Json {
    match s {
        Some(t) => Json::Str(t),
        None => Json::Null,
    }
}

/// A sequence of strings as a JSON array.
pub open spec fn json_str_array(s: Seq<Seq<char>>) -> Json {
    Json::Array(s.map_values(|t: Seq<char>| Json::Str(t)))
}

/// The view of an optional string.
pub open spec fn opt_view(s: Option<String>) -> Option<Seq<char>> {
    match s {
        Some(t) => Some(t@),
        None => None,
    }
}

/// A copy of an optional string.
pub fn clone_opt_string(s: &Option<String>) -> (res: Option<String>)
    ensures
        opt_view(res) == opt_view(*s),
{
    match s {
        Some(t) => Some(t.clone()),
        None => None,
    }
}

/// Appending a value to an array appends its meaning.
pub proof fn lemma_json_seq_push(items: Seq<JsonValue>, v: JsonValue)
    ensures
        json_seq(items.push(v)) == json_seq(items).push(v@),
        json_seq(items).len() == items.len(),
    decreases items.len(),
{
    assert(items.push(v).drop_last() =~= items);
    if items.len() > 0 {
        lemma_json_seq_push(items.drop_last(), items.last());
    }
}

/// Appending a member to an object sets that key.
pub proof fn lemma_json_members_push(entries: Seq<(String, JsonValue)>, e: (String, JsonValue))
    ensures
        json_members(entries.push(e)) == json_members(entries).insert(e.0@, e.1@),
{
    assert(entries.push(e).drop_last() =~= entries);
}

/// Looking a key up from the end: where no member of `entries` after the first `i`
/// has `key`, the whole object and its first `i` members agree on `key`.
proof fn lemma_json_members_take(entries: Seq<(String, JsonValue)>, key: Seq<char>, i: int)
    requires
        0 <= i <= entries.len(),
        forall|j: int| i <= j < entries.len() ==> entries[j].0@ != key,
    ensures
        json_members(entries).dom().contains(key) == json_members(entries.take(i)).dom().contains(
            key,
        ),
        json_members(entries).dom().contains(key) ==> json_members(entries)[key] == json_members(
            entries.take(i),
        )[key],
    decreases entries.len() - i,
{
    if i < entries.len() {
        lemma_json_members_take(entries, key, i + 1);
        assert(entries.take(i + 1).drop_last() =~= entries.take(i));
    } else {
        assert(entries.take(i) =~= entries);
    }
}

/// No key occurs twice among `entries`.
pub open spec fn keys_distinct<V>(entries: Seq<(String, V)>) -> bool {
    forall|i: int, j: int|
        0 <= i < j < entries.len() ==> #[trigger] entries[i].0@ != #[trigger] entries[j].0@
}

/// The position of the last pair whose key is `key`, if there is one.
pub fn find_key<V>(entries: &Vec<(String, V)>, key: &String) -> (res: Option<usize>)
    ensures
        match res {
            Some(i) => i < entries@.len() && entries@[i as int].0@ == key@ && forall|j: int|
                i < j < entries@.len() ==> entries@[j].0@ != key@,
            None => forall|j: int| 0 <= j < entries@.len() ==> entries@[j].0@ != key@,
        },
{
    let mut i = entries.len();
    while i > 0
        invariant
            0 <= i <= entries@.len(),
            forall|j: int| i <= j < entries@.len() ==> entries@[j].0@ != key@,
        decreases i,
    {
        if entries[i - 1].0 == *key {
            return Some(i - 1);
        }
        i = i - 1;
    }
    None
}

/// Setting the pair at the last position of `key` sets that key in the object.
pub proof fn lemma_json_members_update(
    entries: Seq<(String, JsonValue)>,
    i: int,
    e: (String, JsonValue),
)
    requires
        0 <= i < entries.len(),
        entries[i].0@ == e.0@,
        forall|j: int| i < j < entries.len() ==> entries[j].0@ != e.0@,
    ensures
        json_members(entries.update(i, e)) == json_members(entries).insert(e.0@, e.1@),
    decreases entries.len(),
{
    let updated = entries.update(i, e);
    if i == entries.len() - 1 {
        assert(updated.drop_last() =~= entries.drop_last());
    } else {
        assert(updated.drop_last() =~= entries.drop_last().update(i, e));
        lemma_json_members_update(entries.drop_last(), i, e);
    }
    assert(json_members(updated) =~= json_members(entries).insert(e.0@, e.1@));
}

/// Replacing the value of a pair, or adding a pair with a new key, keeps the keys
/// distinct.
pub proof fn lemma_keys_distinct_set<V>(entries: Seq<(String, V)>, found: Option<usize>, e: (
    String,
    V,
))
    requires
        keys_distinct(entries),
        match found {
            Some(i) => i < entries.len() && entries[i as int].0@ == e.0@,
            None => forall|j: int| 0 <= j < entries.len() ==> entries[j].0@ != e.0@,
        },
    ensures
        keys_distinct(
            match found {
                Some(i) => entries.update(i as int, e),
                None => entries.push(e),
            },
        ),
{
    let after = match found {
        Some(i) => entries.update(i as int, e),
        None => entries.push(e),
    };
    assert forall|a: int, b: int| 0 <= a < b < after.len() implies #[trigger] after[a].0@
        != #[trigger] after[b].0@ by {
        if found is None && b == entries.len() {
            assert(after[a] == entries[a]);
        } else {
            assert(after[a].0@ == entries[a].0@);
            assert(after[b].0@ == entries[b].0@);
        }
    }
}

impl JsonMap {
    /// An object with no members.
    pub fn new() -> (res: JsonMap)
        ensures
            res@ == Map::<Seq<char>, Json>::empty(),
            keys_distinct(res.entries@),
    {
        JsonMap { entries: Vec::new() }
    }

    /// Sets the member `key` to `value`: the pair with that key takes the new value
    /// where there is one, and a new pair is added at the end otherwise.
    pub fn insert(&mut self, key: String, value: JsonValue)
        ensures
            final(self)@ == old(self)@.insert(key@, value@),
            keys_distinct(old(self).entries@) ==> keys_distinct(final(self).entries@),
            match find_last(old(self).entries@, key@) {
                Some(i) => final(self).entries@ == old(self).entries@.update(i, (key, value)),
                None => final(self).entries@ == old(self).entries@.push((key, value)),
            },
    {
        let found = find_key(&self.entries, &key);
        proof {
            lemma_find_last(self.entries@, key@, found);
            if keys_distinct(self.entries@) {
                lemma_keys_distinct_set(self.entries@, found, (key, value));
            }
        }
        match found {
            Some(i) => {
                proof {
                    lemma_json_members_update(self.entries@, i as int, (key, value));
                }
                self.entries.set(i, (key, value));
            },
            None => {
                proof {
                    lemma_json_members_push(self.entries@, (key, value));
                }
                self.entries.push((key, value));
            },
        }
    }

    /// The member under `key`, if there is one.
    pub fn get(&self, key: &str) -> (res: Option<&JsonValue>)
        ensures
            res.is_some() == self@.dom().contains(key@),
            res matches Some(v) ==> v@ == self@[key@],
    {
        let k = key.to_owned();
        match find_key(&self.entries, &k) {
            Some(i) => {
                proof {
                    lemma_json_members_take(self.entries@, key@, i + 1);
                    assert(self.entries@.take(i + 1).drop_last() =~= self.entries@.take(
                        i as int,
                    ));
                }
                Some(&self.entries[i].1)
            },
            None => {
                proof {
                    lemma_json_members_take(self.entries@, key@, 0);
                }
                None
            },
        }
    }
}

/// The position of the last pair whose key is `key`, if there is one.
pub open spec fn find_last<V>(entries: Seq<(String, V)>, key: Seq<char>) -> Option<int>
    decreases entries.len(),
{
    if entries.len() == 0 {
        None
    } else if entries.last().0@ == key {
        Some(entries.len() - 1)
    } else {
        find_last(entries.drop_last(), key)
    }
}

/// `find_key` finds what `find_last` names.
pub proof fn lemma_find_last<V>(entries: Seq<(String, V)>, key: Seq<char>, found: Option<usize>)
    requires
        match found {
            Some(i) => i < entries.len() && entries[i as int].0@ == key && forall|j: int|
                i < j < entries.len() ==> entries[j].0@ != key,
            None => forall|j: int| 0 <= j < entries.len() ==> entries[j].0@ != key,
        },
    ensures
        find_last(entries, key) == match found {
            Some(i) => Some(i as int),
            None => None::<int>,
        },
    decreases entries.len(),
{
    if entries.len() > 0 {
        let last = entries.len() - 1;
        match found {
            Some(i) => {
                if (i as int) < last {
                    lemma_find_last(entries.drop_last(), key, found);
                }
            },
            None => {
                lemma_find_last(entries.drop_last(), key, found);
            },
        }
    }
}

impl JsonValue {
    /// The member of this value under `key`, where this value is an object that has one.
    pub fn get(&self, key: &str) -> (res: Option<&JsonValue>)
        ensures
            res.is_some() == json_get(self@, key@).is_some(),
            res matches Some(v) ==> json_get(self@, key@) == Some(v@),
            self matches JsonValue::Object(m) ==> res.is_some() == m@.dom().contains(key@),
            self matches JsonValue::Object(m) ==> (res matches Some(v) ==> v@ == m@[key@]),
            !(self is Object) ==> res is None,
    {
        match self {
            JsonValue::Object(m) => m.get(key),
            _ => None,
        }
    }

    /// Whether this value is an object.
    pub fn is_object(&self) -> (res: bool)
        ensures
            res == self@ is Object,
    {
        match self {
            JsonValue::Object(_) => true,
            _ => false,
        }
    }

    /// A copy of this value.
    pub fn duplicate(&self) -> (res: JsonValue)
        ensures
            res@ == self@,
        decreases self,
    {
        match self {
            JsonValue::Null => JsonValue::Null,
            JsonValue::Bool(b) => JsonValue::Bool(*b),
            JsonValue::Number(n) => JsonValue::Number(*n),
            JsonValue::String(s) => JsonValue::String(s.clone()),
            JsonValue::Array(items) => {
                let mut out: Vec<JsonValue> = Vec::new();
                let mut i: usize = 0;
                #[verifier::loop_isolation(false)]
                while i < items.len()
                    invariant
                        i <= items.len(),
                        json_seq(out@) == json_seq(items@.take(i as int)),
                    decreases items.len() - i,
                {
                    proof {
                        assert(decreases_to!(items@ => items@[i as int]));
                    }
                    let v = items[i].duplicate();
                    proof {
                        lemma_json_seq_push(out@, v);
                        lemma_json_seq_push(items@.take(i as int), items@[i as int]);
                        assert(items@.take(i + 1) =~= items@.take(i as int).push(items@[i as int]));
                    }
                    out.push(v);
                    i = i + 1;
                }
                assert(items@.take(items.len() as int) =~= items@);
                JsonValue::Array(out)
            },
            JsonValue::Object(m) => {
                let mut out = JsonMap::new();
                let mut i: usize = 0;
                #[verifier::loop_isolation(false)]
                while i < m.entries.len()
                    invariant
                        i <= m.entries.len(),
                        out@ == json_members(m.entries@.take(i as int)),
                    decreases m.entries.len() - i,
                {
                    let k = m.entries[i].0.clone();
                    proof {
                        assert(decreases_to!(m.entries@ => m.entries@[i as int]));
                    }
                    let v = m.entries[i].1.duplicate();
                    proof {
                        assert(m.entries@.take(i + 1).drop_last() =~= m.entries@.take(i as int));
                    }
                    out.insert(k, v);
                    i = i + 1;
                }
                assert(m.entries@.take(m.entries.len() as int) =~= m.entries@);
                JsonValue::Object(out)
            },
        }
    }
}

} // verus!
