//! JSON values as the extension reads and writes them, and the recursive
//! merge of user overrides into defaults.
use vstd::prelude::*;

use crate::text::{
    key_less,
    key_less_exec,
    lemma_key_less_irreflexive,
    lemma_key_less_total,
    lemma_key_less_transitive,
};

pub mod laws;

use self::laws::{law_merge_idempotent, law_merge_keeps_well_formed};

verus! {

/// A JSON value. Numbers keep their textual form, since nothing here
/// computes with them.
#[derive(Debug, PartialEq, Eq)]
pub enum Json {
    Null,
    Bool(bool),
    Number(String),
    String(String),
    Array(Vec<Json>),
    Object(JsonObject),
}

/// The members of a JSON object, kept as a map keeps them: each key once,
/// in key order, so that two objects with the same members are equal.
#[derive(Debug, PartialEq, Eq)]
pub struct JsonObject {
    members: Vec<(String, Json)>,
}

/// The mathematical value of a [`Json`]; an object is its members in key
/// order.
pub enum JsonValue {
    Null,
    Bool(bool),
    Number(Seq<char>),
    String(Seq<char>),
    Array(Seq<JsonValue>),
    Object(Seq<(Seq<char>, JsonValue)>),
}

pub open spec fn json_view(j: Json) -> JsonValue
    decreases j,
{
    match j {
        Json::Null => JsonValue::Null,
        Json::Bool(b) => JsonValue::Bool(b),
        Json::Number(n) => JsonValue::Number(n@),
        Json::String(s) => JsonValue::String(s@),
        Json::Array(items) => JsonValue::Array(
            Seq::new(
                items@.len(),
                |i: int|
                    if 0 <= i < items@.len() {
                        json_view(items@[i])
                    } else {
                        JsonValue::Null
                    },
            ),
        ),
        Json::Object(o) => JsonValue::Object(members_view(o)),
    }
}

/// The value of an object's members.
pub closed spec fn members_view(o: JsonObject) -> Seq<(Seq<char>, JsonValue)>
    decreases o,
{
    Seq::new(
        o.members@.len(),
        |i: int|
            if 0 <= i < o.members@.len() {
                (o.members@[i].0@, json_view(o.members@[i].1))
            } else {
                (Seq::empty(), JsonValue::Null)
            },
    )
}

impl View for Json {
    type V = JsonValue;

    open spec fn view(&self) -> JsonValue {
        json_view(*self)
    }
}

impl View for JsonObject {
    type V = Seq<(Seq<char>, JsonValue)>;

    open spec fn view(&self) -> Seq<(Seq<char>, JsonValue)> {
        members_view(*self)
    }
}

/// The value of an optional JSON value.
pub open spec fn json_option_view(j: Option<Json>) -> Option<JsonValue> {
    match j {
        Some(v) => Some(v@),
        None => None,
    }
}

/// The value of a sequence of object members.
pub open spec fn fields_view(fields: Seq<(String, Json)>) -> Seq<(Seq<char>, JsonValue)> {
    Seq::new(fields.len(), |i: int| (fields[i].0@, json_view(fields[i].1)))
}

/// Index of the first member whose key is `key`.
pub open spec fn key_index(fields: Seq<(Seq<char>, JsonValue)>, key: Seq<char>) -> Option<int>
    decreases fields.len(),
{
    if fields.len() == 0 {
        None
    } else if fields[0].0 == key {
        Some(0)
    } else {
        match key_index(fields.drop_first(), key) {
            Some(i) => Some(i + 1),
            None => None,
        }
    }
}

/// The value that an object's members give to `key`.
pub open spec fn lookup(fields: Seq<(Seq<char>, JsonValue)>, key: Seq<char>) -> Option<JsonValue> {
    match key_index(fields, key) {
        Some(i) => Some(fields[i].1),
        None => None,
    }
}

/// Index of the first member whose key does not sort before `key`: where
/// `key` belongs among keys in order.
pub open spec fn first_not_less(fields: Seq<(Seq<char>, JsonValue)>, key: Seq<char>) -> int
    decreases fields.len(),
{
    if fields.len() == 0 || !key_less(fields[0].0, key) {
        0
    } else {
        first_not_less(fields.drop_first(), key) + 1
    }
}

/// Each key occurs at most once among the members.
pub open spec fn unique_keys(fields: Seq<(Seq<char>, JsonValue)>) -> bool {
    forall|i: int, j: int| 0 <= i < j < fields.len() ==> fields[i].0 != fields[j].0
}

/// The keys are in strictly increasing order.
pub open spec fn sorted_keys(fields: Seq<(Seq<char>, JsonValue)>) -> bool {
    forall|i: int, j: int| 0 <= i < j < fields.len() ==> key_less(fields[i].0, fields[j].0)
}

/// Every object reached through object members has its keys in strictly
/// increasing order. Arrays are leaves here: nothing looks into them.
pub open spec fn well_formed(v: JsonValue) -> bool
    decreases v,
{
    match v {
        JsonValue::Object(fields) => sorted_keys(fields) && forall|i: int|
            0 <= i < fields.len() ==> well_formed(#[trigger] fields[i].1),
        _ => true,
    }
}

/// The members after `key` is set to `value`: in place if the key is
/// present, otherwise at its place in key order.
pub open spec fn upsert(
    fields: Seq<(Seq<char>, JsonValue)>,
    key: Seq<char>,
    value: JsonValue,
) -> Seq<(Seq<char>, JsonValue)> {
    match key_index(fields, key) {
        Some(i) => fields.update(i, (fields[i].0, value)),
        None => fields.insert(first_not_less(fields, key), (key, value)),
    }
}

/// `overlay` merged into `base`: two objects are merged key by key, any
/// other overlay replaces the base.
pub open spec fn merged(base: JsonValue, overlay: JsonValue) -> JsonValue
    decreases overlay,
{
    match overlay {
        JsonValue::Object(o) => match base {
            JsonValue::Object(b) => JsonValue::Object(merged_fields(b, o)),
            _ => overlay,
        },
        _ => overlay,
    }
}

/// The members of `b` after the members of `o` are merged into them, one
/// after the other: a key that is already present gets the merge of its
/// value with the overlay's, a new key takes the overlay's value.
pub open spec fn merged_fields(
    b: Seq<(Seq<char>, JsonValue)>,
    o: Seq<(Seq<char>, JsonValue)>,
) -> Seq<(Seq<char>, JsonValue)>
    decreases o,
{
    if o.len() == 0 {
        b
    } else {
        let acc = merged_fields(b, o.drop_last());
        let key = o.last().0;
        let value = o.last().1;
        upsert(
            acc,
            key,
            match lookup(acc, key) {
                Some(current) => merged(current, value),
                None => value,
            },
        )
    }
}

/// The value found by following the object keys of `path` from `v`.
pub open spec fn at_path(v: JsonValue, path: Seq<Seq<char>>) -> Option<JsonValue>
    decreases path.len(),
{
    if path.len() == 0 {
        Some(v)
    } else {
        match v {
            JsonValue::Object(fields) => match lookup(fields, path[0]) {
                Some(child) => at_path(child, path.drop_first()),
                None => None,
            },
            _ => None,
        }
    }
}

/// `key_index` gives the first member with the key, and none exactly when
/// no member has it.
pub proof fn lemma_key_index(fields: Seq<(Seq<char>, JsonValue)>, key: Seq<char>)
    ensures
        match key_index(fields, key) {
            Some(i) => 0 <= i < fields.len() && fields[i].0 == key && forall|j: int|
                0 <= j < i ==> fields[j].0 != key,
            None => forall|j: int| 0 <= j < fields.len() ==> fields[j].0 != key,
        },
    decreases fields.len(),
{
    if fields.len() > 0 && fields[0].0 != key {
        lemma_key_index(fields.drop_first(), key);
        let rest = fields.drop_first();
        match key_index(rest, key) {
            Some(i) => {
                assert forall|j: int| 0 <= j < i + 1 implies fields[j].0 != key by {
                    if j > 0 {
                        assert(fields[j] == rest[j - 1]);
                    }
                }
            },
            None => {
                assert forall|j: int| 0 <= j < fields.len() implies fields[j].0 != key by {
                    if j > 0 {
                        assert(fields[j] == rest[j - 1]);
                    }
                }
            },
        }
    }
}

/// A first match determines `key_index`.
pub proof fn lemma_key_index_first(fields: Seq<(Seq<char>, JsonValue)>, key: Seq<char>, i: int)
    requires
        0 <= i < fields.len(),
        fields[i].0 == key,
        forall|j: int| 0 <= j < i ==> fields[j].0 != key,
    ensures
        key_index(fields, key) == Some(i),
{
    lemma_key_index(fields, key);
    match key_index(fields, key) {
        Some(k) => {
            if k < i {
                assert(fields[k].0 != key);
            } else if k > i {
                assert(fields[i].0 != key);
            }
        },
        None => {
            assert(fields[i].0 != key);
        },
    }
}

/// No match determines `key_index`.
pub proof fn lemma_key_index_none(fields: Seq<(Seq<char>, JsonValue)>, key: Seq<char>)
    requires
        forall|j: int| 0 <= j < fields.len() ==> fields[j].0 != key,
    ensures
        key_index(fields, key) == None::<int>,
{
    lemma_key_index(fields, key);
    match key_index(fields, key) {
        Some(k) => {
            assert(fields[k].0 != key);
        },
        None => {},
    }
}

/// `first_not_less` is where the keys stop sorting before `key`.
pub proof fn lemma_first_not_less(fields: Seq<(Seq<char>, JsonValue)>, key: Seq<char>)
    ensures
        0 <= first_not_less(fields, key) <= fields.len(),
        forall|j: int| 0 <= j < first_not_less(fields, key) ==> key_less(fields[j].0, key),
        first_not_less(fields, key) < fields.len() ==> !key_less(
            fields[first_not_less(fields, key)].0,
            key,
        ),
    decreases fields.len(),
{
    if fields.len() > 0 && key_less(fields[0].0, key) {
        let rest = fields.drop_first();
        lemma_first_not_less(rest, key);
        assert forall|j: int| 0 <= j < first_not_less(fields, key) implies key_less(
            fields[j].0,
            key,
        ) by {
            if j > 0 {
                assert(fields[j] == rest[j - 1]);
            }
        }
        if first_not_less(fields, key) < fields.len() {
            assert(fields[first_not_less(fields, key)] == rest[first_not_less(rest, key)]);
        }
    }
}

/// A stopping point determines `first_not_less`.
pub proof fn lemma_first_not_less_at(fields: Seq<(Seq<char>, JsonValue)>, key: Seq<char>, i: int)
    requires
        0 <= i <= fields.len(),
        forall|j: int| 0 <= j < i ==> key_less(fields[j].0, key),
        i < fields.len() ==> !key_less(fields[i].0, key),
    ensures
        first_not_less(fields, key) == i,
    decreases fields.len(),
{
    if i > 0 {
        let rest = fields.drop_first();
        assert(key_less(fields[0].0, key));
        assert forall|j: int| 0 <= j < i - 1 implies key_less(rest[j].0, key) by {
            assert(rest[j] == fields[j + 1]);
        }
        if i - 1 < rest.len() {
            assert(rest[i - 1] == fields[i]);
        }
        lemma_first_not_less_at(rest, key, i - 1);
    }
}

/// Keys in increasing order are unique.
pub proof fn lemma_sorted_unique(fields: Seq<(Seq<char>, JsonValue)>)
    requires
        sorted_keys(fields),
    ensures
        unique_keys(fields),
{
    assert forall|i: int, j: int| 0 <= i < j < fields.len() implies fields[i].0 != fields[j].0 by {
        if fields[i].0 == fields[j].0 {
            lemma_key_less_irreflexive(fields[i].0);
        }
    }
}

/// What `upsert` gives for each key.
pub proof fn lemma_lookup_upsert(
    fields: Seq<(Seq<char>, JsonValue)>,
    key: Seq<char>,
    value: JsonValue,
    k: Seq<char>,
)
    ensures
        lookup(upsert(fields, key, value), k) == if k == key {
            Some(value)
        } else {
            lookup(fields, k)
        },
{
    let next = upsert(fields, key, value);
    lemma_key_index(fields, key);
    lemma_key_index(fields, k);
    match key_index(fields, key) {
        Some(i) => {
            assert forall|j: int| 0 <= j < next.len() implies next[j].0 == fields[j].0 by {}
            if k == key {
                lemma_key_index_first(next, k, i);
            } else {
                match key_index(fields, k) {
                    Some(i2) => lemma_key_index_first(next, k, i2),
                    None => lemma_key_index_none(next, k),
                }
            }
        },
        None => {
            let p = first_not_less(fields, key);
            lemma_first_not_less(fields, key);
            if k == key {
                assert forall|j: int| 0 <= j < p implies next[j].0 != k by {
                    assert(next[j] == fields[j]);
                }
                lemma_key_index_first(next, k, p);
            } else {
                match key_index(fields, k) {
                    Some(i2) => {
                        if i2 < p {
                            assert forall|j: int| 0 <= j < i2 implies next[j].0 != k by {
                                assert(next[j] == fields[j]);
                            }
                            lemma_key_index_first(next, k, i2);
                        } else {
                            assert forall|j: int| 0 <= j < i2 + 1 implies next[j].0 != k by {
                                if j < p {
                                    assert(next[j] == fields[j]);
                                } else if j > p {
                                    assert(next[j] == fields[j - 1]);
                                }
                            }
                            assert(next[i2 + 1] == fields[i2]);
                            lemma_key_index_first(next, k, i2 + 1);
                        }
                    },
                    None => {
                        assert forall|j: int| 0 <= j < next.len() implies next[j].0 != k by {
                            if j < p {
                                assert(next[j] == fields[j]);
                            } else if j > p {
                                assert(next[j] == fields[j - 1]);
                            }
                        }
                        lemma_key_index_none(next, k);
                    },
                }
            }
        },
    }
}

/// `upsert` keeps an object well-formed.
pub proof fn lemma_upsert_well_formed(
    fields: Seq<(Seq<char>, JsonValue)>,
    key: Seq<char>,
    value: JsonValue,
)
    requires
        well_formed(JsonValue::Object(fields)),
        well_formed(value),
    ensures
        well_formed(JsonValue::Object(upsert(fields, key, value))),
{
    let next = upsert(fields, key, value);
    lemma_key_index(fields, key);
    match key_index(fields, key) {
        Some(i) => {
            assert forall|j: int| 0 <= j < next.len() implies well_formed(#[trigger] next[j].1) by {
                if j != i {
                    assert(next[j] == fields[j]);
                }
            }
        },
        None => {
            let p = first_not_less(fields, key);
            lemma_first_not_less(fields, key);
            // Every key from `p` on sorts after `key`.
            assert forall|j: int| p <= j < fields.len() implies key_less(key, fields[j].0) by {
                if key_less(fields[j].0, key) {
                    if j > p {
                        lemma_key_less_transitive(fields[p].0, fields[j].0, key);
                    }
                }
                lemma_key_less_total(fields[j].0, key);
            }
            assert forall|a: int, b: int| 0 <= a < b < next.len() implies key_less(
                next[a].0,
                next[b].0,
            ) by {
                if b < p {
                    assert(next[a] == fields[a] && next[b] == fields[b]);
                } else if b == p {
                    assert(next[a] == fields[a]);
                } else if a < p {
                    assert(next[a] == fields[a] && next[b] == fields[b - 1]);
                    if p < fields.len() {
                        if b - 1 > p {
                            assert(key_less(fields[a].0, key));
                        }
                    }
                    assert(key_less(fields[a].0, key));
                    assert(key_less(key, fields[b - 1].0));
                    lemma_key_less_transitive(fields[a].0, key, fields[b - 1].0);
                } else if a == p {
                    assert(next[b] == fields[b - 1]);
                } else {
                    assert(next[a] == fields[a - 1] && next[b] == fields[b - 1]);
                }
            }
            assert forall|j: int| 0 <= j < next.len() implies well_formed(#[trigger] next[j].1) by {
                if j < p {
                    assert(next[j] == fields[j]);
                } else if j > p {
                    assert(next[j] == fields[j - 1]);
                }
            }
        },
    }
}

/// The value of an object is the value of its members.
proof fn lemma_members_view(o: JsonObject)
    ensures
        members_view(o) == fields_view(o.members@),
{
    assert(members_view(o) =~= fields_view(o.members@));
}

/// Every `Json` value is well-formed: its objects keep their keys in order.
pub fn value_well_formed(v: &Json)
    ensures
        well_formed(v@),
{
    match v {
        Json::Object(o) => {
            proof {
                use_type_invariant(o);
                lemma_members_view(*o);
            }
        },
        _ => {},
    }
}

impl JsonObject {
    #[verifier::type_invariant]
    spec fn members_in_order(self) -> bool {
        well_formed(JsonValue::Object(fields_view(self.members@)))
    }

    /// An object with no members.
    pub fn new() -> (r: Self)
        ensures
            r@ == Seq::<(Seq<char>, JsonValue)>::empty(),
    {
        let r = JsonObject { members: Vec::new() };
        proof {
            lemma_members_view(r);
            assert(fields_view(r.members@) =~= Seq::<(Seq<char>, JsonValue)>::empty());
        }
        r
    }

    /// Sets the member `key` to `value`, replacing the value it had.
    pub fn insert(&mut self, key: String, value: Json)
        ensures
            final(self)@ == upsert(old(self)@, key@, value@),
    {
        proof {
            use_type_invariant(&*self);
            lemma_members_view(*self);
        }
        value_well_formed(&value);
        let mut members = Vec::new();
        std::mem::swap(&mut members, &mut self.members);
        let ghost before = fields_view(members@);
        match find_key(&members, &key) {
            Some(i) => {
                proof {
                    lemma_key_index(before, key@);
                }
                let mut slot = (String::new(), Json::Null);
                members.set_and_swap(i, &mut slot);
                let (slot_key, _) = slot;
                let mut back = (slot_key, value);
                members.set_and_swap(i, &mut back);
                proof {
                    assert(fields_view(members@) =~= upsert(before, key@, value@));
                }
            },
            None => {
                let p = insert_position(&members, &key);
                proof {
                    lemma_first_not_less(before, key@);
                }
                members.insert(p, (key, value));
                proof {
                    assert(fields_view(members@) =~= upsert(before, key@, value@));
                }
            },
        }
        proof {
            lemma_upsert_well_formed(before, key@, value@);
        }
        self.members = members;
        proof {
            lemma_members_view(*self);
        }
    }

    /// The member with the given key.
    pub fn get(&self, key: &str) -> (r: Option<&Json>)
        ensures
            match lookup(self@, key@) {
                Some(v) => r matches Some(c) && c@ == v,
                None => r is None,
            },
    {
        proof {
            lemma_members_view(*self);
        }
        let k = String::from_str(key);
        match find_key(&self.members, &k) {
            Some(i) => {
                proof {
                    lemma_key_index(fields_view(self.members@), key@);
                }
                Some(&self.members[i].1)
            },
            None => None,
        }
    }

    /// The members, in key order.
    pub fn into_members(self) -> (r: Vec<(String, Json)>)
        ensures
            fields_view(r@) == self@,
    {
        proof {
            lemma_members_view(self);
        }
        let JsonObject { members } = self;
        members
    }
}

impl Json {
    /// The member of an object with the given key; `None` for a value that
    /// is no object or has no such member.
    pub fn get(&self, key: &str) -> (r: Option<&Json>)
        ensures
            match self@ {
                JsonValue::Object(fields) => match lookup(fields, key@) {
                    Some(v) => r matches Some(c) && c@ == v,
                    None => r is None,
                },
                _ => r is None,
            },
    {
        match self {
            Json::Object(o) => o.get(key),
            _ => None,
        }
    }

    /// The text of a string value.
    pub fn as_str(&self) -> (r: Option<&str>)
        ensures
            match self@ {
                JsonValue::String(s) => r matches Some(t) && t@ == s,
                _ => r is None,
            },
    {
        match self {
            Json::String(s) => Some(s.as_str()),
            _ => None,
        }
    }
}

/// Position of the first member with the given key.
fn find_key(fields: &Vec<(String, Json)>, key: &String) -> (r: Option<usize>)
    ensures
        match r {
            Some(i) => key_index(fields_view(fields@), key@) == Some(i as int),
            None => key_index(fields_view(fields@), key@) == None::<int>,
        },
{
    let ghost fv = fields_view(fields@);
    let mut i: usize = 0;
    while i < fields.len()
        invariant
            i <= fields.len(),
            fv == fields_view(fields@),
            forall|j: int| 0 <= j < i ==> fv[j].0 != key@,
        decreases fields.len() - i,
    {
        if fields[i].0 == *key {
            proof {
                lemma_key_index_first(fv, key@, i as int);
            }
            return Some(i);
        }
        i = i + 1;
    }
    proof {
        lemma_key_index_none(fv, key@);
    }
    None
}

/// Where `key` belongs among the members' keys in order.
fn insert_position(fields: &Vec<(String, Json)>, key: &String) -> (r: usize)
    ensures
        r == first_not_less(fields_view(fields@), key@),
{
    let ghost fv = fields_view(fields@);
    let mut i: usize = 0;
    while i < fields.len() && key_less_exec(fields[i].0.as_str(), key.as_str())
        invariant
            i <= fields.len(),
            fv == fields_view(fields@),
            forall|j: int| 0 <= j < i ==> key_less(fv[j].0, key@),
        decreases fields.len() - i,
    {
        i = i + 1;
    }
    proof {
        lemma_first_not_less_at(fv, key@, i as int);
    }
    i
}

/// Recursively merges `overlay` into `base`. Objects are merged key by key;
/// any other value type in `overlay` replaces the value in `base`. Merging
/// the same overlay again would change nothing more.
pub fn merge(base: &mut Json, overlay: Json)
    ensures
        final(base)@ == merged(old(base)@, overlay@),
        merged(final(base)@, overlay@) == final(base)@,
        well_formed(final(base)@),
    decreases overlay,
{
    value_well_formed(&overlay);
    value_well_formed(base);
    proof {
        law_merge_idempotent(base@, overlay@);
        law_merge_keeps_well_formed(base@, overlay@);
    }
    match overlay {
        Json::Object(overlay_members) => {
            let mut current = Json::Null;
            std::mem::swap(base, &mut current);
            match current {
                Json::Object(base_members) => {
                    *base = Json::Object(merge_objects(base_members, overlay_members));
                },
                _ => {
                    *base = Json::Object(overlay_members);
                },
            }
        },
        other => {
            *base = other;
        },
    }
}

/// Merges the members of `overlay` into those of `base`, one at a time.
fn merge_objects(base: JsonObject, overlay: JsonObject) -> (r: JsonObject)
    ensures
        r@ == merged_fields(base@, overlay@),
    decreases overlay,
{
    proof {
        use_type_invariant(&base);
        use_type_invariant(&overlay);
        lemma_members_view(base);
        lemma_members_view(overlay);
    }
    let ghost b0 = base@;
    let ghost ov = overlay@;
    let ghost whole = overlay;
    let JsonObject { members: mut base_fields } = base;
    let JsonObject { members: mut rest } = overlay;
    let ghost o0 = rest@;
    let n = rest.len();
    let mut i: usize = 0;
    proof {
        assert(ov.take(0) =~= Seq::<(Seq<char>, JsonValue)>::empty());
    }
    while i < n
        invariant
            n == o0.len(),
            rest@.len() == n,
            i <= n,
            ov == fields_view(o0),
            o0 == whole.members@,
            forall|k: int| 0 <= k < n ==> decreases_to!(overlay => #[trigger] o0[k].1),
            forall|k: int| i <= k < n ==> rest@[k] == o0[k],
            fields_view(base_fields@) == merged_fields(b0, ov.take(i as int)),
        decreases n - i,
    {
        let mut entry = (String::new(), Json::Null);
        rest.set_and_swap(i, &mut entry);
        let (key, value) = entry;
        let ghost acc = fields_view(base_fields@);
        proof {
            assert(ov.take(i + 1).drop_last() =~= ov.take(i as int));
            assert(ov.take(i + 1).last() == (key@, value@));
        }
        match find_key(&base_fields, &key) {
            Some(j) => {
                proof {
                    lemma_key_index(acc, key@);
                }
                let mut slot = (String::new(), Json::Null);
                base_fields.set_and_swap(j, &mut slot);
                let (slot_key, mut slot_value) = slot;
                merge(&mut slot_value, value);
                let mut back = (slot_key, slot_value);
                base_fields.set_and_swap(j, &mut back);
                proof {
                    assert(fields_view(base_fields@) =~= upsert(
                        acc,
                        key@,
                        merged(acc[j as int].1, ov[i as int].1),
                    ));
                }
            },
            None => {
                let p = insert_position(&base_fields, &key);
                proof {
                    lemma_first_not_less(acc, key@);
                }
                base_fields.insert(p, (key, value));
                proof {
                    assert(fields_view(base_fields@) =~= upsert(acc, key@, ov[i as int].1));
                }
            },
        }
        i = i + 1;
    }
    proof {
        assert(ov.take(n as int) =~= ov);
        law_merge_keeps_well_formed(JsonValue::Object(b0), JsonValue::Object(ov));
    }
    let r = JsonObject { members: base_fields };
    proof {
        lemma_members_view(r);
    }
    r
}

} // verus!
