//! What holds of the merge of JSON values.
use vstd::prelude::*;

use crate::json::{
    at_path,
    key_index,
    lemma_key_index,
    lemma_key_index_first,
    lemma_key_index_none,
    lemma_lookup_upsert,
    lemma_sorted_unique,
    lemma_upsert_well_formed,
    lookup,
    merged,
    merged_fields,
    sorted_keys,
    unique_keys,
    well_formed,
    JsonValue,
};
use crate::text::{key_less, lemma_key_less_asymmetric, lemma_key_less_irreflexive};

verus! {

/// What one key holds after a merge, from what the base and the overlay
/// hold for it.
pub open spec fn merged_member(base: Option<JsonValue>, overlay: Option<JsonValue>) -> Option<
    JsonValue,
> {
    match overlay {
        None => base,
        Some(ov) => match base {
            Some(bv) => Some(merged(bv, ov)),
            None => Some(ov),
        },
    }
}

/// The overlay says nothing about `path`: it has no value there, and it
/// replaces no value on the way there (each of its values along the path is
/// an object or missing).
pub open spec fn overlay_silent_on(overlay: JsonValue, path: Seq<Seq<char>>) -> bool {
    &&& at_path(overlay, path) is None
    &&& forall|k: int|
        0 <= k < path.len() ==> match #[trigger] at_path(overlay, path.take(k)) {
            Some(v) => v is Object,
            None => true,
        }
}

/// `lookup` after a member with a new key is appended.
proof fn lemma_lookup_push(
    s: Seq<(Seq<char>, JsonValue)>,
    entry: (Seq<char>, JsonValue),
    key: Seq<char>,
)
    requires
        key_index(s, entry.0) is None,
    ensures
        lookup(s.push(entry), key) == if key == entry.0 {
            Some(entry.1)
        } else {
            lookup(s, key)
        },
{
    let t = s.push(entry);
    lemma_key_index(s, entry.0);
    lemma_key_index(s, key);
    if key == entry.0 {
        assert forall|j: int| 0 <= j < s.len() implies t[j].0 != key by {
            assert(t[j] == s[j]);
        }
        lemma_key_index_first(t, key, s.len() as int);
    } else {
        match key_index(s, key) {
            Some(i) => {
                assert forall|j: int| 0 <= j < i implies t[j].0 != key by {
                    assert(t[j] == s[j]);
                }
                lemma_key_index_first(t, key, i);
            },
            None => {
                assert forall|j: int| 0 <= j < t.len() implies t[j].0 != key by {
                    if j < s.len() {
                        assert(t[j] == s[j]);
                    }
                }
                lemma_key_index_none(t, key);
            },
        }
    }
}

/// A member's value in a well-formed object is well-formed.
proof fn lemma_lookup_well_formed(fields: Seq<(Seq<char>, JsonValue)>, key: Seq<char>)
    requires
        well_formed(JsonValue::Object(fields)),
    ensures
        lookup(fields, key) matches Some(v) ==> well_formed(v),
{
    lemma_key_index(fields, key);
    if let Some(i) = key_index(fields, key) {
        assert(well_formed(fields[i].1));
    }
}

/// Objects are merged key by key: a key that only the base holds keeps its
/// value, a key that only the overlay holds takes the overlay's value, and a
/// key that both hold gets the merge of the two values.
pub proof fn law_merge_key_by_key(
    base: Seq<(Seq<char>, JsonValue)>,
    overlay: Seq<(Seq<char>, JsonValue)>,
    key: Seq<char>,
)
    requires
        unique_keys(overlay),
    ensures
        merged(JsonValue::Object(base), JsonValue::Object(overlay)) == JsonValue::Object(
            merged_fields(base, overlay),
        ),
        lookup(merged_fields(base, overlay), key) == merged_member(
            lookup(base, key),
            lookup(overlay, key),
        ),
    decreases overlay.len(),
{
    if overlay.len() == 0 {
        lemma_key_index_none(overlay, key);
    } else {
        let o1 = overlay.drop_last();
        let last = overlay.last();
        assert(overlay =~= o1.push(last));
        assert(unique_keys(o1));
        law_merge_key_by_key(base, o1, key);
        law_merge_key_by_key(base, o1, last.0);
        let acc = merged_fields(base, o1);
        let nv = match lookup(acc, last.0) {
            Some(current) => merged(current, last.1),
            None => last.1,
        };
        lemma_lookup_upsert(acc, last.0, nv, key);
        assert forall|j: int| 0 <= j < o1.len() implies o1[j].0 != last.0 by {
            assert(o1[j] == overlay[j]);
        }
        lemma_key_index_none(o1, last.0);
        lemma_lookup_push(o1, last, key);
    }
}

/// An overlay that is not an object, or a base that is not an object, is
/// replaced by the overlay.
pub proof fn law_merge_replaces_non_objects(base: JsonValue, overlay: JsonValue)
    requires
        !(base is Object && overlay is Object),
    ensures
        merged(base, overlay) == overlay,
{
}

/// A merge of well-formed values is well-formed.
pub proof fn law_merge_keeps_well_formed(base: JsonValue, overlay: JsonValue)
    requires
        well_formed(base),
        well_formed(overlay),
    ensures
        well_formed(merged(base, overlay)),
    decreases overlay, 0int,
{
    if let JsonValue::Object(o) = overlay {
        if let JsonValue::Object(b) = base {
            lemma_merged_fields_well_formed(b, o);
        }
    }
}

proof fn lemma_merged_fields_well_formed(
    b: Seq<(Seq<char>, JsonValue)>,
    o: Seq<(Seq<char>, JsonValue)>,
)
    requires
        well_formed(JsonValue::Object(b)),
        well_formed(JsonValue::Object(o)),
    ensures
        well_formed(JsonValue::Object(merged_fields(b, o))),
    decreases o, o.len(),
{
    if o.len() > 0 {
        let o1 = o.drop_last();
        let last = o.last();
        assert forall|i: int| 0 <= i < o1.len() implies well_formed(#[trigger] o1[i].1) by {
            assert(o1[i] == o[i]);
        }
        assert(sorted_keys(o1));
        lemma_merged_fields_well_formed(b, o1);
        let acc = merged_fields(b, o1);
        assert(well_formed(last.1));
        lemma_lookup_well_formed(acc, last.0);
        let nv = match lookup(acc, last.0) {
            Some(current) => {
                assert(decreases_to!(o => last.1));
                law_merge_keeps_well_formed(current, last.1);
                merged(current, last.1)
            },
            None => last.1,
        };
        lemma_upsert_well_formed(acc, last.0, nv);
    }
}

/// Every leaf of the overlay (a value that is no object) is found at the
/// same path in the merge: the user's settings override individual leaves.
pub proof fn law_overlay_leaves_win(base: JsonValue, overlay: JsonValue, path: Seq<Seq<char>>)
    requires
        well_formed(overlay),
        at_path(overlay, path) matches Some(leaf) && !(leaf is Object),
    ensures
        at_path(merged(base, overlay), path) == at_path(overlay, path),
    decreases path.len(),
{
    if path.len() > 0 {
        if let JsonValue::Object(o) = overlay {
            if let JsonValue::Object(b) = base {
                let key = path[0];
                let rest = path.drop_first();
                lemma_sorted_unique(o);
                law_merge_key_by_key(b, o, key);
                lemma_lookup_well_formed(o, key);
                let oc = lookup(o, key).unwrap();
                match lookup(b, key) {
                    Some(bc) => {
                        law_overlay_leaves_win(bc, oc, rest);
                    },
                    None => {},
                }
            }
        }
    }
}

/// Where the overlay says nothing, the merge keeps what the base holds.
pub proof fn law_untouched_base_kept(base: JsonValue, overlay: JsonValue, path: Seq<Seq<char>>)
    requires
        well_formed(overlay),
        overlay_silent_on(overlay, path),
    ensures
        at_path(merged(base, overlay), path) == at_path(base, path),
    decreases path.len(),
{
    if path.len() > 0 {
        assert(path.take(0) =~= Seq::<Seq<char>>::empty());
        assert(at_path(overlay, path.take(0)) == Some(overlay));
        if let JsonValue::Object(o) = overlay {
            if let JsonValue::Object(b) = base {
                let key = path[0];
                let rest = path.drop_first();
                lemma_sorted_unique(o);
                law_merge_key_by_key(b, o, key);
                lemma_lookup_well_formed(o, key);
                match lookup(o, key) {
                    Some(oc) => {
                        assert forall|k: int| 0 <= k < rest.len() implies match #[trigger] at_path(
                            oc,
                            rest.take(k),
                        ) {
                            Some(v) => v is Object,
                            None => true,
                        } by {
                            assert(path.take(k + 1)[0] == key);
                            assert(path.take(k + 1).drop_first() =~= rest.take(k));
                            assert(at_path(overlay, path.take(k + 1)) == at_path(oc, rest.take(k)));
                        }
                        match lookup(b, key) {
                            Some(bc) => {
                                law_untouched_base_kept(bc, oc, rest);
                            },
                            None => {},
                        }
                    },
                    None => {},
                }
            }
        }
    }
}

/// Merging a well-formed value into itself gives it back.
pub proof fn law_merge_with_itself(v: JsonValue)
    requires
        well_formed(v),
    ensures
        merged(v, v) == v,
    decreases v, 0int,
{
    if let JsonValue::Object(f) = v {
        lemma_merged_fields_self(f, f.len() as int);
        assert(f.take(f.len() as int) =~= f);
    }
}

proof fn lemma_merged_fields_self(f: Seq<(Seq<char>, JsonValue)>, i: int)
    requires
        well_formed(JsonValue::Object(f)),
        0 <= i <= f.len(),
    ensures
        merged_fields(f, f.take(i)) == f,
    decreases f, i,
{
    if i > 0 {
        lemma_merged_fields_self(f, i - 1);
        assert(f.take(i).drop_last() =~= f.take(i - 1));
        assert(f.take(i).last() == f[i - 1]);
        lemma_sorted_unique(f);
        lemma_key_index_first(f, f[i - 1].0, i - 1);
        assert(well_formed(f[i - 1].1));
        assert(decreases_to!(f => f[i - 1].1));
        law_merge_with_itself(f[i - 1].1);
        assert(f.update(i - 1, (f[i - 1].0, merged(f[i - 1].1, f[i - 1].1))) =~= f);
    } else {
        assert(f.take(0) =~= Seq::<(Seq<char>, JsonValue)>::empty());
    }
}

/// Merging the same overlay twice changes nothing more than merging it once.
pub proof fn law_merge_idempotent(base: JsonValue, overlay: JsonValue)
    requires
        well_formed(overlay),
    ensures
        merged(merged(base, overlay), overlay) == merged(base, overlay),
    decreases overlay, 0int,
{
    match overlay {
        JsonValue::Object(o) => match base {
            JsonValue::Object(b) => {
                lemma_merged_fields_idempotent(b, o, o.len() as int);
                assert(o.take(o.len() as int) =~= o);
            },
            _ => {
                law_merge_with_itself(overlay);
            },
        },
        _ => {},
    }
}

proof fn lemma_merged_fields_idempotent(
    b: Seq<(Seq<char>, JsonValue)>,
    o: Seq<(Seq<char>, JsonValue)>,
    i: int,
)
    requires
        well_formed(JsonValue::Object(o)),
        0 <= i <= o.len(),
    ensures
        merged_fields(merged_fields(b, o), o.take(i)) == merged_fields(b, o),
    decreases o, i,
{
    let m = merged_fields(b, o);
    if i > 0 {
        lemma_merged_fields_idempotent(b, o, i - 1);
        assert(o.take(i).drop_last() =~= o.take(i - 1));
        assert(o.take(i).last() == o[i - 1]);
        let key = o[i - 1].0;
        let ov = o[i - 1].1;
        lemma_sorted_unique(o);
        lemma_key_index_first(o, key, i - 1);
        law_merge_key_by_key(b, o, key);
        lemma_key_index(m, key);
        let j = key_index(m, key).unwrap();
        assert(well_formed(ov));
        assert(decreases_to!(o => ov));
        match lookup(b, key) {
            Some(bv) => {
                law_merge_idempotent(bv, ov);
            },
            None => {
                law_merge_with_itself(ov);
            },
        }
        assert(m.update(j, (m[j].0, merged(m[j].1, ov))) =~= m);
    } else {
        assert(o.take(0) =~= Seq::<(Seq<char>, JsonValue)>::empty());
    }
}

/// Two objects in key order with the same value for every key are equal.
pub proof fn lemma_sorted_extensional(
    s1: Seq<(Seq<char>, JsonValue)>,
    s2: Seq<(Seq<char>, JsonValue)>,
)
    requires
        sorted_keys(s1),
        sorted_keys(s2),
        forall|k: Seq<char>| lookup(s1, k) == lookup(s2, k),
    ensures
        s1 == s2,
    decreases s1.len(),
{
    lemma_sorted_unique(s1);
    lemma_sorted_unique(s2);
    if s1.len() == 0 {
        if s2.len() > 0 {
            lemma_key_index_first(s2, s2[0].0, 0);
            lemma_key_index_none(s1, s2[0].0);
            assert(lookup(s1, s2[0].0) == lookup(s2, s2[0].0));
        }
        assert(s1 =~= s2);
    } else {
        let k1 = s1[0].0;
        lemma_key_index_first(s1, k1, 0);
        assert(lookup(s1, k1) == lookup(s2, k1));
        lemma_key_index(s2, k1);
        let j = key_index(s2, k1).unwrap();
        if j > 0 {
            let k2 = s2[0].0;
            assert(key_less(k2, k1));
            lemma_key_index_first(s2, k2, 0);
            assert(lookup(s1, k2) == lookup(s2, k2));
            lemma_key_index(s1, k2);
            let i = key_index(s1, k2).unwrap();
            if i > 0 {
                assert(key_less(k1, k2));
                lemma_key_less_asymmetric(k1, k2);
            } else {
                lemma_key_less_irreflexive(k1);
            }
        }
        assert(s1[0] == s2[0]);
        let t1 = s1.drop_first();
        let t2 = s2.drop_first();
        assert forall|k: Seq<char>| lookup(t1, k) == lookup(t2, k) by {
            if k == k1 {
                assert forall|x: int| 0 <= x < t1.len() implies t1[x].0 != k by {
                    assert(key_less(s1[0].0, s1[x + 1].0));
                    lemma_key_less_irreflexive(k);
                }
                assert forall|x: int| 0 <= x < t2.len() implies t2[x].0 != k by {
                    assert(key_less(s2[0].0, s2[x + 1].0));
                    lemma_key_less_irreflexive(k);
                }
                lemma_key_index_none(t1, k);
                lemma_key_index_none(t2, k);
            } else {
                assert(lookup(s1, k) == lookup(s2, k));
                lemma_key_index(t1, k);
                lemma_key_index(t2, k);
                match key_index(t1, k) {
                    Some(x) => {
                        assert(s1[x + 1] == t1[x]);
                    },
                    None => {},
                }
                match key_index(t2, k) {
                    Some(x) => {
                        assert(s2[x + 1] == t2[x]);
                    },
                    None => {},
                }
            }
        }
        lemma_sorted_extensional(t1, t2);
        assert(s1 =~= seq![s1[0]] + t1);
        assert(s2 =~= seq![s2[0]] + t2);
    }
}

/// Two overlays with no key in common can be merged in either order: the
/// result is the same, as it is for maps, whose members have no order.
pub proof fn law_disjoint_overlays_commute(
    base: JsonValue,
    o1: Seq<(Seq<char>, JsonValue)>,
    o2: Seq<(Seq<char>, JsonValue)>,
)
    requires
        well_formed(base),
        well_formed(JsonValue::Object(o1)),
        well_formed(JsonValue::Object(o2)),
        forall|k: Seq<char>| !(lookup(o1, k) is Some && lookup(o2, k) is Some),
    ensures
        merged(merged(base, JsonValue::Object(o1)), JsonValue::Object(o2)) == merged(
            merged(base, JsonValue::Object(o2)),
            JsonValue::Object(o1),
        ),
{
    let v1 = JsonValue::Object(o1);
    let v2 = JsonValue::Object(o2);
    lemma_sorted_unique(o1);
    lemma_sorted_unique(o2);
    law_merge_keeps_well_formed(base, v1);
    law_merge_keeps_well_formed(base, v2);
    law_merge_keeps_well_formed(merged(base, v1), v2);
    law_merge_keeps_well_formed(merged(base, v2), v1);
    let m1 = merged(base, v1)->Object_0;
    let m2 = merged(base, v2)->Object_0;
    let m12 = merged_fields(m1, o2);
    let m21 = merged_fields(m2, o1);
    assert forall|k: Seq<char>| lookup(m12, k) == lookup(m21, k) by {
        law_merge_key_by_key(m1, o2, k);
        law_merge_key_by_key(m2, o1, k);
        if let JsonValue::Object(b) = base {
            law_merge_key_by_key(b, o1, k);
            law_merge_key_by_key(b, o2, k);
        }
    }
    lemma_sorted_extensional(m12, m21);
}

} // verus!
