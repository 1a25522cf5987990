use vstd::prelude::*;

use crate::aas_interfaces::submodel_key_text;
use crate::operation::{id_filter, set_update};
use crate::merge::{
    absent, lemma_absent, lemma_absent_all, lemma_absent_none, lemma_merge_lookup, lemma_merge_self,
    lemma_present_in, merge_entries, merge_value,
};
use crate::value::{
    entries_wf, has_key, inserted, key_pos, keys_unique, lemma_inserted, lemma_key_pos_unique, lookup,
    present_in, view_wf, Entries, ValueView,
};

verus! {

/// The submodels collection: each stored document under its `_id`, without
/// the `_id` member itself (which no update touches).
pub type Store = Map<Seq<char>, Entries>;

/// Keys are unique in every stored document.
pub open spec fn store_wf(store: Store) -> bool {
    forall|k: Seq<char>| store.contains_key(k) ==> entries_wf(#[trigger] store[k])
}

/// `stored` after MongoDB's `$set` of `fields`: each field replaces the member
/// of that name where it stands, or is added after the others.
pub open spec fn set_fields(stored: Entries, fields: Entries) -> Entries
    decreases fields.len(),
{
    if fields.len() == 0 {
        stored
    } else {
        inserted(set_fields(stored, fields.drop_last()), fields.last().0, fields.last().1)
    }
}

/// What `patch_submodel_database` does to the store when the store answers
/// each call: the stored submodel, patched with the body (`merge_entries`), is
/// `$set` on itself, and the call succeeds; a missing submodel or a body that
/// is not a document leaves the store as it is and the call fails.
pub open spec fn database_patch(
    store: Store,
    aas_id_short: Seq<char>,
    submodel: Seq<char>,
    body: Result<ValueView, Seq<char>>,
) -> (Store, bool) {
    let key = submodel_key_text(aas_id_short, submodel);
    match body {
        Ok(ValueView::Doc(fields)) => if store.contains_key(key) {
            (store.insert(key, set_fields(store[key], merge_entries(store[key], fields))), true)
        } else {
            (store, false)
        },
        _ => (store, false),
    }
}

/// Without its last entry, a document with unique keys still has every other
/// key, with the same value.
proof fn lemma_lookup_drop_last(f: Entries, x: Seq<char>)
    requires
        keys_unique(f),
        f.len() > 0,
    ensures
        lookup(f, f.last().0) == Some(f.last().1),
        x != f.last().0 ==> has_key(f, x) == has_key(f.drop_last(), x),
        x != f.last().0 ==> lookup(f, x) == lookup(f.drop_last(), x),
{
    let d = f.drop_last();
    lemma_key_pos_unique(f, f.len() - 1);
    if x != f.last().0 {
        if has_key(f, x) {
            let i = key_pos(f, x);
            lemma_key_pos_unique(f, i);
            assert(i < f.len() - 1);
            assert(d[i] == f[i]);
            assert forall|a: int, b: int| 0 <= a < b < d.len() implies #[trigger] d[a].0 != #[trigger] d[b].0 by {
                assert(f[a].0 != f[b].0);
            }
            lemma_key_pos_unique(d, i);
        }
        if has_key(d, x) {
            let i = choose|i: int| 0 <= i < d.len() && #[trigger] d[i].0 == x;
            assert(f[i].0 == x);
        }
    }
}

/// `$set` of fields that the document already has changes each of those
/// members where it stands and nothing else.
pub proof fn lemma_set_fields_in_place(s: Entries, f: Entries)
    requires
        keys_unique(s),
        keys_unique(f),
        forall|k: Seq<char>| #[trigger] has_key(f, k) ==> has_key(s, k),
    ensures
        set_fields(s, f).len() == s.len(),
        keys_unique(set_fields(s, f)),
        forall|i: int|
            0 <= i < s.len() ==> #[trigger] set_fields(s, f)[i] == (
                s[i].0,
                if has_key(f, s[i].0) {
                    lookup(f, s[i].0).unwrap()
                } else {
                    s[i].1
                },
            ),
    decreases f.len(),
{
    if f.len() > 0 {
        let d = f.drop_last();
        let k = f.last().0;
        let v = f.last().1;
        assert forall|a: int, b: int| 0 <= a < b < d.len() implies #[trigger] d[a].0 != #[trigger] d[b].0 by {
            assert(f[a].0 != f[b].0);
        }
        assert forall|x: Seq<char>| #[trigger] has_key(d, x) implies has_key(s, x) by {
            let i = choose|i: int| 0 <= i < d.len() && #[trigger] d[i].0 == x;
            assert(f[i].0 == x);
            assert(has_key(f, x));
        }
        lemma_set_fields_in_place(s, d);
        let r0 = set_fields(s, d);
        let r = set_fields(s, f);
        assert(has_key(f, k)) by {
            assert(f[f.len() - 1].0 == k);
        }
        assert(has_key(s, k));
        let j = choose|j: int| 0 <= j < s.len() && #[trigger] s[j].0 == k;
        assert(r0[j].0 == k);
        assert(has_key(r0, k));
        let p = key_pos(r0, k);
        lemma_key_pos_unique(r0, j);
        assert(p == j);
        assert(r == r0.update(j, (k, v)));
        lemma_inserted(r0, k, v);
        lemma_lookup_drop_last(f, k);
        assert forall|i: int| 0 <= i < s.len() implies #[trigger] r[i] == (
            s[i].0,
            if has_key(f, s[i].0) {
                lookup(f, s[i].0).unwrap()
            } else {
                s[i].1
            },
        ) by {
            lemma_lookup_drop_last(f, s[i].0);
            if i != j {
                assert(r0[i].0 != r0[j].0);
            }
        }
    }
}

/// `present_in` looks only at which keys the other document has.
proof fn lemma_present_in_same_keys(f: Entries, a: Entries, b: Entries)
    requires
        forall|k: Seq<char>| #[trigger] has_key(a, k) == has_key(b, k),
    ensures
        present_in(f, a) == present_in(f, b),
    decreases f.len(),
{
    if f.len() > 0 {
        lemma_present_in_same_keys(f.drop_last(), a, b);
        assert(has_key(a, f.last().0) == has_key(b, f.last().0));
    }
}

/// `absent` keeps the entries whose keys the patch lacks, so documents that
/// differ only in the values of the patch's keys give the same.
proof fn lemma_absent_same_outside(x: Entries, y: Entries, f: Entries)
    requires
        x.len() == y.len(),
        forall|i: int|
            0 <= i < x.len() ==> #[trigger] x[i].0 == y[i].0 && (!has_key(f, x[i].0) ==> x[i].1 == y[i].1),
    ensures
        absent(x, f) == absent(y, f),
    decreases x.len(),
{
    if x.len() > 0 {
        let l = x.len() - 1;
        assert forall|i: int| 0 <= i < x.drop_last().len() implies #[trigger] x.drop_last()[i].0
            == y.drop_last()[i].0 && (!has_key(f, x.drop_last()[i].0) ==> x.drop_last()[i].1
            == y.drop_last()[i].1) by {
            assert(x[i].0 == y[i].0);
        }
        lemma_absent_same_outside(x.drop_last(), y.drop_last(), f);
        assert(x[l].0 == y[l].0);
    }
}

proof fn lemma_absent_concat(x: Entries, y: Entries, f: Entries)
    ensures
        absent(x + y, f) == absent(x, f) + absent(y, f),
    decreases y.len(),
{
    if y.len() == 0 {
        assert(x + y =~= x);
        assert(absent(x, f) + absent(y, f) =~= absent(x, f));
    } else {
        assert((x + y).drop_last() =~= x + y.drop_last());
        assert((x + y).last() == y.last());
        lemma_absent_concat(x, y.drop_last(), f);
        if !has_key(f, y.last().0) {
            assert((absent(x, f) + absent(y.drop_last(), f)).push(y.last()) =~= absent(x, f) + absent(
                y.drop_last(),
                f,
            ).push(y.last()));
        }
    }
}

/// Patching a patched document again with the same patch changes nothing.
pub proof fn lemma_merge_repatch(d: Entries, f: Entries)
    requires
        entries_wf(d),
        entries_wf(f),
    ensures
        merge_entries(merge_entries(d, f), f) == merge_entries(d, f),
    decreases d,
{
    let m = merge_entries(d, f);
    lemma_merge_lookup(d, f);
    lemma_present_in(f, d);
    lemma_absent(d, f);
    let p = present_in(f, d);
    let a = absent(d, f);
    let plen = p.len();
    let pre = Seq::new(
        plen,
        |q: int|
            if 0 <= q < plen {
                (p[q].0, merge_value(d, p[q].0, p[q].1))
            } else {
                (Seq::empty(), ValueView::Null)
            },
    );
    assert(m == pre + a);
    lemma_present_in_same_keys(f, m, d);
    lemma_absent_concat(pre, a, f);
    assert forall|q: int| 0 <= q < pre.len() implies has_key(f, #[trigger] pre[q].0) by {
        assert(f.contains(p[q]));
        let r = choose|r: int| 0 <= r < f.len() && f[r] == p[q];
        assert(f[r].0 == pre[q].0);
    }
    lemma_absent_none(pre, f);
    lemma_absent_all(a, f);
    assert(absent(m, f) =~= a);
    let mm = merge_entries(m, f);
    assert forall|q: int| 0 <= q < mm.len() implies #[trigger] mm[q] == m[q] by {
        if q < plen {
            let k = p[q].0;
            let v = p[q].1;
            assert(f.contains(p[q]));
            let r = choose|r: int| 0 <= r < f.len() && f[r] == p[q];
            lemma_key_pos_unique(f, r);
            assert(view_wf(f[r].1));
            assert(lookup(f, k) == Some(v));
            assert(has_key(d, k));
            let i = key_pos(d, k);
            lemma_key_pos_unique(d, i);
            assert(view_wf(d[i].1));
            assert(lookup(m, k) == Some(merge_value(d, k, v)));
            let mi = key_pos(m, k);
            assert(has_key(m, k));
            lemma_key_pos_unique(m, mi);
            match d[i].1 {
                ValueView::Doc(od) => match v {
                    ValueView::Doc(nd) => {
                        assert(decreases_to!(d => d[i]));
                        assert(decreases_to!(d[i] => d[i].1));
                        lemma_merge_repatch(od, nd);
                    },
                    _ => {},
                },
                _ => match v {
                    ValueView::Doc(nd) => {
                        lemma_merge_self(nd);
                    },
                    _ => {},
                },
            }
        }
    }
    assert(mm =~= m);
}

/// After a patch the stored submodel reads, key by key, as the merge of the
/// patch into it.
pub proof fn lemma_patched_lookup(d: Entries, f: Entries)
    requires
        entries_wf(d),
        entries_wf(f),
    ensures
        entries_wf(set_fields(d, merge_entries(d, f))),
        forall|k: Seq<char>| #[trigger] lookup(set_fields(d, merge_entries(d, f)), k) == lookup(merge_entries(d, f), k),
{
    let m = merge_entries(d, f);
    lemma_merge_lookup(d, f);
    lemma_set_fields_in_place(d, m);
    let x = set_fields(d, m);
    assert forall|i: int| 0 <= i < d.len() implies #[trigger] x[i] == (d[i].0, lookup(m, d[i].0).unwrap()) by {
        assert(has_key(d, d[i].0));
    }
    assert forall|k: Seq<char>| #[trigger] lookup(x, k) == lookup(m, k) by {
        if has_key(d, k) {
            let i = key_pos(d, k);
            lemma_key_pos_unique(d, i);
            lemma_key_pos_unique(x, i);
        }
        if has_key(x, k) {
            let i = choose|i: int| 0 <= i < x.len() && #[trigger] x[i].0 == k;
            assert(d[i].0 == k);
        }
    }
    assert forall|i: int| 0 <= i < x.len() implies view_wf(#[trigger] x[i].1) by {
        let k = d[i].0;
        assert(has_key(m, k));
        let j = key_pos(m, k);
        lemma_key_pos_unique(m, j);
        assert(view_wf(m[j].1));
    }
}

/// A patch of a stored submodel (`patch_submodel_database`, with the store
/// answering each call) succeeds exactly when the submodel is stored and the
/// body is a document. Then it keeps the submodel's keys, in their order,
/// and touches no other document; patching again with the same body leaves
/// the store as it is. A failed patch changes nothing.
#[verifier::spinoff_prover]
pub proof fn lemma_database_patch(
    store: Store,
    aas_id_short: Seq<char>,
    submodel: Seq<char>,
    body: Result<ValueView, Seq<char>>,
)
    requires
        store_wf(store),
        body matches Ok(v) ==> view_wf(v),
    ensures
        ({
            let key = submodel_key_text(aas_id_short, submodel);
            let (after, ok) = database_patch(store, aas_id_short, submodel, body);
            &&& ok <==> (store.contains_key(key) && body matches Ok(ValueView::Doc(_)))
            &&& !ok ==> after == store
            &&& ok ==> after.dom() == store.dom()
            &&& ok ==> forall|other: Seq<char>|
                other != key && store.contains_key(other) ==> #[trigger] after[other] == store[other]
            &&& ok ==> after[key].len() == store[key].len()
            &&& ok ==> forall|i: int| 0 <= i < store[key].len() ==> #[trigger] after[key][i].0 == store[key][i].0
            &&& store_wf(after)
            &&& database_patch(after, aas_id_short, submodel, body) == (after, ok)
        }),
{
    let key = submodel_key_text(aas_id_short, submodel);
    let (after, ok) = database_patch(store, aas_id_short, submodel, body);
    if ok {
        let f = body->Ok_0->Doc_0;
        let d = store[key];
        assert(entries_wf(d));
        assert(entries_wf(f));
        let m = merge_entries(d, f);
        lemma_merge_lookup(d, f);
        lemma_set_fields_in_place(d, m);
        let x = set_fields(d, m);
        assert(after == store.insert(key, x));
        assert(after.dom() =~= store.dom());
        // Each member of the patched submodel holds its merged value.
        assert forall|i: int| 0 <= i < d.len() implies #[trigger] x[i] == (d[i].0, lookup(m, d[i].0).unwrap()) by {
            assert(has_key(d, d[i].0));
        }
        assert forall|k: Seq<char>| #[trigger] has_key(x, k) == has_key(d, k) by {
            if has_key(x, k) {
                let i = choose|i: int| 0 <= i < x.len() && #[trigger] x[i].0 == k;
                assert(d[i].0 == k);
            }
            if has_key(d, k) {
                let i = choose|i: int| 0 <= i < d.len() && #[trigger] d[i].0 == k;
                assert(x[i].0 == k);
            }
        }
        assert forall|k: Seq<char>| #[trigger] lookup(x, k) == lookup(m, k) by {
            if has_key(d, k) {
                let i = key_pos(d, k);
                lemma_key_pos_unique(d, i);
                lemma_key_pos_unique(x, i);
            }
        }
        assert(entries_wf(x)) by {
            assert forall|i: int| 0 <= i < x.len() implies view_wf(#[trigger] x[i].1) by {
                let k = d[i].0;
                assert(has_key(m, k));
                let j = key_pos(m, k);
                lemma_key_pos_unique(m, j);
                assert(view_wf(m[j].1));
            }
        }
        assert(store_wf(after)) by {
            assert forall|k: Seq<char>| after.contains_key(k) implies entries_wf(#[trigger] after[k]) by {
                if k != key {
                    assert(after[k] == store[k]);
                }
            }
        }
        // Patching again: the merge of the patched submodel is the same merge.
        lemma_merge_repatch(d, f);
        let p = present_in(f, d);
        lemma_present_in_same_keys(f, x, d);
        lemma_present_in_same_keys(f, m, d);
        assert forall|i: int| 0 <= i < x.len() implies #[trigger] x[i].0 == d[i].0 && (!has_key(f, x[i].0)
            ==> x[i].1 == d[i].1) by {
            lemma_key_pos_unique(d, i);
        }
        lemma_absent_same_outside(x, d, f);
        lemma_absent(d, f);
        let pre = Seq::new(
            p.len(),
            |q: int|
                if 0 <= q < p.len() {
                    (p[q].0, merge_value(d, p[q].0, p[q].1))
                } else {
                    (Seq::empty(), ValueView::Null)
                },
        );
        assert(m == pre + absent(d, f));
        lemma_absent_concat(pre, absent(d, f), f);
        assert forall|q: int| 0 <= q < pre.len() implies has_key(f, #[trigger] pre[q].0) by {
            lemma_present_in(f, d);
            assert(f.contains(p[q]));
            let r = choose|r: int| 0 <= r < f.len() && f[r] == p[q];
            assert(f[r].0 == pre[q].0);
        }
        lemma_absent_none(pre, f);
        lemma_absent_all(absent(d, f), f);
        assert(absent(m, f) =~= absent(d, f));
        let mx = merge_entries(x, f);
        let mm = merge_entries(m, f);
        let plen = p.len();
        assert(mx.len() == mm.len());
        assert forall|q: int| 0 <= q < mx.len() implies #[trigger] mx[q] == mm[q] by {
            if q < plen {
                let k = p[q].0;
                assert(has_key(x, k) == has_key(m, k));
                assert(lookup(x, k) == lookup(m, k));
                if has_key(m, k) {
                    lemma_key_pos_unique(m, key_pos(m, k));
                    lemma_key_pos_unique(x, key_pos(x, k));
                }
                assert(merge_value(x, k, p[q].1) == merge_value(m, k, p[q].1));
            } else {
                assert(mx[q] == absent(x, f)[q - plen]);
                assert(mm[q] == absent(m, f)[q - plen]);
            }
        }
        assert(mx =~= mm);
        assert(mx == m);
        lemma_set_fields_in_place(x, m);
        assert forall|i: int| 0 <= i < x.len() implies #[trigger] set_fields(x, m)[i] == x[i] by {
            assert(has_key(m, x[i].0));
        }
        assert(set_fields(x, m) =~= x);
        assert(after.insert(key, x) =~= after);
    }
}

/// What the store does with `{ "$set": fields }` on the document `id`: the
/// fields are set on the stored document; when none is stored, an upsert
/// inserts the document `id` with the fields set on it (in their order), and
/// otherwise nothing changes.
pub open spec fn set_update_on(store: Store, id: Seq<char>, fields: Entries, upsert: bool) -> Store {
    if store.contains_key(id) {
        store.insert(id, set_fields(store[id], fields))
    } else if upsert {
        store.insert(id, set_fields(Seq::empty(), fields))
    } else {
        store
    }
}

/// An update command (`UpdateCommand`) as the store applies it, for a filter
/// `{ "_id": id }` on a string id and an update `{ "$set": fields }`; `None`
/// for a command of any other shape.
pub open spec fn apply_update(store: Store, filter: Entries, update: Entries, upsert: bool) -> Option<Store> {
    if filter.len() == 1 && filter[0].0 == "_id"@ && filter[0].1 is Str && update.len() == 1
        && update[0].0 == "$set"@ && update[0].1 is Doc {
        Some(set_update_on(store, filter[0].1->Str_0, update[0].1->Doc_0, upsert))
    } else {
        None
    }
}

/// `$set` reads back, key by key: a field set has its new value, any other
/// member its old one; keys stay unique.
pub proof fn lemma_set_fields_lookup(s: Entries, f: Entries)
    requires
        keys_unique(s),
        keys_unique(f),
    ensures
        keys_unique(set_fields(s, f)),
        forall|k: Seq<char>| #[trigger] lookup(set_fields(s, f), k) == if has_key(f, k) {
            lookup(f, k)
        } else {
            lookup(s, k)
        },
    decreases f.len(),
{
    if f.len() > 0 {
        let d = f.drop_last();
        assert forall|a: int, b: int| 0 <= a < b < d.len() implies #[trigger] d[a].0 != #[trigger] d[b].0 by {
            assert(f[a].0 != f[b].0);
        }
        lemma_set_fields_lookup(s, d);
        let r0 = set_fields(s, d);
        lemma_inserted(r0, f.last().0, f.last().1);
        assert forall|k: Seq<char>| #[trigger] lookup(set_fields(s, f), k) == if has_key(f, k) {
            lookup(f, k)
        } else {
            lookup(s, k)
        } by {
            lemma_lookup_drop_last(f, k);
            if k == f.last().0 {
                assert(has_key(f, k)) by {
                    assert(f[f.len() - 1].0 == k);
                }
            }
        }
    }
}

/// Setting fields with unique keys on an empty document gives the fields, in
/// their order.
proof fn lemma_set_fields_on_empty(f: Entries)
    requires
        keys_unique(f),
    ensures
        set_fields(Seq::empty(), f) == f,
    decreases f.len(),
{
    if f.len() > 0 {
        let d = f.drop_last();
        assert forall|a: int, b: int| 0 <= a < b < d.len() implies #[trigger] d[a].0 != #[trigger] d[b].0 by {
            assert(f[a].0 != f[b].0);
        }
        lemma_set_fields_on_empty(d);
        assert(!has_key(d, f.last().0)) by {
            if has_key(d, f.last().0) {
                let i = choose|i: int| 0 <= i < d.len() && #[trigger] d[i].0 == f.last().0;
                assert(f[i].0 != f[f.len() - 1].0);
            }
        }
        assert(d.push(f.last()) =~= f);
    }
}

/// What `aas_update_one` with upsert and then `aas_find_one` give (the
/// store answering each call, and `aas_find_one` reading the document
/// without its `_id`): a document that was not stored reads back as exactly
/// the fields set, in their order; a stored one reads back with each field
/// set holding its new value and every other member its old one. No other
/// document changes.
pub proof fn lemma_upsert_round_trip(store: Store, id: Seq<char>, fields: Entries)
    requires
        keys_unique(fields),
        !has_key(fields, "_id"@),
        store.contains_key(id) ==> keys_unique(store[id]),
    ensures
        apply_update(store, id_filter(ValueView::Str(id)), set_update(fields), true) is Some,
        ({
            let after = apply_update(store, id_filter(ValueView::Str(id)), set_update(fields), true).unwrap();
            &&& after.contains_key(id)
            &&& !store.contains_key(id) ==> after[id] == fields
            &&& store.contains_key(id) ==> forall|k: Seq<char>| #[trigger] lookup(after[id], k) == if has_key(
                fields,
                k,
            ) {
                lookup(fields, k)
            } else {
                lookup(store[id], k)
            }
            &&& forall|other: Seq<char>|
                other != id && store.contains_key(other) ==> #[trigger] after[other] == store[other]
        }),
{
    if store.contains_key(id) {
        lemma_set_fields_lookup(store[id], fields);
    } else {
        lemma_set_fields_on_empty(fields);
    }
}

} // verus!
