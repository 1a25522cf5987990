use vstd::prelude::*;

use crate::value::{
    entries_wf, has_key, inserted, key_pos, keys_unique, lemma_key_pos_unique, lookup, present_in,
    view_wf, Document, Entries, Value, ValueView,
};

verus! {

/// The entries of `old` whose keys `new` lacks, in the order of `old`.
pub open spec fn absent(old: Entries, new: Entries) -> Entries
    decreases old.len(),
{
    if old.len() == 0 {
        Seq::empty()
    } else {
        let rest = absent(old.drop_last(), new);
        if has_key(new, old.last().0) {
            rest
        } else {
            rest.push(old.last())
        }
    }
}

/// A stored document patched with `new`: the patch's entries whose keys the
/// stored document has, in the patch's order and each with its value merged,
/// followed by the stored entries whose keys the patch lacks, in stored order.
/// Keys that only the patch has are dropped.
pub open spec fn merge_entries(old: Entries, new: Entries) -> Entries
    decreases old, 1nat,
{
    let p = present_in(new, old);
    Seq::new(
        p.len(),
        |q: int|
            if 0 <= q < p.len() {
                (p[q].0, merge_value(old, p[q].0, p[q].1))
            } else {
                (Seq::empty(), ValueView::Null)
            },
    ) + absent(old, new)
}

/// The value that key `k` gets when the patch gives it `nv`: where the stored
/// value and `nv` are both documents they merge, otherwise `nv` wins.
pub open spec fn merge_value(old: Entries, k: Seq<char>, nv: ValueView) -> ValueView
    decreases old, 0nat,
{
    if has_key(old, k) {
        let i = key_pos(old, k);
        match old[i].1 {
            ValueView::Doc(od) => match nv {
                ValueView::Doc(nd) => {
                    proof {
                        assert(decreases_to!(old => old[i]));
                        assert(decreases_to!(old[i] => old[i].1));
                    }
                    ValueView::Doc(merge_entries(od, nd))
                },
                _ => nv,
            },
            _ => nv,
        }
    } else {
        nv
    }
}

/// `present_in(es, other)` is a sub-sequence of `es` holding exactly the
/// entries whose keys `other` has.
pub proof fn lemma_present_in(es: Entries, other: Entries)
    requires
        keys_unique(es),
    ensures
        keys_unique(present_in(es, other)),
        forall|q: int|
            0 <= q < present_in(es, other).len() ==> es.contains(#[trigger] present_in(es, other)[q])
                && has_key(other, present_in(es, other)[q].0),
        forall|r: int|
            0 <= r < es.len() && has_key(other, #[trigger] es[r].0) ==> has_key(
                present_in(es, other),
                es[r].0,
            ),
    decreases es.len(),
{
    let p = present_in(es, other);
    if es.len() > 0 {
        let d = es.drop_last();
        let l = es.len() - 1;
        assert forall|a: int, b: int| 0 <= a < b < d.len() implies #[trigger] d[a].0 != #[trigger] d[b].0 by {
            assert(es[a].0 != es[b].0);
        }
        lemma_present_in(d, other);
        let pd = present_in(d, other);
        assert forall|q: int| 0 <= q < p.len() implies es.contains(#[trigger] p[q]) && has_key(other, p[q].0) by {
            if q < pd.len() {
                assert(p[q] == pd[q]);
                assert(d.contains(pd[q]));
                let r = choose|r: int| 0 <= r < d.len() && d[r] == pd[q];
                assert(es[r] == d[r]);
            } else {
                assert(q == pd.len());
                assert(has_key(other, es.last().0));
                assert(p == pd.push(es.last()));
                assert(p[q] == es[l]);
                assert(es[l] == p[q] && has_key(other, es[l].0));
                assert(es.contains(p[q]));
            }
        }
        assert forall|r: int| 0 <= r < es.len() && has_key(other, #[trigger] es[r].0) implies has_key(p, es[r].0) by {
            if r < l {
                assert(d[r] == es[r]);
                assert(has_key(pd, d[r].0));
                let q = choose|q: int| 0 <= q < pd.len() && #[trigger] pd[q].0 == d[r].0;
                assert(p[q] == pd[q]);
            } else {
                assert(p[pd.len() as int] == es[l]);
            }
        }
        if has_key(other, es[l].0) {
            assert forall|a: int, b: int| 0 <= a < b < p.len() implies #[trigger] p[a].0 != #[trigger] p[b].0 by {
                if b < pd.len() {
                    assert(p[a] == pd[a] && p[b] == pd[b]);
                } else {
                    assert(p[a] == pd[a]);
                    assert(d.contains(pd[a]));
                    let r = choose|r: int| 0 <= r < d.len() && d[r] == pd[a];
                    assert(es[r] == d[r]);
                    assert(es[r].0 != es[l].0);
                }
            }
        }
    }
}

/// Entries of a well-formed document that `present_in` keeps are well formed.
pub proof fn lemma_present_in_wf(es: Entries, other: Entries)
    requires
        entries_wf(es),
    ensures
        entries_wf(present_in(es, other)),
{
    lemma_present_in(es, other);
    let p = present_in(es, other);
    assert forall|q: int| 0 <= q < p.len() implies view_wf(#[trigger] p[q].1) by {
        assert(es.contains(p[q]));
        let r = choose|r: int| 0 <= r < es.len() && es[r] == p[q];
        assert(view_wf(es[r].1));
    }
}

/// `absent(old, new)` is a sub-sequence of `old` holding exactly the entries
/// whose keys `new` lacks.
pub proof fn lemma_absent(old: Entries, new: Entries)
    requires
        keys_unique(old),
    ensures
        keys_unique(absent(old, new)),
        forall|q: int|
            0 <= q < absent(old, new).len() ==> old.contains(#[trigger] absent(old, new)[q])
                && !has_key(new, absent(old, new)[q].0),
        forall|r: int|
            0 <= r < old.len() && !has_key(new, #[trigger] old[r].0) ==> has_key(
                absent(old, new),
                old[r].0,
            ),
    decreases old.len(),
{
    let a = absent(old, new);
    if old.len() > 0 {
        let d = old.drop_last();
        let l = old.len() - 1;
        assert forall|x: int, y: int| 0 <= x < y < d.len() implies #[trigger] d[x].0 != #[trigger] d[y].0 by {
            assert(old[x].0 != old[y].0);
        }
        lemma_absent(d, new);
        let ad = absent(d, new);
        assert forall|q: int| 0 <= q < a.len() implies old.contains(#[trigger] a[q]) && !has_key(new, a[q].0) by {
            if q < ad.len() {
                assert(a[q] == ad[q]);
                assert(d.contains(ad[q]));
                let r = choose|r: int| 0 <= r < d.len() && d[r] == ad[q];
                assert(old[r] == d[r]);
            } else {
                assert(q == ad.len());
                assert(a == ad.push(old.last()));
                assert(a[q] == old[l]);
                assert(old.contains(a[q]));
            }
        }
        assert forall|r: int| 0 <= r < old.len() && !has_key(new, #[trigger] old[r].0) implies has_key(a, old[r].0) by {
            if r < l {
                assert(d[r] == old[r]);
                assert(has_key(ad, d[r].0));
                let q = choose|q: int| 0 <= q < ad.len() && #[trigger] ad[q].0 == d[r].0;
                assert(a[q] == ad[q]);
            } else {
                assert(a[ad.len() as int] == old[l]);
            }
        }
        if !has_key(new, old[l].0) {
            assert forall|x: int, y: int| 0 <= x < y < a.len() implies #[trigger] a[x].0 != #[trigger] a[y].0 by {
                if y < ad.len() {
                    assert(a[x] == ad[x] && a[y] == ad[y]);
                } else {
                    assert(a[x] == ad[x]);
                    assert(d.contains(ad[x]));
                    let r = choose|r: int| 0 <= r < d.len() && d[r] == ad[x];
                    assert(old[r] == d[r]);
                    assert(old[r].0 != old[l].0);
                }
            }
        }
    }
}

/// The merge after the first `j` stored entries have been visited: patch
/// entries whose keys were seen carry their merged value, and the seen stored
/// entries that the patch lacks follow.
spec fn merged_prefix(o: Entries, orig: Entries, j: int) -> Entries {
    let p = present_in(orig, o);
    let seen = o.take(j);
    Seq::new(
        p.len(),
        |q: int|
            if 0 <= q < p.len() {
                if has_key(seen, p[q].0) {
                    (p[q].0, merge_value(o, p[q].0, p[q].1))
                } else {
                    p[q]
                }
            } else {
                (Seq::empty(), ValueView::Null)
            },
    ) + absent(seen, orig)
}

proof fn lemma_unique_take(o: Entries, j: int)
    requires
        keys_unique(o),
        0 <= j <= o.len(),
    ensures
        keys_unique(o.take(j)),
        forall|k: Seq<char>| has_key(o.take(j), k) ==> has_key(o, k),
{
    let t = o.take(j);
    assert forall|a: int, b: int| 0 <= a < b < t.len() implies #[trigger] t[a].0 != #[trigger] t[b].0 by {
        assert(o[a].0 != o[b].0);
    }
    assert forall|k: Seq<char>| has_key(t, k) implies has_key(o, k) by {
        let i = choose|i: int| 0 <= i < t.len() && #[trigger] t[i].0 == k;
        assert(o[i].0 == k);
    }
}

/// Merges the stored document `old_doc` into the patch `new_doc`: keys that
/// only the patch has are dropped, keys that only the stored document has are
/// added with their stored value, and where both values are documents they are
/// merged in turn.
pub fn merge_documents(old_doc: &Document, new_doc: &mut Document)
    requires
        old_doc.wf(),
        old(new_doc).wf(),
    ensures
        final(new_doc)@ == merge_entries(old_doc@, old(new_doc)@),
        final(new_doc).wf(),
    decreases old_doc@,
{
    let ghost orig = new_doc@;
    let ghost o = old_doc@;
    new_doc.retain_keys_of(old_doc);
    let ghost p = new_doc@;
    proof {
        lemma_present_in(orig, o);
        lemma_present_in_wf(orig, o);
        assert(o.take(0) =~= Seq::<(Seq<char>, ValueView)>::empty());
        assert(new_doc@ =~= merged_prefix(o, orig, 0));
    }
    let n = old_doc.len();
    let mut j: usize = 0;
    while j < n
        invariant
            old_doc.wf(),
            o == old_doc@,
            n == o.len(),
            j <= n,
            entries_wf(orig),
            p == present_in(orig, o),
            keys_unique(p),
            forall|q: int| 0 <= q < p.len() ==> orig.contains(#[trigger] p[q]) && has_key(o, p[q].0),
            forall|r: int| 0 <= r < orig.len() && has_key(o, #[trigger] orig[r].0) ==> has_key(p, orig[r].0),
            new_doc.wf(),
            new_doc@ == merged_prefix(o, orig, j as int),
        decreases n - j,
    {
        let ghost cur = new_doc@;
        let ghost seen = o.take(j as int);
        let ghost seen1 = o.take(j as int + 1);
        let ghost a = absent(seen, orig);
        let ghost plen = p.len();
        let k = old_doc.key_at(j);
        let ov = old_doc.value_at(j);
        proof {
            lemma_key_pos_unique(o, j as int);
            lemma_unique_take(o, j as int);
            lemma_unique_take(o, j as int + 1);
            lemma_absent(seen, orig);
            assert(seen1.drop_last() =~= seen);
            assert(seen1.last() == o[j as int]);
            assert(!has_key(seen, k@)) by {
                if has_key(seen, k@) {
                    let i = choose|i: int| 0 <= i < seen.len() && #[trigger] seen[i].0 == k@;
                    assert(o[i].0 != o[j as int].0);
                }
            }
            assert(forall|kk: Seq<char>| has_key(seen1, kk) <==> (has_key(seen, kk) || kk == k@)) by {
                assert forall|kk: Seq<char>| has_key(seen1, kk) implies (has_key(seen, kk) || kk == k@) by {
                    let i = choose|i: int| 0 <= i < seen1.len() && #[trigger] seen1[i].0 == kk;
                    if i < j {
                        assert(seen[i] == seen1[i]);
                    }
                }
                assert forall|kk: Seq<char>| (has_key(seen, kk) || kk == k@) implies has_key(seen1, kk) by {
                    if has_key(seen, kk) {
                        let i = choose|i: int| 0 <= i < seen.len() && #[trigger] seen[i].0 == kk;
                        assert(seen1[i] == seen[i]);
                    } else {
                        assert(seen1[j as int].0 == kk);
                    }
                }
            }
            // The keys of the absent part were seen, so none of them is `k`.
            assert forall|q: int| 0 <= q < a.len() implies #[trigger] a[q].0 != k@ by {
                assert(seen.contains(a[q]));
                let i = choose|i: int| 0 <= i < seen.len() && seen[i] == a[q];
                assert(seen[i].0 == a[q].0);
            }
            assert(cur.len() == plen + a.len());
            assert forall|q: int| 0 <= q < plen implies #[trigger] cur[q].0 == p[q].0 by {
            }
            assert forall|q: int| 0 <= q < a.len() implies #[trigger] cur[plen + q] == a[q] by {
            }
        }
        match new_doc.get(k) {
            Some(nv) => {
                let ghost q = key_pos(cur, k@);
                proof {
                    assert(has_key(cur, k@));
                    assert(0 <= q < cur.len() && cur[q].0 == k@);
                    if q >= plen {
                        assert(cur[q] == a[q - plen]);
                    }
                    assert(q < plen);
                    assert(!has_key(seen, p[q].0));
                    assert(cur[q] == p[q]);
                    assert(nv@ == p[q].1);
                    assert(orig.contains(p[q]));
                    assert(has_key(orig, k@)) by {
                        let r = choose|r: int| 0 <= r < orig.len() && orig[r] == p[q];
                        assert(orig[r].0 == k@);
                    }
                }
                match (ov.as_document(), nv.as_document()) {
                    (Some(osub), Some(nsub)) => {
                        let mut sub = nsub.clone();
                        proof {
                            assert(view_wf(o[j as int].1));
                            assert(entries_wf(osub@));
                            assert(entries_wf(cur));
                            assert(view_wf(cur[q].1));
                            assert(entries_wf(sub@));
                            assert(decreases_to!(o => o[j as int]));
                            assert(decreases_to!(o[j as int] => o[j as int].1));
                            assert(decreases_to!(o[j as int].1 => (o[j as int].1)->Doc_0));
                        }
                        merge_documents(osub, &mut sub);
                        let ghost merged = sub@;
                        new_doc.insert(k.clone(), Value::Doc(sub));
                        proof {
                            lemma_key_pos_unique(cur, q);
                            assert(merge_value(o, k@, p[q].1) == ValueView::Doc(merged));
                            let target = merged_prefix(o, orig, j as int + 1);
                            assert(new_doc@ == cur.update(q, (k@, ValueView::Doc(merged))));
                            assert forall|x: int| 0 <= x < plen implies #[trigger] target[x] == new_doc@[x] by {
                                if x != q {
                                    assert(p[x].0 != p[q].0);
                                }
                            }
                            assert(absent(seen1, orig) == a);
                            assert forall|x: int| plen <= x < target.len() implies #[trigger] target[x] == new_doc@[x] by {
                            }
                            assert(new_doc@ =~= target);
                        }
                    },
                    _ => {
                        proof {
                            lemma_key_pos_unique(cur, q);
                            assert(merge_value(o, k@, p[q].1) == p[q].1);
                            let target = merged_prefix(o, orig, j as int + 1);
                            assert forall|x: int| 0 <= x < plen implies #[trigger] target[x] == cur[x] by {
                                if x != q {
                                    assert(p[x].0 != p[q].0);
                                }
                            }
                            assert(absent(seen1, orig) == a);
                            assert forall|x: int| plen <= x < target.len() implies #[trigger] target[x] == cur[x] by {
                            }
                            assert(cur =~= target);
                        }
                    },
                }
            },
            None => {
                proof {
                    assert(!has_key(cur, k@));
                    assert(!has_key(p, k@)) by {
                        if has_key(p, k@) {
                            let q = choose|q: int| 0 <= q < p.len() && #[trigger] p[q].0 == k@;
                            assert(cur[q].0 == k@);
                        }
                    }
                    assert(!has_key(orig, k@)) by {
                        if has_key(orig, k@) {
                            let r = choose|r: int| 0 <= r < orig.len() && #[trigger] orig[r].0 == k@;
                            assert(has_key(o, orig[r].0));
                        }
                    }
                    assert(view_wf(o[j as int].1));
                }
                new_doc.insert(k.clone(), ov.clone());
                proof {
                    let target = merged_prefix(o, orig, j as int + 1);
                    assert(new_doc@ == cur.push((k@, ov@)));
                    assert(absent(seen1, orig) == a.push(o[j as int]));
                    assert forall|x: int| 0 <= x < plen implies #[trigger] target[x] == new_doc@[x] by {
                        assert(p[x].0 != k@);
                    }
                    assert forall|x: int| plen <= x < target.len() implies #[trigger] target[x] == new_doc@[x] by {
                    }
                    assert(new_doc@ =~= target);
                }
            },
        }
        j = j + 1;
    }
    proof {
        assert(o.take(n as int) =~= o);
        let target = merge_entries(o, orig);
        let got = merged_prefix(o, orig, n as int);
        assert forall|x: int| 0 <= x < p.len() implies #[trigger] got[x] == target[x] by {
            assert(has_key(o, p[x].0));
        }
        assert(got =~= target);
    }
}

proof fn lemma_present_in_all(es: Entries, other: Entries)
    requires
        forall|q: int| 0 <= q < es.len() ==> has_key(other, #[trigger] es[q].0),
    ensures
        present_in(es, other) == es,
    decreases es.len(),
{
    if es.len() > 0 {
        let d = es.drop_last();
        assert forall|q: int| 0 <= q < d.len() implies has_key(other, #[trigger] d[q].0) by {
            assert(d[q] == es[q]);
        }
        lemma_present_in_all(d, other);
        assert(has_key(other, es[es.len() - 1].0));
        assert(d.push(es.last()) =~= es);
    }
}

/// When the patch has every key of the stored document, nothing is absent.
pub proof fn lemma_absent_none(old: Entries, new: Entries)
    requires
        forall|q: int| 0 <= q < old.len() ==> has_key(new, #[trigger] old[q].0),
    ensures
        absent(old, new) == Seq::<(Seq<char>, ValueView)>::empty(),
    decreases old.len(),
{
    if old.len() > 0 {
        let d = old.drop_last();
        assert forall|q: int| 0 <= q < d.len() implies has_key(new, #[trigger] d[q].0) by {
            assert(d[q] == old[q]);
        }
        lemma_absent_none(d, new);
        assert(has_key(new, old[old.len() - 1].0));
    }
}

/// When the patch has none of the stored keys, every stored entry is absent.
pub proof fn lemma_absent_all(old: Entries, new: Entries)
    requires
        forall|q: int| 0 <= q < old.len() ==> !has_key(new, #[trigger] old[q].0),
    ensures
        absent(old, new) == old,
    decreases old.len(),
{
    if old.len() > 0 {
        let d = old.drop_last();
        assert forall|q: int| 0 <= q < d.len() implies !has_key(new, #[trigger] d[q].0) by {
            assert(d[q] == old[q]);
        }
        lemma_absent_all(d, new);
        assert(!has_key(new, old[old.len() - 1].0));
        assert(d.push(old.last()) =~= old);
    }
}

/// The keys and values of a merge: the merged document has exactly the keys of
/// the stored document; a key the patch also has carries the merged value, any
/// other key its stored value; and keys stay unique at every depth.
pub proof fn lemma_merge_lookup(old: Entries, new: Entries)
    requires
        entries_wf(old),
        entries_wf(new),
    ensures
        entries_wf(merge_entries(old, new)),
        forall|k: Seq<char>| #[trigger] has_key(merge_entries(old, new), k) <==> has_key(old, k),
        forall|k: Seq<char>|
            #[trigger] lookup(merge_entries(old, new), k) == if !has_key(old, k) {
                None
            } else if has_key(new, k) {
                Some(merge_value(old, k, lookup(new, k).unwrap()))
            } else {
                lookup(old, k)
            },
    decreases old,
{
    let m = merge_entries(old, new);
    let p = present_in(new, old);
    let a = absent(old, new);
    lemma_present_in(new, old);
    lemma_absent(old, new);
    let plen = p.len();
    assert(m.len() == plen + a.len());
    assert forall|q: int| 0 <= q < plen implies #[trigger] m[q] == (p[q].0, merge_value(old, p[q].0, p[q].1)) by {
    }
    assert forall|q: int| 0 <= q < a.len() implies #[trigger] m[plen + q] == a[q] by {
    }
    // Facts about the entries of each part.
    assert forall|q: int| 0 <= q < plen implies has_key(old, #[trigger] p[q].0) && has_key(new, p[q].0)
        && lookup(new, p[q].0) == Some(p[q].1) by {
        assert(new.contains(p[q]));
        let r = choose|r: int| 0 <= r < new.len() && new[r] == p[q];
        lemma_key_pos_unique(new, r);
    }
    assert forall|q: int| 0 <= q < a.len() implies has_key(old, #[trigger] a[q].0) && !has_key(new, a[q].0)
        && lookup(old, a[q].0) == Some(a[q].1) by {
        assert(old.contains(a[q]));
        let r = choose|r: int| 0 <= r < old.len() && old[r] == a[q];
        lemma_key_pos_unique(old, r);
    }
    // Keys are unique.
    assert forall|x: int, y: int| 0 <= x < y < m.len() implies #[trigger] m[x].0 != #[trigger] m[y].0 by {
        if y < plen {
            assert(p[x].0 != p[y].0);
        } else if x < plen {
            assert(has_key(new, p[x].0));
            assert(!has_key(new, a[y - plen].0));
        } else {
            assert(a[x - plen].0 != a[y - plen].0);
        }
    }
    // Values are well formed.
    assert forall|x: int| 0 <= x < m.len() implies view_wf(#[trigger] m[x].1) by {
        if x < plen {
            let k = p[x].0;
            let nv = p[x].1;
            assert(new.contains(p[x]));
            let r = choose|r: int| 0 <= r < new.len() && new[r] == p[x];
            assert(view_wf(new[r].1));
            let i = key_pos(old, k);
            assert(0 <= i < old.len() && old[i].0 == k);
            assert(view_wf(old[i].1));
            match old[i].1 {
                ValueView::Doc(od) => match nv {
                    ValueView::Doc(nd) => {
                        assert(decreases_to!(old => old[i]));
                        assert(decreases_to!(old[i] => old[i].1));
                        lemma_merge_lookup(od, nd);
                    },
                    _ => {},
                },
                _ => {},
            }
        } else {
            assert(old.contains(a[x - plen]));
            let r = choose|r: int| 0 <= r < old.len() && old[r] == a[x - plen];
            assert(view_wf(old[r].1));
        }
    }
    // Which keys are present.
    assert forall|k: Seq<char>| #[trigger] has_key(m, k) <==> has_key(old, k) by {
        if has_key(m, k) {
            let x = choose|x: int| 0 <= x < m.len() && #[trigger] m[x].0 == k;
            if x >= plen {
                assert(m[x] == a[x - plen]);
            }
        }
        if has_key(old, k) {
            let r = choose|r: int| 0 <= r < old.len() && #[trigger] old[r].0 == k;
            if has_key(new, k) {
                let s = choose|s: int| 0 <= s < new.len() && #[trigger] new[s].0 == k;
                assert(has_key(old, new[s].0));
                assert(has_key(p, k));
                let q = choose|q: int| 0 <= q < p.len() && #[trigger] p[q].0 == k;
                assert(m[q].0 == k);
            } else {
                assert(has_key(a, old[r].0));
                let q = choose|q: int| 0 <= q < a.len() && #[trigger] a[q].0 == k;
                assert(m[plen + q].0 == k);
            }
        }
    }
    // What each key holds.
    assert forall|k: Seq<char>| #[trigger] lookup(m, k) == if !has_key(old, k) {
        None
    } else if has_key(new, k) {
        Some(merge_value(old, k, lookup(new, k).unwrap()))
    } else {
        lookup(old, k)
    } by {
        if has_key(m, k) {
            let x = key_pos(m, k);
            lemma_key_pos_unique(m, x);
            if x < plen {
                assert(m[x].0 == p[x].0);
            } else {
                assert(m[x] == a[x - plen]);
            }
        }
    }
}

/// Merging a document into itself gives it back unchanged.
pub proof fn lemma_merge_self(doc: Entries)
    requires
        entries_wf(doc),
    ensures
        merge_entries(doc, doc) == doc,
    decreases doc,
{
    assert forall|q: int| 0 <= q < doc.len() implies has_key(doc, #[trigger] doc[q].0) by {
    }
    lemma_present_in_all(doc, doc);
    lemma_absent_none(doc, doc);
    let m = merge_entries(doc, doc);
    assert forall|q: int| 0 <= q < doc.len() implies #[trigger] m[q] == doc[q] by {
        lemma_key_pos_unique(doc, q);
        assert(view_wf(doc[q].1));
        match doc[q].1 {
            ValueView::Doc(d) => {
                assert(decreases_to!(doc => doc[q]));
                assert(decreases_to!(doc[q] => doc[q].1));
                lemma_merge_self(d);
            },
            _ => {},
        }
    }
    assert(m =~= doc);
}

/// A patch with no entries leaves the stored document as it is.
pub proof fn lemma_merge_empty_patch(old: Entries)
    ensures
        merge_entries(old, Seq::empty()) == old,
{
    let e = Seq::<(Seq<char>, ValueView)>::empty();
    assert forall|q: int| 0 <= q < old.len() implies !has_key(e, #[trigger] old[q].0) by {
    }
    lemma_absent_all(old, e);
    assert(merge_entries(old, e) =~= old);
}

/// Merging is idempotent: patching the stored document with a merge of a
/// patch into it gives that merge back, with the same keys, values and order
/// (`merge(old, merge(old, new)) == merge(old, new)`).
pub proof fn lemma_merge_idempotent(old: Entries, new: Entries)
    requires
        entries_wf(old),
        entries_wf(new),
    ensures
        merge_entries(old, merge_entries(old, new)) == merge_entries(old, new),
    decreases old,
{
    let m = merge_entries(old, new);
    lemma_merge_lookup(old, new);
    let p = present_in(new, old);
    let a = absent(old, new);
    lemma_present_in(new, old);
    lemma_absent(old, new);
    let plen = p.len();
    assert forall|q: int| 0 <= q < m.len() implies has_key(old, #[trigger] m[q].0) by {
        assert(has_key(m, m[q].0));
    }
    lemma_present_in_all(m, old);
    assert forall|q: int| 0 <= q < old.len() implies has_key(m, #[trigger] old[q].0) by {
        assert(has_key(old, old[q].0));
    }
    lemma_absent_none(old, m);
    let mm = merge_entries(old, m);
    assert forall|q: int| 0 <= q < m.len() implies #[trigger] mm[q] == m[q] by {
        let k = m[q].0;
        assert(has_key(old, k));
        let i = key_pos(old, k);
        assert(0 <= i < old.len() && old[i].0 == k);
        assert(view_wf(old[i].1));
        if q < plen {
            assert(m[q] == (p[q].0, merge_value(old, p[q].0, p[q].1)));
            assert(new.contains(p[q]));
            let r = choose|r: int| 0 <= r < new.len() && new[r] == p[q];
            assert(view_wf(new[r].1));
            match old[i].1 {
                ValueView::Doc(od) => match p[q].1 {
                    ValueView::Doc(nd) => {
                        assert(decreases_to!(old => old[i]));
                        assert(decreases_to!(old[i] => old[i].1));
                        lemma_merge_idempotent(od, nd);
                    },
                    _ => {},
                },
                _ => {},
            }
        } else {
            assert(m[q] == a[q - plen]);
            assert(old.contains(a[q - plen]));
            let r = choose|r: int| 0 <= r < old.len() && old[r] == a[q - plen];
            lemma_key_pos_unique(old, r);
            match old[i].1 {
                ValueView::Doc(od) => {
                    assert(decreases_to!(old => old[i]));
                    assert(decreases_to!(old[i] => old[i].1));
                    lemma_merge_self(od);
                },
                _ => {},
            }
        }
    }
    assert(mm =~= m);
}

/// What a patch does to each key of the stored document: a key that only the
/// patch has is dropped, a stored key that the patch lacks keeps its stored
/// value, two documents under the same key merge in turn, and under any other
/// pair of values (numbers, strings, arrays, a document against a
/// non-document) the patch's value wins.
pub proof fn lemma_merge_key(old: Entries, new: Entries, k: Seq<char>)
    requires
        entries_wf(old),
        entries_wf(new),
    ensures
        has_key(merge_entries(old, new), k) <==> has_key(old, k),
        !has_key(old, k) ==> lookup(merge_entries(old, new), k) is None,
        has_key(old, k) && !has_key(new, k) ==> lookup(merge_entries(old, new), k) == lookup(old, k),
        has_key(old, k) && has_key(new, k) && !(lookup(old, k).unwrap() is Doc && lookup(new, k).unwrap() is Doc)
            ==> lookup(merge_entries(old, new), k) == lookup(new, k),
        has_key(old, k) && has_key(new, k) && lookup(old, k).unwrap() is Doc && lookup(new, k).unwrap() is Doc
            ==> lookup(merge_entries(old, new), k) == Some(
            ValueView::Doc(merge_entries(lookup(old, k).unwrap()->Doc_0, lookup(new, k).unwrap()->Doc_0)),
        ),
{
    lemma_merge_lookup(old, new);
    if has_key(old, k) {
        let i = key_pos(old, k);
        lemma_key_pos_unique(old, i);
    }
}

proof fn lemma_key_pos_of_prefix(es: Entries, x: Seq<char>)
    requires
        keys_unique(es),
        es.len() > 0,
        has_key(es.drop_last(), x),
    ensures
        keys_unique(es.drop_last()),
        key_pos(es, x) == key_pos(es.drop_last(), x),
        key_pos(es.drop_last(), x) < es.len() - 1,
{
    let d = es.drop_last();
    assert forall|a: int, b: int| 0 <= a < b < d.len() implies #[trigger] d[a].0 != #[trigger] d[b].0 by {
        assert(es[a].0 != es[b].0);
    }
    let i = key_pos(d, x);
    lemma_key_pos_unique(d, i);
    assert(es[i] == d[i]);
    lemma_key_pos_unique(es, i);
}

/// `present_in` keeps the order of `es`.
proof fn lemma_present_in_order(es: Entries, other: Entries)
    requires
        keys_unique(es),
    ensures
        forall|i: int, j: int|
            0 <= i < j < present_in(es, other).len() ==> key_pos(es, #[trigger] present_in(es, other)[i].0)
                < key_pos(es, #[trigger] present_in(es, other)[j].0),
    decreases es.len(),
{
    if es.len() > 0 {
        let d = es.drop_last();
        let p = present_in(es, other);
        let pd = present_in(d, other);
        assert forall|a: int, b: int| 0 <= a < b < d.len() implies #[trigger] d[a].0 != #[trigger] d[b].0 by {
            assert(es[a].0 != es[b].0);
        }
        lemma_present_in_order(d, other);
        lemma_present_in(d, other);
        lemma_key_pos_unique(es, es.len() - 1);
        assert forall|i: int, j: int| 0 <= i < j < p.len() implies key_pos(es, #[trigger] p[i].0) < key_pos(
            es,
            #[trigger] p[j].0,
        ) by {
            assert(p[i] == pd[i]);
            assert(d.contains(pd[i]));
            let r = choose|r: int| 0 <= r < d.len() && d[r] == pd[i];
            assert(has_key(d, pd[i].0)) by {
                assert(d[r].0 == pd[i].0);
            }
            lemma_key_pos_of_prefix(es, pd[i].0);
            if j < pd.len() {
                assert(p[j] == pd[j]);
                assert(d.contains(pd[j]));
                let s = choose|s: int| 0 <= s < d.len() && d[s] == pd[j];
                assert(has_key(d, pd[j].0)) by {
                    assert(d[s].0 == pd[j].0);
                }
                lemma_key_pos_of_prefix(es, pd[j].0);
            } else {
                assert(p[j] == es[es.len() - 1]);
            }
        }
    }
}

/// `absent` keeps the order of `old`.
proof fn lemma_absent_order(old: Entries, new: Entries)
    requires
        keys_unique(old),
    ensures
        forall|i: int, j: int|
            0 <= i < j < absent(old, new).len() ==> key_pos(old, #[trigger] absent(old, new)[i].0)
                < key_pos(old, #[trigger] absent(old, new)[j].0),
    decreases old.len(),
{
    if old.len() > 0 {
        let d = old.drop_last();
        let a = absent(old, new);
        let ad = absent(d, new);
        assert forall|x: int, y: int| 0 <= x < y < d.len() implies #[trigger] d[x].0 != #[trigger] d[y].0 by {
            assert(old[x].0 != old[y].0);
        }
        lemma_absent_order(d, new);
        lemma_absent(d, new);
        lemma_key_pos_unique(old, old.len() - 1);
        assert forall|i: int, j: int| 0 <= i < j < a.len() implies key_pos(old, #[trigger] a[i].0) < key_pos(
            old,
            #[trigger] a[j].0,
        ) by {
            assert(a[i] == ad[i]);
            assert(d.contains(ad[i]));
            let r = choose|r: int| 0 <= r < d.len() && d[r] == ad[i];
            assert(has_key(d, ad[i].0)) by {
                assert(d[r].0 == ad[i].0);
            }
            lemma_key_pos_of_prefix(old, ad[i].0);
            if j < ad.len() {
                assert(a[j] == ad[j]);
                assert(d.contains(ad[j]));
                let s = choose|s: int| 0 <= s < d.len() && d[s] == ad[j];
                assert(has_key(d, ad[j].0)) by {
                    assert(d[s].0 == ad[j].0);
                }
                lemma_key_pos_of_prefix(old, ad[j].0);
            } else {
                assert(a[j] == old[old.len() - 1]);
            }
        }
    }
}

/// The order of a merged document: the keys that the patch sets come first,
/// in the patch's order, and the stored keys that the patch lacks follow, in
/// the stored order.
pub proof fn lemma_merge_order(old: Entries, new: Entries)
    requires
        entries_wf(old),
        entries_wf(new),
    ensures
        forall|i: int, j: int|
            0 <= i < j < merge_entries(old, new).len() && has_key(new, #[trigger] merge_entries(old, new)[j].0)
                ==> has_key(new, #[trigger] merge_entries(old, new)[i].0),
        forall|i: int, j: int|
            0 <= i < j < merge_entries(old, new).len() && has_key(new, #[trigger] merge_entries(old, new)[i].0)
                && has_key(new, #[trigger] merge_entries(old, new)[j].0) ==> key_pos(new, merge_entries(old, new)[i].0)
                < key_pos(new, merge_entries(old, new)[j].0),
        forall|i: int, j: int|
            0 <= i < j < merge_entries(old, new).len() && !has_key(new, #[trigger] merge_entries(old, new)[i].0)
                && !has_key(new, #[trigger] merge_entries(old, new)[j].0) ==> key_pos(old, merge_entries(old, new)[i].0)
                < key_pos(old, merge_entries(old, new)[j].0),
{
    let m = merge_entries(old, new);
    let p = present_in(new, old);
    let a = absent(old, new);
    let plen = p.len();
    lemma_present_in(new, old);
    lemma_absent(old, new);
    lemma_present_in_order(new, old);
    lemma_absent_order(old, new);
    assert(m.len() == plen + a.len());
    assert forall|q: int| 0 <= q < plen implies #[trigger] m[q].0 == p[q].0 && has_key(new, p[q].0) by {
        assert(new.contains(p[q]));
        let r = choose|r: int| 0 <= r < new.len() && new[r] == p[q];
        assert(new[r].0 == p[q].0);
    }
    assert forall|q: int| plen <= q < m.len() implies #[trigger] m[q] == a[q - plen] && !has_key(new, m[q].0) by {
    }
    assert forall|i: int, j: int|
        0 <= i < j < m.len() && has_key(new, #[trigger] m[j].0) implies has_key(new, #[trigger] m[i].0) by {
        if j >= plen {
            assert(m[j] == a[j - plen]);
        } else {
            assert(m[i].0 == p[i].0);
        }
    }
    assert forall|i: int, j: int|
        0 <= i < j < m.len() && has_key(new, #[trigger] m[i].0) && has_key(new, #[trigger] m[j].0) implies key_pos(
        new,
        m[i].0,
    ) < key_pos(new, m[j].0) by {
        if j >= plen {
            assert(m[j] == a[j - plen]);
        } else {
            assert(m[i].0 == p[i].0);
            assert(m[j].0 == p[j].0);
        }
    }
    assert forall|i: int, j: int|
        0 <= i < j < m.len() && !has_key(new, #[trigger] m[i].0) && !has_key(new, #[trigger] m[j].0) implies key_pos(
        old,
        m[i].0,
    ) < key_pos(old, m[j].0) by {
        if i < plen {
            assert(m[i].0 == p[i].0);
        } else {
            assert(m[i] == a[i - plen]);
            assert(m[j] == a[j - plen]);
        }
    }
}

} // verus!
