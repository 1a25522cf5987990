use vstd::prelude::*;
use vstd::string::*;

verus! {

/// A BSON / JSON value as the service stores and exchanges it.
///
/// Floating-point numbers are carried as their IEEE-754 bit pattern, so that a
/// value read from the database is written back bit for bit.
#[derive(Debug, PartialEq)]
pub enum Value {
    Null,
    Bool(bool),
    Int32(i32),
    Int64(i64),
    Double(u64),
    Str(String),
    Array(Vec<Value>),
    Doc(Document),
    ObjectId([u8; 12]),
    /// Any other BSON element: its element type code and its raw encoding.
    Other(u8, Vec<u8>),
}

/// An ordered document: a sequence of (key, value) entries in insertion order.
#[derive(Debug, PartialEq)]
pub struct Document {
    entries: Vec<(String, Value)>,
}

/// The mathematical model of a `Value`.
pub enum ValueView {
    Null,
    Bool(bool),
    Int32(i32),
    Int64(i64),
    Double(u64),
    Str(Seq<char>),
    Array(Seq<ValueView>),
    Doc(Seq<(Seq<char>, ValueView)>),
    ObjectId(Seq<u8>),
    Other(u8, Seq<u8>),
}

/// The model of a document: its entries, in order.
pub type Entries = Seq<(Seq<char>, ValueView)>;

pub open spec fn view_of(v: Value) -> ValueView
    decreases v,
{
    match v {
        Value::Null => ValueView::Null,
        Value::Bool(b) => ValueView::Bool(b),
        Value::Int32(i) => ValueView::Int32(i),
        Value::Int64(i) => ValueView::Int64(i),
        Value::Double(bits) => ValueView::Double(bits),
        Value::Str(s) => ValueView::Str(s@),
        Value::Array(a) => ValueView::Array(
            Seq::new(
                a.len() as nat,
                |i: int|
                    if 0 <= i < a.len() {
                        view_of(a[i])
                    } else {
                        ValueView::Null
                    },
            ),
        ),
        Value::Doc(d) => ValueView::Doc(entries_of(d)),
        Value::ObjectId(b) => ValueView::ObjectId(b@),
        Value::Other(kind, raw) => ValueView::Other(kind, raw@),
    }
}

pub closed spec fn entries_of(d: Document) -> Entries
    decreases d,
{
    Seq::new(
        d.entries.len() as nat,
        |i: int|
            if 0 <= i < d.entries.len() {
                (d.entries[i].0@, view_of(d.entries[i].1))
            } else {
                (Seq::empty(), ValueView::Null)
            },
    )
}

impl View for Value {
    type V = ValueView;

    open spec fn view(&self) -> ValueView {
        view_of(*self)
    }
}

impl View for Document {
    type V = Entries;

    open spec fn view(&self) -> Entries {
        entries_of(*self)
    }
}

/// No two entries of a document share a key.
pub open spec fn keys_unique(es: Entries) -> bool {
    forall|i: int, j: int| 0 <= i < j < es.len() ==> #[trigger] es[i].0 != #[trigger] es[j].0
}

/// Keys are unique in this document and in every document nested in it.
pub open spec fn entries_wf(es: Entries) -> bool
    decreases es,
{
    &&& keys_unique(es)
    &&& forall|i: int| 0 <= i < es.len() ==> view_wf(#[trigger] es[i].1)
}

/// Keys are unique in every document nested in the value.
pub open spec fn view_wf(v: ValueView) -> bool
    decreases v,
{
    match v {
        ValueView::Array(a) => forall|i: int| 0 <= i < a.len() ==> view_wf(#[trigger] a[i]),
        ValueView::Doc(es) => entries_wf(es),
        _ => true,
    }
}

/// Whether some entry has key `k`.
pub open spec fn has_key(es: Entries, k: Seq<char>) -> bool {
    exists|i: int| 0 <= i < es.len() && #[trigger] es[i].0 == k
}

/// The position of the entry with key `k` (meaningful when `has_key(es, k)`).
pub open spec fn key_pos(es: Entries, k: Seq<char>) -> int {
    choose|i: int| 0 <= i < es.len() && #[trigger] es[i].0 == k
}

/// The value stored under `k`, if any.
pub open spec fn lookup(es: Entries, k: Seq<char>) -> Option<ValueView> {
    if has_key(es, k) {
        Some(es[key_pos(es, k)].1)
    } else {
        None
    }
}

/// The entries after setting `k` to `v`: an existing entry keeps its place,
/// a new key is appended at the end.
pub open spec fn inserted(es: Entries, k: Seq<char>, v: ValueView) -> Entries {
    if has_key(es, k) {
        es.update(key_pos(es, k), (k, v))
    } else {
        es.push((k, v))
    }
}

/// The entries after taking out the entry with key `k`; the others keep their order.
pub open spec fn removed(es: Entries, k: Seq<char>) -> Entries {
    if has_key(es, k) {
        es.remove(key_pos(es, k))
    } else {
        es
    }
}

/// With unique keys, the entry at `i` is the one `key_pos` designates.
pub proof fn lemma_key_pos_unique(es: Entries, i: int)
    requires
        keys_unique(es),
        0 <= i < es.len(),
    ensures
        has_key(es, es[i].0),
        key_pos(es, es[i].0) == i,
        lookup(es, es[i].0) == Some(es[i].1),
{
    assert(es[i].0 == es[i].0);
    let j = key_pos(es, es[i].0);
    assert(0 <= j < es.len() && es[j].0 == es[i].0);
}

/// The entries of `es` whose keys `other` also has, in the order of `es`.
pub open spec fn present_in(es: Entries, other: Entries) -> Entries
    decreases es.len(),
{
    if es.len() == 0 {
        Seq::empty()
    } else {
        let rest = present_in(es.drop_last(), other);
        if has_key(other, es.last().0) {
            rest.push(es.last())
        } else {
            rest
        }
    }
}

/// Reading a key after setting it gives the value set; every other key keeps
/// its value; and keys stay unique.
pub proof fn lemma_inserted(es: Entries, k: Seq<char>, v: ValueView)
    requires
        keys_unique(es),
    ensures
        keys_unique(inserted(es, k, v)),
        lookup(inserted(es, k, v), k) == Some(v),
        forall|other: Seq<char>| other != k ==> #[trigger] lookup(inserted(es, k, v), other) == lookup(es, other),
{
    let n = inserted(es, k, v);
    if has_key(es, k) {
        let p = key_pos(es, k);
        assert forall|a: int, b: int| 0 <= a < b < n.len() implies #[trigger] n[a].0 != #[trigger] n[b].0 by {
            assert(es[a].0 != es[b].0);
        }
        lemma_key_pos_unique(n, p);
        assert forall|other: Seq<char>| other != k implies #[trigger] lookup(n, other) == lookup(es, other) by {
            if has_key(es, other) {
                let i = key_pos(es, other);
                lemma_key_pos_unique(es, i);
                assert(n[i] == es[i]);
                lemma_key_pos_unique(n, i);
            }
            if has_key(n, other) {
                let i = choose|i: int| 0 <= i < n.len() && #[trigger] n[i].0 == other;
                assert(es[i].0 == other);
            }
        }
    } else {
        assert forall|a: int, b: int| 0 <= a < b < n.len() implies #[trigger] n[a].0 != #[trigger] n[b].0 by {
            if b < es.len() {
                assert(es[a].0 != es[b].0);
            } else {
                assert(!(0 <= a < es.len() && es[a].0 == k));
            }
        }
        lemma_key_pos_unique(n, es.len() as int);
        assert forall|other: Seq<char>| other != k implies #[trigger] lookup(n, other) == lookup(es, other) by {
            if has_key(es, other) {
                let i = key_pos(es, other);
                lemma_key_pos_unique(es, i);
                assert(n[i] == es[i]);
                lemma_key_pos_unique(n, i);
            }
            if has_key(n, other) {
                let i = choose|i: int| 0 <= i < n.len() && #[trigger] n[i].0 == other;
                assert(es[i].0 == other);
            }
        }
    }
}

/// After taking a key out, the key is gone; every other key keeps its value;
/// and keys stay unique.
pub proof fn lemma_removed(es: Entries, k: Seq<char>)
    requires
        keys_unique(es),
    ensures
        keys_unique(removed(es, k)),
        !has_key(removed(es, k), k),
        forall|other: Seq<char>| other != k ==> #[trigger] lookup(removed(es, k), other) == lookup(es, other),
{
    let n = removed(es, k);
    if has_key(es, k) {
        let p = key_pos(es, k);
        assert(0 <= p < es.len() && es[p].0 == k);
        assert forall|i: int| 0 <= i < n.len() implies #[trigger] n[i] == es[if i < p { i } else { i + 1 }] by {
        }
        assert forall|a: int, b: int| 0 <= a < b < n.len() implies #[trigger] n[a].0 != #[trigger] n[b].0 by {
            assert(n[a] == es[if a < p { a } else { a + 1 }]);
            assert(n[b] == es[if b < p { b } else { b + 1 }]);
        }
        assert(!has_key(n, k)) by {
            if has_key(n, k) {
                let i = choose|i: int| 0 <= i < n.len() && #[trigger] n[i].0 == k;
                let j = if i < p { i } else { i + 1 };
                assert(n[i] == es[j]);
                assert(es[j].0 != es[p].0);
            }
        }
        assert forall|other: Seq<char>| other != k implies #[trigger] lookup(n, other) == lookup(es, other) by {
            if has_key(es, other) {
                let i = key_pos(es, other);
                lemma_key_pos_unique(es, i);
                assert(i != p);
                let j = if i < p { i } else { i - 1 };
                assert(n[j] == es[i]);
                lemma_key_pos_unique(n, j);
            }
            if has_key(n, other) {
                let i = choose|i: int| 0 <= i < n.len() && #[trigger] n[i].0 == other;
                let j = if i < p { i } else { i + 1 };
                assert(n[i] == es[j]);
            }
        }
    }
}

/// Why `get_str` found no string.
#[derive(Debug, Clone, Copy, PartialEq, Eq)]
pub enum ValueAccessError {
    NotPresent,
    UnexpectedType,
}

impl Document {
    /// Well-formed: keys are unique here and in every nested document.
    pub open spec fn wf(&self) -> bool {
        entries_wf(self@)
    }

    proof fn lemma_view_index(&self, i: int)
        requires
            0 <= i < self.entries.len(),
        ensures
            self@.len() == self.entries.len(),
            self@[i] == (self.entries[i].0@, self.entries[i].1@),
    {
    }

    /// An empty document.
    pub fn new() -> (d: Document)
        ensures
            d@ == Seq::<(Seq<char>, ValueView)>::empty(),
            d.wf(),
    {
        let d = Document { entries: Vec::new() };
        assert(d@ =~= Seq::<(Seq<char>, ValueView)>::empty());
        d
    }

    /// The number of entries.
    pub fn len(&self) -> (n: usize)
        ensures
            n == self@.len(),
    {
        self.entries.len()
    }

    /// The key of the entry at position `i`.
    pub fn key_at(&self, i: usize) -> (k: &String)
        requires
            i < self@.len(),
        ensures
            k@ == self@[i as int].0,
    {
        proof {
            self.lemma_view_index(i as int);
        }
        &self.entries[i].0
    }

    /// The value of the entry at position `i`.
    pub fn value_at(&self, i: usize) -> (v: &Value)
        requires
            i < self@.len(),
        ensures
            v@ == self@[i as int].1,
    {
        proof {
            self.lemma_view_index(i as int);
        }
        &self.entries[i].1
    }

    /// The position of the first entry with key `key`.
    fn position(&self, key: &String) -> (r: Option<usize>)
        ensures
            match r {
                Some(i) => i < self@.len() && self@[i as int].0 == key@,
                None => !has_key(self@, key@),
            },
    {
        let n = self.entries.len();
        let mut i: usize = 0;
        while i < n
            invariant
                n == self.entries.len(),
                n == self@.len(),
                i <= n,
                forall|j: int| 0 <= j < i ==> self@[j].0 != key@,
            decreases n - i,
        {
            proof {
                self.lemma_view_index(i as int);
            }
            if self.entries[i].0 == *key {
                return Some(i);
            }
            i = i + 1;
        }
        None
    }

    /// Whether an entry has key `key`.
    pub fn contains_key(&self, key: &String) -> (r: bool)
        ensures
            r == has_key(self@, key@),
    {
        match self.position(key) {
            Some(i) => {
                assert(self@[i as int].0 == key@);
                true
            },
            None => false,
        }
    }

    /// The value stored under `key`.
    pub fn get(&self, key: &String) -> (r: Option<&Value>)
        requires
            self.wf(),
        ensures
            match r {
                Some(v) => lookup(self@, key@) == Some(v@),
                None => lookup(self@, key@) is None,
            },
    {
        match self.position(key) {
            Some(i) => {
                proof {
                    lemma_key_pos_unique(self@, i as int);
                    self.lemma_view_index(i as int);
                }
                Some(&self.entries[i].1)
            },
            None => None,
        }
    }

    /// The string stored under `key`: `NotPresent` without such an entry,
    /// `UnexpectedType` when the value there is not a string.
    pub fn get_str(&self, key: &String) -> (r: Result<&String, ValueAccessError>)
        requires
            self.wf(),
        ensures
            match r {
                Ok(s) => lookup(self@, key@) == Some(ValueView::Str(s@)),
                Err(ValueAccessError::NotPresent) => lookup(self@, key@) is None,
                Err(ValueAccessError::UnexpectedType) => lookup(self@, key@) matches Some(v)
                    && !(v is Str),
            },
    {
        match self.get(key) {
            Some(Value::Str(s)) => Ok(s),
            Some(_) => Err(ValueAccessError::UnexpectedType),
            None => Err(ValueAccessError::NotPresent),
        }
    }

    /// A document of one entry.
    pub fn single(key: String, value: Value) -> (d: Document)
        requires
            view_wf(value@),
        ensures
            d@ == seq![(key@, value@)],
            d.wf(),
    {
        let mut d = Document::new();
        d.insert(key, value);
        assert(!has_key(Seq::<(Seq<char>, ValueView)>::empty(), key@));
        assert(d@ =~= seq![(key@, value@)]);
        d
    }

    /// Keeps only the entries whose keys `other` also has; the kept entries keep
    /// their order.
    pub fn retain_keys_of(&mut self, other: &Document)
        requires
            old(self).wf(),
        ensures
            final(self)@ == present_in(old(self)@, other@),
    {
        let ghost orig = self@;
        let mut taken: Vec<(String, Value)> = Vec::new();
        std::mem::swap(&mut taken, &mut self.entries);
        let ghost orig_entries = taken@;
        assert(orig.len() == orig_entries.len());
        assert forall|j: int| 0 <= j < orig.len() implies #[trigger] orig[j] == (orig_entries[j].0@, orig_entries[j].1@) by {
        }
        let n = taken.len();
        let mut i: usize = 0;
        while i < n
            invariant
                n == orig.len(),
                i <= n,
                orig.len() == orig_entries.len(),
                forall|j: int| 0 <= j < orig.len() ==> #[trigger] orig[j] == (orig_entries[j].0@, orig_entries[j].1@),
                taken@ == orig_entries.skip(i as int),
                self.entries@.len() == present_in(orig.take(i as int), other@).len(),
                forall|q: int| 0 <= q < self.entries@.len() ==> (#[trigger] self.entries@[q].0@, self.entries@[q].1@)
                    == present_in(orig.take(i as int), other@)[q],
            decreases n - i,
        {
            let ghost before = self.entries@;
            let entry = taken.remove(0);
            assert(entry == orig_entries[i as int]);
            let keep = other.contains_key(&entry.0);
            assert(orig.take(i as int + 1).drop_last() =~= orig.take(i as int));
            assert(orig.take(i as int + 1).last() == orig[i as int]);
            if keep {
                self.entries.push(entry);
            }
            assert(taken@ =~= orig_entries.skip(i as int + 1));
            i = i + 1;
        }
        assert(orig.take(n as int) =~= orig);
        assert(self@ =~= present_in(orig, other@));
    }

    /// Sets `key` to `value`. An existing entry keeps its place and its old value
    /// is returned; a new key is appended.
    pub fn insert(&mut self, key: String, value: Value) -> (r: Option<Value>)
        requires
            old(self).wf(),
            view_wf(value@),
        ensures
            final(self)@ == inserted(old(self)@, key@, value@),
            final(self).wf(),
            match r {
                Some(v) => lookup(old(self)@, key@) == Some(v@),
                None => lookup(old(self)@, key@) is None,
            },
    {
        let ghost old_es = self@;
        match self.position(&key) {
            Some(i) => {
                proof {
                    lemma_key_pos_unique(old_es, i as int);
                    self.lemma_view_index(i as int);
                }
                let (_, previous) = self.entries.remove(i);
                self.entries.insert(i, (key, value));
                proof {
                    let ghost new_es = old_es.update(i as int, (key@, value@));
                    assert forall|j: int| 0 <= j < new_es.len() implies self@[j] == new_es[j] by {
                        self.lemma_view_index(j);
                    }
                    assert(self@ =~= new_es);
                    assert forall|a: int, b: int| 0 <= a < b < new_es.len() implies
                        #[trigger] new_es[a].0 != #[trigger] new_es[b].0 by {
                        assert(old_es[a].0 != old_es[b].0);
                    }
                    assert forall|a: int| 0 <= a < new_es.len() implies view_wf(#[trigger] new_es[a].1) by {
                        assert(view_wf(old_es[a].1));
                    }
                }
                Some(previous)
            },
            None => {
                self.entries.push((key, value));
                proof {
                    let ghost new_es = old_es.push((key@, value@));
                    assert forall|j: int| 0 <= j < new_es.len() implies self@[j] == new_es[j] by {
                        self.lemma_view_index(j);
                    }
                    assert(self@ =~= new_es);
                    assert forall|a: int, b: int| 0 <= a < b < new_es.len() implies
                        #[trigger] new_es[a].0 != #[trigger] new_es[b].0 by {
                        if b == old_es.len() {
                            assert(!(0 <= a < old_es.len() && old_es[a].0 == key@));
                        } else {
                            assert(old_es[a].0 != old_es[b].0);
                        }
                    }
                    assert forall|a: int| 0 <= a < new_es.len() implies view_wf(#[trigger] new_es[a].1) by {
                        if a < old_es.len() {
                            assert(view_wf(old_es[a].1));
                        }
                    }
                }
                None
            },
        }
    }

    /// Takes the entry with key `key` out of the document and returns its value;
    /// the other entries keep their order.
    pub fn remove(&mut self, key: &String) -> (r: Option<Value>)
        requires
            old(self).wf(),
        ensures
            final(self)@ == removed(old(self)@, key@),
            final(self).wf(),
            match r {
                Some(v) => lookup(old(self)@, key@) == Some(v@),
                None => lookup(old(self)@, key@) is None,
            },
    {
        let ghost old_es = self@;
        match self.position(key) {
            Some(i) => {
                proof {
                    lemma_key_pos_unique(old_es, i as int);
                    self.lemma_view_index(i as int);
                }
                let (_, previous) = self.entries.remove(i);
                proof {
                    let ghost new_es = old_es.remove(i as int);
                    assert forall|j: int| 0 <= j < new_es.len() implies self@[j] == new_es[j] by {
                        self.lemma_view_index(j);
                        if j < i {
                            assert(new_es[j] == old_es[j]);
                        } else {
                            assert(new_es[j] == old_es[j + 1]);
                        }
                    }
                    assert(self@ =~= new_es);
                    assert forall|a: int, b: int| 0 <= a < b < new_es.len() implies
                        #[trigger] new_es[a].0 != #[trigger] new_es[b].0 by {
                        let a0 = if a < i { a } else { a + 1 };
                        let b0 = if b < i { b } else { b + 1 };
                        assert(new_es[a] == old_es[a0]);
                        assert(new_es[b] == old_es[b0]);
                        assert(old_es[a0].0 != old_es[b0].0);
                    }
                    assert forall|a: int| 0 <= a < new_es.len() implies view_wf(#[trigger] new_es[a].1) by {
                        let a0 = if a < i { a } else { a + 1 };
                        assert(new_es[a] == old_es[a0]);
                        assert(view_wf(old_es[a0].1));
                    }
                }
                Some(previous)
            },
            None => None,
        }
    }
}

/// A deep copy of `v`.
fn copy_value(v: &Value) -> (r: Value)
    ensures
        r@ == v@,
    decreases v,
{
    match v {
        Value::Null => Value::Null,
        Value::Bool(b) => Value::Bool(*b),
        Value::Int32(i) => Value::Int32(*i),
        Value::Int64(i) => Value::Int64(*i),
        Value::Double(bits) => Value::Double(*bits),
        Value::Str(s) => Value::Str(s.clone()),
        Value::Array(a) => {
            let mut out: Vec<Value> = Vec::new();
            let n = a.len();
            let mut i: usize = 0;
            while i < n
                invariant
                    *v == Value::Array(*a),
                    n == a.len(),
                    i <= n,
                    out@.len() == i,
                    forall|j: int| 0 <= j < i ==> #[trigger] out@[j]@ == a@[j]@,
                decreases n - i,
            {
                proof {
                    assert(*v == Value::Array(*a));
                    assert(decreases_to!(*v => v->Array_0));
                    assert(decreases_to!(*a => a[i as int]));
                }
                let c = copy_value(&a[i]);
                out.push(c);
                i = i + 1;
            }
            let r = Value::Array(out);
            proof {
                assert(*v == Value::Array(*a));
                assert forall|j: int| 0 <= j < n implies #[trigger] (r@->Array_0)[j] == (v@->Array_0)[j] by {
                    assert(out@[j]@ == a@[j]@);
                }
                assert(r@->Array_0 =~= v@->Array_0);
            }
            r
        },
        Value::Doc(d) => Value::Doc(copy_document(d)),
        Value::ObjectId(b) => Value::ObjectId(*b),
        Value::Other(kind, raw) => Value::Other(*kind, raw.clone()),
    }
}

/// A deep copy of `d`.
fn copy_document(d: &Document) -> (r: Document)
    ensures
        r@ == d@,
    decreases d,
{
    let mut out: Vec<(String, Value)> = Vec::new();
    let n = d.entries.len();
    let mut i: usize = 0;
    while i < n
        invariant
            n == d.entries.len(),
            i <= n,
            out@.len() == i,
            forall|j: int|
                0 <= j < i ==> #[trigger] out@[j].0@ == d.entries@[j].0@ && out@[j].1@
                    == d.entries@[j].1@,
        decreases n - i,
    {
        proof {
            assert(decreases_to!(d => d.entries[i as int].1));
        }
        let k = d.entries[i].0.clone();
        let c = copy_value(&d.entries[i].1);
        out.push((k, c));
        i = i + 1;
    }
    let r = Document { entries: out };
    assert(r@ =~= d@);
    r
}

impl Clone for Value {
    fn clone(&self) -> (r: Value)
        ensures
            r@ == self@,
    {
        copy_value(self)
    }
}

impl Clone for Document {
    fn clone(&self) -> (r: Document)
        ensures
            r@ == self@,
    {
        copy_document(self)
    }
}

/// The name of a BSON element type code, as bson's `ElementType` prints it.
pub open spec fn element_type_code_name(kind: u8) -> Seq<char> {
    match kind {
            1u8 => "Double"@,
            2u8 => "String"@,
            3u8 => "EmbeddedDocument"@,
            4u8 => "Array"@,
            5u8 => "Binary"@,
            6u8 => "Undefined"@,
            7u8 => "ObjectId"@,
            8u8 => "Boolean"@,
            9u8 => "DateTime"@,
            10u8 => "Null"@,
            11u8 => "RegularExpression"@,
            12u8 => "DbPointer"@,
            13u8 => "JavaScriptCode"@,
            14u8 => "Symbol"@,
            15u8 => "JavaScriptCodeWithScope"@,
            16u8 => "Int32"@,
            17u8 => "Timestamp"@,
            18u8 => "Int64"@,
            19u8 => "Decimal128"@,
            127u8 => "MaxKey"@,
            255u8 => "MinKey"@,
            _ => "Unknown"@,
    }
}

/// The BSON element type of a value, as bson's `ElementType` prints it.
pub open spec fn element_type_name(v: ValueView) -> Seq<char> {
    match v {
        ValueView::Null => "Null"@,
        ValueView::Bool(_) => "Boolean"@,
        ValueView::Int32(_) => "Int32"@,
        ValueView::Int64(_) => "Int64"@,
        ValueView::Double(_) => "Double"@,
        ValueView::Str(_) => "String"@,
        ValueView::Array(_) => "Array"@,
        ValueView::Doc(_) => "EmbeddedDocument"@,
        ValueView::ObjectId(_) => "ObjectId"@,
        ValueView::Other(kind, _) => element_type_code_name(kind),
    }
}

fn code_name(kind: u8) -> (r: String)
    ensures
        r@ == element_type_code_name(kind),
{
    match kind {
            1u8 => String::from_str("Double"),
            2u8 => String::from_str("String"),
            3u8 => String::from_str("EmbeddedDocument"),
            4u8 => String::from_str("Array"),
            5u8 => String::from_str("Binary"),
            6u8 => String::from_str("Undefined"),
            7u8 => String::from_str("ObjectId"),
            8u8 => String::from_str("Boolean"),
            9u8 => String::from_str("DateTime"),
            10u8 => String::from_str("Null"),
            11u8 => String::from_str("RegularExpression"),
            12u8 => String::from_str("DbPointer"),
            13u8 => String::from_str("JavaScriptCode"),
            14u8 => String::from_str("Symbol"),
            15u8 => String::from_str("JavaScriptCodeWithScope"),
            16u8 => String::from_str("Int32"),
            17u8 => String::from_str("Timestamp"),
            18u8 => String::from_str("Int64"),
            19u8 => String::from_str("Decimal128"),
            127u8 => String::from_str("MaxKey"),
            255u8 => String::from_str("MinKey"),
            _ => String::from_str("Unknown"),
    }
}

impl Value {
    /// The name of the value's BSON element type.
    pub fn element_type(&self) -> (r: String)
        ensures
            r@ == element_type_name(self@),
    {
        match self {
            Value::Null => String::from_str("Null"),
            Value::Bool(_) => String::from_str("Boolean"),
            Value::Int32(_) => String::from_str("Int32"),
            Value::Int64(_) => String::from_str("Int64"),
            Value::Double(_) => String::from_str("Double"),
            Value::Str(_) => String::from_str("String"),
            Value::Array(_) => String::from_str("Array"),
            Value::Doc(_) => String::from_str("EmbeddedDocument"),
            Value::ObjectId(_) => String::from_str("ObjectId"),
            Value::Other(kind, _) => code_name(*kind),
        }
    }

    /// The string inside, when the value is a string (`serde_json`'s `as_str`).
    pub fn as_str(&self) -> (r: Option<&String>)
        ensures
            match r {
                Some(s) => self@ == ValueView::Str(s@),
                None => !(self@ is Str),
            },
    {
        match self {
            Value::Str(s) => Some(s),
            _ => None,
        }
    }

    /// The document inside, when the value is a document.
    pub fn as_document(&self) -> (r: Option<&Document>)
        ensures
            match r {
                Some(d) => self@ == ValueView::Doc(d@),
                None => !(self@ is Doc),
            },
    {
        match self {
            Value::Doc(d) => Some(d),
            _ => None,
        }
    }

    /// The member `key` of an object; `None` for a missing member or a
    /// value that is not an object.
    pub fn field(&self, key: &String) -> (r: Option<&Value>)
        requires
            view_wf(self@),
        ensures
            match r {
                Some(v) => self@ matches ValueView::Doc(es) && lookup(es, key@) == Some(v@),
                None => !(self@ matches ValueView::Doc(es) && has_key(es, key@)),
            },
    {
        match self {
            Value::Doc(d) => d.get(key),
            _ => None,
        }
    }
}

} // verus!
