//! The decoded vector-tile model: typed property values, insertion-ordered
//! property maps, features, layers, and tiles.

use vstd::prelude::*;

use crate::utils::strings::int_str;
use crate::utils::strings::dec_str;
use crate::utils::strings::i64_to_string;
use crate::utils::strings::u64_to_string;

verus! {

/// A typed property value of a vector-tile feature or a tabular data row.
#[derive(Debug, PartialEq, Eq)]
pub enum GeoValue {
    Text(String),
    Int(i64),
    UInt(u64),
    Bool(bool),
    Null,
}

/// The mathematical shape of a property value.
pub enum GeoValueV {
    Text(Seq<char>),
    Int(i64),
    UInt(u64),
    Bool(bool),
    Null,
}

impl GeoValue {
    pub open spec fn deep(self) -> GeoValueV {
        match self {
            GeoValue::Text(s) => GeoValueV::Text(s@),
            GeoValue::Int(i) => GeoValueV::Int(i),
            GeoValue::UInt(u) => GeoValueV::UInt(u),
            GeoValue::Bool(b) => GeoValueV::Bool(b),
            GeoValue::Null => GeoValueV::Null,
        }
    }

    /// The canonical text of a value: text stays itself, booleans are
    /// `true`/`false`, the absent value is `null`, integers are decimal.
    pub fn stringify(&self) -> (r: String)
        ensures
            r@ == spec_stringify(self.deep()),
    {
        match self {
            GeoValue::Text(s) => s.clone(),
            GeoValue::Int(i) => i64_to_string(*i),
            GeoValue::UInt(u) => u64_to_string(*u),
            GeoValue::Bool(b) => {
                let t: &str = if *b {
                    "true"
                } else {
                    "false"
                };
                t.to_owned()
            },
            GeoValue::Null => {
                let t: &str = "null";
                t.to_owned()
            },
        }
    }
}

impl Clone for GeoValue {
    fn clone(&self) -> (r: GeoValue)
        ensures
            r == *self,
    {
        match self {
            GeoValue::Text(s) => GeoValue::Text(s.clone()),
            GeoValue::Int(i) => GeoValue::Int(*i),
            GeoValue::UInt(u) => GeoValue::UInt(*u),
            GeoValue::Bool(b) => GeoValue::Bool(*b),
            GeoValue::Null => GeoValue::Null,
        }
    }
}

/// The canonical text of a value.
pub open spec fn spec_stringify(v: GeoValueV) -> Seq<char> {
    match v {
        GeoValueV::Text(s) => s,
        GeoValueV::Int(i) => int_str(i as int),
        GeoValueV::UInt(u) => dec_str(u as nat),
        GeoValueV::Bool(b) => if b {
            "true"@
        } else {
            "false"@
        },
        GeoValueV::Null => "null"@,
    }
}

/// An insertion-ordered map from property keys to values.
#[derive(Debug, PartialEq, Eq)]
pub struct GeoProperties {
    entries: Vec<(String, GeoValue)>,
}

/// The view of one property entry.
pub open spec fn geo_entry_view(e: (String, GeoValue)) -> (Seq<char>, GeoValueV) {
    (e.0@, e.1.deep())
}

impl View for GeoProperties {
    type V = Seq<(Seq<char>, GeoValueV)>;

    closed spec fn view(&self) -> Seq<(Seq<char>, GeoValueV)> {
        Seq::new(self.entries@.len(), |i: int| geo_entry_view(self.entries@[i]))
    }
}

/// The value of a key in an entry list: the first entry that holds it.
pub open spec fn spec_props_get(entries: Seq<(Seq<char>, GeoValueV)>, key: Seq<char>) -> Option<
    GeoValueV,
>
    decreases entries.len(),
{
    if entries.len() == 0 {
        None
    } else if entries[0].0 == key {
        Some(entries[0].1)
    } else {
        spec_props_get(entries.subrange(1, entries.len() as int), key)
    }
}

/// An entry list after setting a key: an existing entry keeps its place,
/// a new key goes to the end.
pub open spec fn spec_props_set(
    entries: Seq<(Seq<char>, GeoValueV)>,
    key: Seq<char>,
    value: GeoValueV,
) -> Seq<(Seq<char>, GeoValueV)>
    decreases entries.len(),
{
    if entries.len() == 0 {
        seq![(key, value)]
    } else if entries[0].0 == key {
        seq![(key, value)] + entries.subrange(1, entries.len() as int)
    } else {
        seq![entries[0]] + spec_props_set(entries.subrange(1, entries.len() as int), key, value)
    }
}

/// An entry list with a key removed (every entry that holds it).
pub open spec fn spec_props_remove(entries: Seq<(Seq<char>, GeoValueV)>, key: Seq<char>) -> Seq<
    (Seq<char>, GeoValueV),
>
    decreases entries.len(),
{
    if entries.len() == 0 {
        entries
    } else if entries[0].0 == key {
        spec_props_remove(entries.subrange(1, entries.len() as int), key)
    } else {
        seq![entries[0]] + spec_props_remove(entries.subrange(1, entries.len() as int), key)
    }
}

/// One map updated with every entry of another, first to last.
pub open spec fn spec_props_update(
    a: Seq<(Seq<char>, GeoValueV)>,
    b: Seq<(Seq<char>, GeoValueV)>,
) -> Seq<(Seq<char>, GeoValueV)>
    decreases b.len(),
{
    if b.len() == 0 {
        a
    } else {
        spec_props_update(spec_props_set(a, b[0].0, b[0].1), b.subrange(1, b.len() as int))
    }
}

impl GeoProperties {
    /// A map holding the given entries as they stand, in order.
    pub fn from_entries(entries: Vec<(String, GeoValue)>) -> (r: GeoProperties)
        ensures
            r@ == props_entries_view(entries@),
    {
        let ghost v = entries@;
        let r = GeoProperties { entries };
        proof {
            assert(r@ =~= props_entries_view(v));
        }
        r
    }

    /// The empty map.
    pub fn new() -> (r: GeoProperties)
        ensures
            r@ == Seq::<(Seq<char>, GeoValueV)>::empty(),
    {
        let r = GeoProperties { entries: Vec::new() };
        proof {
            assert(r@ =~= Seq::<(Seq<char>, GeoValueV)>::empty());
        }
        r
    }

    pub fn len(&self) -> (r: usize)
        ensures
            r == self@.len(),
    {
        self.entries.len()
    }

    pub fn is_empty(&self) -> (r: bool)
        ensures
            r == (self@.len() == 0),
    {
        self.entries.len() == 0
    }

    /// The entries in insertion order.
    pub fn as_entries(&self) -> (r: &Vec<(String, GeoValue)>)
        ensures
            r@.len() == self@.len(),
            forall|i: int| 0 <= i < r@.len() ==> geo_entry_view(#[trigger] r@[i]) == self@[i],
    {
        &self.entries
    }

    /// The value of a key, if the map holds it.
    pub fn get(&self, key: &str) -> (r: Option<&GeoValue>)
        ensures
            r matches Some(v) ==> spec_props_get(self@, key@) == Some(v.deep()),
            r is None ==> spec_props_get(self@, key@) is None,
    {
        let key_owned = key.to_owned();
        let n = self.entries.len();
        let mut i: usize = 0;
        proof {
            assert(self@.subrange(0, n as int) =~= self@);
        }
        while i < n
            invariant
                i <= n,
                n == self.entries@.len(),
                key_owned@ == key@,
                spec_props_get(self@, key@) == spec_props_get(
                    self@.subrange(i as int, n as int),
                    key@,
                ),
            decreases n - i,
        {
            let ghost pre = self@.subrange(i as int, n as int);
            proof {
                assert(pre[0] == self@[i as int]);
                assert(self@[i as int] == geo_entry_view(self.entries@[i as int]));
                assert(pre.subrange(1, pre.len() as int) =~= self@.subrange(i + 1, n as int));
            }
            if self.entries[i].0 == key_owned {
                proof {
                    assert(self.entries@[i as int].0@ == key@);
                    assert(pre[0].0 == key@);
                    assert(spec_props_get(pre, key@) == Some(pre[0].1));
                }
                return Some(&self.entries[i].1);
            }
            proof {
                assert(self.entries@[i as int].0@ != key@);
                assert(pre[0].0 != key@);
                assert(spec_props_get(pre, key@) == spec_props_get(
                    pre.subrange(1, pre.len() as int),
                    key@,
                ));
            }
            i = i + 1;
        }
        proof {
            assert(self@.subrange(n as int, n as int) =~= Seq::<(Seq<char>, GeoValueV)>::empty());
        }
        None
    }

    /// Sets a key to a value; an existing entry keeps its place, a new key
    /// goes to the end.
    pub fn insert(&mut self, key: String, value: GeoValue)
        ensures
            final(self)@ == spec_props_set(old(self)@, key@, value.deep()),
    {
        let ghost orig = self@;
        let n = self.entries.len();
        let mut i: usize = 0;
        while i < n
            invariant
                i <= n,
                n == self.entries@.len(),
                orig == self@,
                orig == old(self)@,
                forall|j: int| 0 <= j < i ==> (#[trigger] self@[j]).0 != key@,
            decreases n - i,
        {
            if self.entries[i].0 == key {
                let ghost val_view = value.deep();
                let (_, _old_val) = self.entries.remove(i);
                self.entries.insert(i, (key, value));
                proof {
                    lemma_props_set_found(orig, key@, val_view, i as int);
                    assert(self@ =~~= orig.update(i as int, (key@, val_view)));
                }
                return ;
            }
            i = i + 1;
        }
        let ghost val_view = value.deep();
        self.entries.push((key, value));
        proof {
            lemma_props_set_missing(orig, key@, val_view);
            assert(self@ =~~= orig.push((key@, val_view)));
        }
    }

    /// Removes a key and hands back whether it was present.
    pub fn remove(&mut self, key: &str) -> (r: bool)
        ensures
            final(self)@ == spec_props_remove(old(self)@, key@),
            r == (spec_props_get(old(self)@, key@) is Some),
    {
        let key_owned = key.to_owned();
        let ghost orig = self@;
        let mut kept: Vec<(String, GeoValue)> = Vec::new();
        let mut found = false;
        let n = self.entries.len();
        let mut i: usize = 0;
        proof {
            assert(orig.subrange(0, n as int) =~= orig);
            assert(props_entries_view(kept@) =~= Seq::<(Seq<char>, GeoValueV)>::empty());
            assert(props_entries_view(kept@) + spec_props_remove(orig, key@) =~= spec_props_remove(
                orig,
                key@,
            ));
        }
        while i < n
            invariant
                i <= n,
                n == self.entries@.len(),
                orig == self@,
                orig == old(self)@,
                key_owned@ == key@,
                props_entries_view(kept@) + spec_props_remove(
                    orig.subrange(i as int, n as int),
                    key@,
                ) =~= spec_props_remove(orig, key@),
                !found ==> spec_props_get(orig.subrange(i as int, n as int), key@)
                    == spec_props_get(orig, key@),
                found ==> spec_props_get(orig, key@) is Some,
            decreases n - i,
        {
            let ghost pre = orig.subrange(i as int, n as int);
            proof {
                assert(pre[0] == orig[i as int]);
                assert(pre.subrange(1, pre.len() as int) =~= orig.subrange(i + 1, n as int));
            }
            let e = &self.entries[i];
            if e.0 == key_owned {
                found = true;
            } else {
                let cloned = (e.0.clone(), e.1.clone());
                proof {
                    assert(props_entries_view(kept@.push(cloned)) =~= props_entries_view(
                        kept@,
                    ).push(geo_entry_view(cloned)));
                }
                kept.push(cloned);
            }
            i = i + 1;
        }
        proof {
            assert(orig.subrange(n as int, n as int) =~= Seq::<(Seq<char>, GeoValueV)>::empty());
            assert(props_entries_view(kept@) + spec_props_remove(
                orig.subrange(n as int, n as int),
                key@,
            ) =~= props_entries_view(kept@));
        }
        self.entries = kept;
        found
    }

    /// Updates this map with every entry of another, first to last.
    pub fn update(&mut self, other: GeoProperties)
        ensures
            final(self)@ == spec_props_update(old(self)@, other@),
    {
        let ghost other_view = other@;
        let mut rest = other.entries;
        proof {
            assert(props_entries_view(rest@) =~= other_view);
        }
        while rest.len() > 0
            invariant
                spec_props_update(self@, props_entries_view(rest@)) == spec_props_update(
                    old(self)@,
                    other_view,
                ),
            decreases rest@.len(),
        {
            let ghost rest0 = props_entries_view(rest@);
            let (k, v) = rest.remove(0);
            proof {
                assert(rest0[0] == geo_entry_view((k, v)));
                assert(props_entries_view(rest@) =~~= rest0.subrange(1, rest0.len() as int));
            }
            self.insert(k, v);
        }
        proof {
            assert(props_entries_view(rest@) =~= Seq::<(Seq<char>, GeoValueV)>::empty());
        }
    }
}

impl Clone for GeoProperties {
    fn clone(&self) -> (r: GeoProperties)
        ensures
            r@ == self@,
    {
        let n = self.entries.len();
        let mut entries: Vec<(String, GeoValue)> = Vec::new();
        let mut i: usize = 0;
        while i < n
            invariant
                i <= n,
                n == self.entries@.len(),
                entries@.len() == i,
                forall|j: int|
                    0 <= j < i ==> geo_entry_view(#[trigger] entries@[j]) == geo_entry_view(
                        self.entries@[j],
                    ),
            decreases n - i,
        {
            let e = &self.entries[i];
            entries.push((e.0.clone(), e.1.clone()));
            i = i + 1;
        }
        let r = GeoProperties { entries };
        proof {
            assert(r@ =~= self@);
        }
        r
    }
}

/// The views of raw property entries.
pub open spec fn props_entries_view(v: Seq<(String, GeoValue)>) -> Seq<(Seq<char>, GeoValueV)> {
    Seq::new(v.len(), |i: int| geo_entry_view(v[i]))
}

proof fn lemma_props_set_found(
    entries: Seq<(Seq<char>, GeoValueV)>,
    key: Seq<char>,
    value: GeoValueV,
    i: int,
)
    requires
        0 <= i < entries.len(),
        entries[i].0 == key,
        forall|j: int| 0 <= j < i ==> entries[j].0 != key,
    ensures
        spec_props_set(entries, key, value) == entries.update(i, (key, value)),
    decreases i,
{
    let sub = entries.subrange(1, entries.len() as int);
    if i == 0 {
        assert(spec_props_set(entries, key, value) =~= entries.update(0, (key, value)));
    } else {
        lemma_props_set_found(sub, key, value, i - 1);
        assert(seq![entries[0]] + sub.update(i - 1, (key, value)) =~= entries.update(
            i,
            (key, value),
        ));
    }
}

proof fn lemma_props_set_missing(
    entries: Seq<(Seq<char>, GeoValueV)>,
    key: Seq<char>,
    value: GeoValueV,
)
    requires
        forall|j: int| 0 <= j < entries.len() ==> entries[j].0 != key,
    ensures
        spec_props_set(entries, key, value) == entries.push((key, value)),
    decreases entries.len(),
{
    if entries.len() == 0 {
        assert(spec_props_set(entries, key, value) =~= entries.push((key, value)));
    } else {
        let sub = entries.subrange(1, entries.len() as int);
        lemma_props_set_missing(sub, key, value);
        assert(seq![entries[0]] + sub.push((key, value)) =~= entries.push((key, value)));
    }
}

} // verus!

verus! {

/// The keys of an entry list, in order.
pub open spec fn props_keys(p: Seq<(Seq<char>, GeoValueV)>) -> Seq<Seq<char>> {
    Seq::new(p.len(), |i: int| p[i].0)
}

/// A well-formed property map holds each key once.
pub open spec fn props_distinct(p: Seq<(Seq<char>, GeoValueV)>) -> bool {
    forall|i: int, j: int| 0 <= i < j < p.len() ==> (#[trigger] p[i]).0 != (#[trigger] p[j]).0
}

/// The value of a key's last entry; what an update leaves behind for it.
pub open spec fn spec_props_last_get(
    p: Seq<(Seq<char>, GeoValueV)>,
    key: Seq<char>,
) -> Option<GeoValueV>
    decreases p.len(),
{
    if p.len() == 0 {
        None
    } else {
        match spec_props_last_get(p.subrange(1, p.len() as int), key) {
            Some(v) => Some(v),
            None => if p[0].0 == key {
                Some(p[0].1)
            } else {
                None
            },
        }
    }
}

/// What a set makes of any lookup.
pub proof fn lemma_get_of_set(
    a: Seq<(Seq<char>, GeoValueV)>,
    k: Seq<char>,
    v: GeoValueV,
    q: Seq<char>,
)
    ensures
        spec_props_get(spec_props_set(a, k, v), q) == if q == k {
            Some(v)
        } else {
            spec_props_get(a, q)
        },
    decreases a.len(),
{
    let s = spec_props_set(a, k, v);
    if a.len() == 0 {
        assert(s =~= seq![(k, v)]);
        assert(s.subrange(1, s.len() as int) =~= Seq::<(Seq<char>, GeoValueV)>::empty());
        assert(s[0].0 == k);
        if q == k {
            assert(spec_props_get(s, q) == Some(v));
        } else {
            assert(spec_props_get(s, q) == spec_props_get(
                s.subrange(1, s.len() as int),
                q,
            ));
        }
    } else {
        let tail = a.subrange(1, a.len() as int);
        if a[0].0 == k {
            assert(s.subrange(1, s.len() as int) =~= tail);
            assert(s[0] == (k, v));
            if q == k {
                assert(spec_props_get(s, q) == Some(v));
            } else {
                assert(spec_props_get(s, q) == spec_props_get(tail, q));
                assert(spec_props_get(a, q) == spec_props_get(tail, q));
            }
        } else {
            lemma_get_of_set(tail, k, v, q);
            assert(s.subrange(1, s.len() as int) =~= spec_props_set(tail, k, v));
            assert(s[0] == a[0]);
            if q == a[0].0 {
                assert(spec_props_get(s, q) == Some(a[0].1));
                assert(spec_props_get(a, q) == Some(a[0].1));
            } else {
                assert(spec_props_get(s, q) == spec_props_get(spec_props_set(tail, k, v), q));
                assert(spec_props_get(a, q) == spec_props_get(tail, q));
            }
        }
    }
}

/// What an update makes of any lookup: the updating map's last entry for
/// the key wins; the base map answers for the rest.
pub proof fn lemma_get_of_update(
    a: Seq<(Seq<char>, GeoValueV)>,
    b: Seq<(Seq<char>, GeoValueV)>,
    q: Seq<char>,
)
    ensures
        spec_props_get(spec_props_update(a, b), q) == (match spec_props_last_get(b, q) {
            Some(v) => Some(v),
            None => spec_props_get(a, q),
        }),
    decreases b.len(),
{
    if b.len() == 0 {
    } else {
        let tail = b.subrange(1, b.len() as int);
        let a2 = spec_props_set(a, b[0].0, b[0].1);
        lemma_get_of_update(a2, tail, q);
        lemma_get_of_set(a, b[0].0, b[0].1, q);
    }
}

/// A key's first entry index in a map that holds it.
proof fn lemma_first_key_index(p: Seq<(Seq<char>, GeoValueV)>, q: Seq<char>)
    requires
        spec_props_get(p, q) is Some,
    ensures
        exists|i: int|
            0 <= i < p.len() && (#[trigger] p[i]).0 == q && (forall|j: int|
                0 <= j < i ==> (#[trigger] p[j]).0 != q),
    decreases p.len(),
{
    if p[0].0 == q {
        assert(p[0].0 == q && (forall|j: int| 0 <= j < 0 ==> (#[trigger] p[j]).0 != q));
    } else {
        let tail = p.subrange(1, p.len() as int);
        assert(spec_props_get(tail, q) is Some);
        lemma_first_key_index(tail, q);
        let i = choose|i: int|
            0 <= i < tail.len() && (#[trigger] tail[i]).0 == q && (forall|j: int|
                0 <= j < i ==> (#[trigger] tail[j]).0 != q);
        assert(p[i + 1] == tail[i]);
        assert(p[i + 1].0 == q);
        assert forall|j: int| 0 <= j < i + 1 implies (#[trigger] p[j]).0 != q by {
            if j > 0 {
                assert(p[j] == tail[j - 1]);
                assert(tail[j - 1].0 != q);
            }
        }
    }
}

/// A lookup hits exactly the keys the map holds.
pub proof fn lemma_get_some_iff_key(p: Seq<(Seq<char>, GeoValueV)>, q: Seq<char>)
    ensures
        (spec_props_get(p, q) is Some) <==> (exists|i: int|
            0 <= i < p.len() && (#[trigger] p[i]).0 == q),
    decreases p.len(),
{
    if p.len() == 0 {
    } else {
        let tail = p.subrange(1, p.len() as int);
        lemma_get_some_iff_key(tail, q);
        if p[0].0 == q {
            assert(p[0].0 == q);
        } else {
            if exists|i: int| 0 <= i < tail.len() && (#[trigger] tail[i]).0 == q {
                let i = choose|i: int| 0 <= i < tail.len() && (#[trigger] tail[i]).0 == q;
                assert(p[i + 1].0 == q);
            }
            if exists|i: int| 0 <= i < p.len() && (#[trigger] p[i]).0 == q {
                let i = choose|i: int| 0 <= i < p.len() && (#[trigger] p[i]).0 == q;
                assert(tail[i - 1].0 == q);
            }
        }
    }
}

/// The last entry exists exactly where any entry does.
pub proof fn lemma_last_get_some_iff_key(p: Seq<(Seq<char>, GeoValueV)>, q: Seq<char>)
    ensures
        (spec_props_last_get(p, q) is Some) <==> (exists|i: int|
            0 <= i < p.len() && (#[trigger] p[i]).0 == q),
    decreases p.len(),
{
    if p.len() == 0 {
    } else {
        let tail = p.subrange(1, p.len() as int);
        lemma_last_get_some_iff_key(tail, q);
        if spec_props_last_get(tail, q) is Some {
            let i = choose|i: int| 0 <= i < tail.len() && (#[trigger] tail[i]).0 == q;
            assert(p[i + 1].0 == q);
        } else if p[0].0 == q {
            assert(p[0].0 == q);
        } else {
            if exists|i: int| 0 <= i < p.len() && (#[trigger] p[i]).0 == q {
                let i = choose|i: int| 0 <= i < p.len() && (#[trigger] p[i]).0 == q;
                assert(tail[i - 1].0 == q);
            }
        }
    }
}

/// Setting a key keeps the key order: a held key is overwritten in place,
/// a fresh one goes to the end.
pub proof fn lemma_keys_of_set(a: Seq<(Seq<char>, GeoValueV)>, k: Seq<char>, v: GeoValueV)
    ensures
        props_keys(spec_props_set(a, k, v)) == if exists|i: int|
            0 <= i < a.len() && (#[trigger] a[i]).0 == k {
            props_keys(a)
        } else {
            props_keys(a).push(k)
        },
    decreases a.len(),
{
    let s = spec_props_set(a, k, v);
    if a.len() == 0 {
        assert(props_keys(s) =~= props_keys(a).push(k));
    } else {
        let tail = a.subrange(1, a.len() as int);
        if a[0].0 == k {
            assert(s.subrange(1, s.len() as int) =~= tail);
            assert(props_keys(s) =~= props_keys(a));
            assert(a[0].0 == k);
        } else {
            lemma_keys_of_set(tail, k, v);
            let st = spec_props_set(tail, k, v);
            assert(s.subrange(1, s.len() as int) =~= st);
            if exists|i: int| 0 <= i < tail.len() && (#[trigger] tail[i]).0 == k {
                let i = choose|i: int| 0 <= i < tail.len() && (#[trigger] tail[i]).0 == k;
                assert(a[i + 1] == tail[i]);
                assert(a[i + 1].0 == k);
                assert(props_keys(st) == props_keys(tail));
                assert forall|m: int| 0 <= m < s.len() implies #[trigger] props_keys(s)[m]
                    == props_keys(a)[m] by {
                    if m > 0 {
                        assert(s[m] == st[m - 1]);
                        assert(props_keys(st)[m - 1] == props_keys(tail)[m - 1]);
                        assert(tail[m - 1] == a[m]);
                    }
                }
                assert(props_keys(s) =~= props_keys(a));
            } else {
                assert forall|i: int| 0 <= i < a.len() implies (#[trigger] a[i]).0 != k by {
                    if i > 0 {
                        assert(a[i] == tail[i - 1]);
                        if a[i].0 == k {
                            assert(tail[i - 1].0 == k);
                        }
                    }
                }
                assert(props_keys(st) == props_keys(tail).push(k));
                assert forall|m: int| 0 <= m < s.len() implies #[trigger] props_keys(s)[m]
                    == props_keys(a).push(k)[m] by {
                    if m > 0 {
                        assert(s[m] == st[m - 1]);
                        assert(props_keys(st)[m - 1] == props_keys(tail).push(k)[m - 1]);
                        if m < a.len() {
                            assert(tail[m - 1] == a[m]);
                        }
                    }
                }
                assert(props_keys(s) =~= props_keys(a).push(k));
            }
        }
    }
}

/// Setting a key keeps the map well formed.
pub proof fn lemma_set_distinct(a: Seq<(Seq<char>, GeoValueV)>, k: Seq<char>, v: GeoValueV)
    requires
        props_distinct(a),
    ensures
        props_distinct(spec_props_set(a, k, v)),
{
    lemma_keys_of_set(a, k, v);
    let s = spec_props_set(a, k, v);
    if exists|i: int| 0 <= i < a.len() && (#[trigger] a[i]).0 == k {
        assert(props_keys(s) == props_keys(a));
        assert(props_keys(s).len() == s.len() && props_keys(a).len() == a.len());
        assert forall|i: int, j: int| 0 <= i < j < s.len() implies (#[trigger] s[i]).0 != (
        #[trigger] s[j]).0 by {
            assert(s[i].0 == props_keys(s)[i] && s[j].0 == props_keys(s)[j]);
            assert(props_keys(a)[i] == a[i].0 && props_keys(a)[j] == a[j].0);
        }
    } else {
        assert(props_keys(s) == props_keys(a).push(k));
        assert(props_keys(s).len() == s.len() && props_keys(a).len() == a.len());
        assert forall|i: int, j: int| 0 <= i < j < s.len() implies (#[trigger] s[i]).0 != (
        #[trigger] s[j]).0 by {
            assert(s[i].0 == props_keys(s)[i] && s[j].0 == props_keys(s)[j]);
            if j < a.len() {
                assert(props_keys(a)[i] == a[i].0 && props_keys(a)[j] == a[j].0);
            } else {
                assert(props_keys(s)[j] == k);
                assert(props_keys(a)[i] == a[i].0);
                assert(a[i].0 != k);
            }
        }
    }
}

} // verus!

verus! {

/// Updating keeps the map well formed.
pub proof fn lemma_update_distinct(a: Seq<(Seq<char>, GeoValueV)>, b: Seq<(Seq<char>, GeoValueV)>)
    requires
        props_distinct(a),
    ensures
        props_distinct(spec_props_update(a, b)),
    decreases b.len(),
{
    if b.len() > 0 {
        lemma_set_distinct(a, b[0].0, b[0].1);
        lemma_update_distinct(
            spec_props_set(a, b[0].0, b[0].1),
            b.subrange(1, b.len() as int),
        );
    }
}

/// Updating with keys the map already holds keeps the key order.
pub proof fn lemma_keys_of_update(a: Seq<(Seq<char>, GeoValueV)>, b: Seq<(Seq<char>, GeoValueV)>)
    requires
        forall|i: int|
            0 <= i < b.len() ==> spec_props_get(a, (#[trigger] b[i]).0) is Some,
    ensures
        props_keys(spec_props_update(a, b)) == props_keys(a),
    decreases b.len(),
{
    if b.len() > 0 {
        let a2 = spec_props_set(a, b[0].0, b[0].1);
        lemma_keys_of_set(a, b[0].0, b[0].1);
        lemma_get_some_iff_key(a, b[0].0);
        assert(props_keys(a2) == props_keys(a));
        let tail = b.subrange(1, b.len() as int);
        assert forall|i: int|
            0 <= i < tail.len() implies spec_props_get(a2, (#[trigger] tail[i]).0) is Some by {
            assert(tail[i] == b[i + 1]);
            assert(spec_props_get(a, b[i + 1].0) is Some);
            lemma_get_of_set(a, b[0].0, b[0].1, tail[i].0);
        }
        lemma_keys_of_update(a2, tail);
    }
}

/// Two well-formed maps with one key order and one answer for every key
/// are the same map.
pub proof fn lemma_props_eq_by_keys_get(
    x: Seq<(Seq<char>, GeoValueV)>,
    y: Seq<(Seq<char>, GeoValueV)>,
)
    requires
        props_distinct(x),
        props_distinct(y),
        props_keys(x) == props_keys(y),
        forall|q: Seq<char>| #[trigger] spec_props_get(x, q) == spec_props_get(y, q),
    ensures
        x == y,
    decreases x.len(),
{
    assert(props_keys(x).len() == x.len());
    assert(props_keys(y).len() == y.len());
    assert(x.len() == y.len());
    if x.len() == 0 {
        assert(x =~= y);
    } else {
        assert(props_keys(x)[0] == props_keys(y)[0]);
        assert(x[0].0 == y[0].0);
        assert(spec_props_get(x, x[0].0) == Some(x[0].1));
        assert(spec_props_get(y, y[0].0) == Some(y[0].1));
        assert(x[0] == y[0]);
        let xt = x.subrange(1, x.len() as int);
        let yt = y.subrange(1, y.len() as int);
        assert forall|q: Seq<char>| #[trigger] spec_props_get(xt, q) == spec_props_get(
            yt,
            q,
        ) by {
            if q == x[0].0 {
                lemma_get_some_iff_key(xt, q);
                lemma_get_some_iff_key(yt, q);
                if exists|i: int| 0 <= i < xt.len() && (#[trigger] xt[i]).0 == q {
                    let i = choose|i: int| 0 <= i < xt.len() && (#[trigger] xt[i]).0 == q;
                    assert(x[i + 1] == xt[i]);
                    assert(false);
                }
                if exists|i: int| 0 <= i < yt.len() && (#[trigger] yt[i]).0 == q {
                    let i = choose|i: int| 0 <= i < yt.len() && (#[trigger] yt[i]).0 == q;
                    assert(y[i + 1] == yt[i]);
                    assert(false);
                }
            } else {
                assert(x[0].0 != q && y[0].0 != q);
                assert(spec_props_get(x, q) == spec_props_get(
                    x.subrange(1, x.len() as int),
                    q,
                ));
                assert(spec_props_get(y, q) == spec_props_get(
                    y.subrange(1, y.len() as int),
                    q,
                ));
            }
        }
        assert forall|m: int| 0 <= m < xt.len() implies #[trigger] props_keys(xt)[m]
            == props_keys(yt)[m] by {
            assert(xt[m] == x[m + 1] && yt[m] == y[m + 1]);
            assert(props_keys(x)[m + 1] == props_keys(y)[m + 1]);
        }
        assert(props_keys(xt) =~= props_keys(yt));
        lemma_props_eq_by_keys_get(xt, yt);
        assert forall|i: int| 0 <= i < x.len() implies #[trigger] x[i] == y[i] by {
            if i > 0 {
                assert(x[i] == xt[i - 1]);
                assert(yt[i - 1] == y[i]);
            }
        }
        assert(x =~= y);
    }
}

/// In a well-formed map the last entry of a key is its only one.
pub proof fn lemma_last_get_eq_get(p: Seq<(Seq<char>, GeoValueV)>, q: Seq<char>)
    requires
        props_distinct(p),
    ensures
        spec_props_last_get(p, q) == spec_props_get(p, q),
    decreases p.len(),
{
    if p.len() == 0 {
    } else {
        let tail = p.subrange(1, p.len() as int);
        lemma_last_get_eq_get(tail, q);
        if p[0].0 == q {
            lemma_get_some_iff_key(tail, q);
            if exists|i: int| 0 <= i < tail.len() && (#[trigger] tail[i]).0 == q {
                let i = choose|i: int| 0 <= i < tail.len() && (#[trigger] tail[i]).0 == q;
                assert(p[i + 1] == tail[i]);
                assert(false);
            }
        }
    }
}

/// Updating twice with one map changes nothing after the first time.
pub proof fn lemma_update_idempotent(
    a: Seq<(Seq<char>, GeoValueV)>,
    b: Seq<(Seq<char>, GeoValueV)>,
)
    requires
        props_distinct(a),
    ensures
        spec_props_update(spec_props_update(a, b), b) == spec_props_update(a, b),
{
    let x = spec_props_update(a, b);
    lemma_update_distinct(a, b);
    lemma_update_distinct(x, b);
    assert forall|i: int|
        0 <= i < b.len() implies spec_props_get(x, (#[trigger] b[i]).0) is Some by {
        lemma_get_of_update(a, b, b[i].0);
        lemma_last_get_some_iff_key(b, b[i].0);
    }
    lemma_keys_of_update(x, b);
    assert forall|q: Seq<char>| #[trigger] spec_props_get(spec_props_update(x, b), q)
        == spec_props_get(x, q) by {
        lemma_get_of_update(x, b, q);
        lemma_get_of_update(a, b, q);
    }
    lemma_props_eq_by_keys_get(spec_props_update(x, b), x);
}

} // verus!
