//! Tables in key order, each key once.
use vstd::prelude::*;

use crate::order::{total_order, Rank};
use crate::paths::{name_less, ImageName};

verus! {

/// `es` with the value of `k` set to `v`: an entry for `k` gets the new
/// value, and without one a new entry goes where the order puts it.
pub open spec fn put<K, V>(es: Seq<(K, V)>, k: K, v: V, less: spec_fn(K, K) -> bool) -> Seq<(K, V)>
    decreases es.len(),
{
    if es.len() == 0 {
        seq![(k, v)]
    } else if less(es[0].0, k) {
        seq![es[0]] + put(es.skip(1), k, v, less)
    } else if less(k, es[0].0) {
        seq![(k, v)] + es
    } else {
        seq![(es[0].0, v)] + es.skip(1)
    }
}

/// Whether the keys of `es` strictly increase.
pub open spec fn increasing<K, V>(es: Seq<(K, V)>, less: spec_fn(K, K) -> bool) -> bool {
    forall|i: int, j: int| 0 <= i < j < es.len() ==> less(#[trigger] es[i].0, #[trigger] es[j].0)
}

/// Where a new entry for `k` goes, or where the entry for it is.
pub open spec fn slot<K, V>(es: Seq<(K, V)>, k: K, less: spec_fn(K, K) -> bool, at: int) -> bool {
    &&& 0 <= at <= es.len()
    &&& forall|i: int| 0 <= i < at ==> less(#[trigger] es[i].0, k)
    &&& at < es.len() ==> !less(es[at].0, k)
}

/// What `put` does, by the slot of the key.
pub proof fn lemma_put_at<K, V>(
    es: Seq<(K, V)>,
    k: K,
    v: V,
    less: spec_fn(K, K) -> bool,
    at: int,
)
    requires
        slot(es, k, less, at),
    ensures
        put(es, k, v, less) == (if at < es.len() && !less(k, es[at].0) {
            es.update(at, (es[at].0, v))
        } else {
            es.insert(at, (k, v))
        }),
    decreases es.len(),
{
    let result = put(es, k, v, less);
    if es.len() == 0 {
        assert(result == es.insert(0, (k, v)));
    } else if at > 0 {
        assert(less(es[0].0, k));
        let rest = es.skip(1);
        assert forall|i: int| 0 <= i < at - 1 implies less(#[trigger] rest[i].0, k) by {
            assert(rest[i] == es[i + 1]);
        }
        lemma_put_at(rest, k, v, less, at - 1);
        if at < es.len() && !less(k, es[at].0) {
            assert(result == es.update(at, (es[at].0, v)));
        } else {
            assert(result == es.insert(at, (k, v)));
        }
    } else if less(k, es[0].0) {
        assert(result == es.insert(0, (k, v)));
    } else {
        assert(result == es.update(0, (es[0].0, v)));
    }
}

/// Setting a value keeps the keys in order.
pub proof fn lemma_put_increasing<K, V>(
    es: Seq<(K, V)>,
    k: K,
    v: V,
    less: spec_fn(K, K) -> bool,
    at: int,
)
    requires
        slot(es, k, less, at),
        increasing(es, less),
        forall|x: K, y: K, z: K| #[trigger] less(x, y) && #[trigger] less(y, z) ==> less(x, z),
    ensures
        increasing(put(es, k, v, less), less),
{
    lemma_put_at(es, k, v, less, at);
    let new = put(es, k, v, less);
    if at < es.len() && !less(k, es[at].0) {
        assert forall|i: int, j: int| 0 <= i < j < new.len() implies less(
            #[trigger] new[i].0,
            #[trigger] new[j].0,
        ) by {
            assert(new[i].0 == es[i].0);
            assert(new[j].0 == es[j].0);
        }
    } else {
        assert forall|i: int, j: int| 0 <= i < j < new.len() implies less(
            #[trigger] new[i].0,
            #[trigger] new[j].0,
        ) by {
            if j < at {
                assert(new[i] == es[i] && new[j] == es[j]);
            } else if j == at {
                assert(new[i] == es[i]);
            } else if i == at {
                assert(new[j] == es[j - 1]);
                assert(less(k, es[at].0));
                if j - 1 > at {
                    assert(less(es[at].0, es[j - 1].0));
                }
            } else if i < at {
                assert(new[i] == es[i] && new[j] == es[j - 1]);
            } else {
                assert(new[i] == es[i - 1] && new[j] == es[j - 1]);
            }
        }
    }
}

// ---------------------------------------------------------------------------
// Tables by image name
// ---------------------------------------------------------------------------

/// A table by image name.
#[derive(Debug)]
pub struct NameTable<V> {
    entries: Vec<(ImageName, V)>,
}

/// The order of image names.
pub open spec fn by_name() -> spec_fn(Seq<char>, Seq<char>) -> bool {
    |a: Seq<char>, b: Seq<char>| name_less(a, b)
}

/// The entries of a table by image name.
pub open spec fn name_entries<V>(es: Seq<(ImageName, V)>) -> Seq<(Seq<char>, V)> {
    Seq::new(es.len(), |i: int| (es[i].0@, es[i].1))
}

/// The value that the entries `es` have for `name`.
pub open spec fn value_of<V>(es: Seq<(Seq<char>, V)>, name: Seq<char>) -> Option<V>
    decreases es.len(),
{
    if es.len() == 0 {
        None
    } else if es[0].0 == name {
        Some(es[0].1)
    } else {
        value_of(es.skip(1), name)
    }
}

impl<V> View for NameTable<V> {
    type V = Seq<(Seq<char>, V)>;

    /// The entries in order.
    closed spec fn view(&self) -> Seq<(Seq<char>, V)> {
        name_entries(self.entries@)
    }
}

/// Image names are strictly and totally ordered.
pub proof fn lemma_name_order()
    ensures
        total_order(by_name()),
{
    let lt = by_name();
    let less = |a: Seq<u8>, b: Seq<u8>| crate::order::bytes_less(a, b);
    crate::order::lemma_bytes_order();
    assert forall|x: Seq<char>, y: Seq<char>| #[trigger] lt(x, y) implies !lt(y, x) && x != y by {
        assert(less(vstd::utf8::encode_utf8(x), vstd::utf8::encode_utf8(y)));
    }
    assert forall|x: Seq<char>, y: Seq<char>| x == y || #[trigger] lt(x, y) || lt(y, x) by {
        vstd::utf8::encode_utf8_decode_utf8(x);
        vstd::utf8::encode_utf8_decode_utf8(y);
        let a = vstd::utf8::encode_utf8(x);
        let b = vstd::utf8::encode_utf8(y);
        assert(a == b || less(a, b) || less(b, a));
    }
    assert forall|x: Seq<char>, y: Seq<char>, z: Seq<char>| #[trigger]
        lt(x, y) && #[trigger] lt(y, z) implies lt(x, z) by {
        let a = vstd::utf8::encode_utf8(x);
        let b = vstd::utf8::encode_utf8(y);
        let c = vstd::utf8::encode_utf8(z);
        assert(less(a, b) && less(b, c));
    }
}

proof fn lemma_value_of<V>(es: Seq<(Seq<char>, V)>, name: Seq<char>, at: int)
    requires
        0 <= at <= es.len(),
        forall|i: int| 0 <= i < at ==> (#[trigger] es[i]).0 != name,
        at < es.len() ==> es[at].0 == name,
    ensures
        value_of(es, name) == (if at < es.len() {
            Some(es[at].1)
        } else {
            None
        }),
    decreases es.len(),
{
    if es.len() > 0 && at > 0 {
        assert(es[0].0 != name);
        let rest = es.skip(1);
        assert forall|i: int| 0 <= i < at - 1 implies (#[trigger] rest[i]).0 != name by {
            assert(rest[i] == es[i + 1]);
        }
        lemma_value_of(rest, name, at - 1);
    }
}

/// The slot of `name`, and whether it is taken.
fn place<V>(entries: &Vec<(ImageName, V)>, name: &ImageName) -> (r: (usize, bool))
    ensures
        slot(name_entries(entries@), name@, by_name(), r.0 as int),
        r.1 ==> r.0 < entries@.len() && entries@[r.0 as int].0@ == name@,
        !r.1 && r.0 < entries@.len() ==> name_less(name@, entries@[r.0 as int].0@),
{
    let ghost es = name_entries(entries@);
    let ghost less = by_name();
    proof {
        lemma_name_order();
    }
    let mut at: usize = 0;
    while at < entries.len()
        invariant
            at <= entries@.len(),
            es == name_entries(entries@),
            less == by_name(),
            total_order(less),
            forall|i: int| 0 <= i < at ==> less(#[trigger] es[i].0, name@),
        decreases entries.len() - at,
    {
        match entries[at].0.rank(name) {
            Rank::Before => {
                assert(less(es[at as int].0, name@));
            },
            Rank::Same => {
                assert(!less(name@, name@));
                return (at, true);
            },
            Rank::After => {
                assert(less(name@, es[at as int].0));
                return (at, false);
            },
        }
        at += 1;
    }
    (at, false)
}

impl<V> NameTable<V> {
    #[verifier::type_invariant]
    spec fn ordered(&self) -> bool {
        increasing(name_entries(self.entries@), by_name())
    }

    /// A table without entries.
    pub fn new() -> (t: Self)
        ensures
            t@ == Seq::<(Seq<char>, V)>::empty(),
    {
        let t = NameTable { entries: Vec::new() };
        assert(name_entries(t.entries@) == Seq::<(Seq<char>, V)>::empty());
        t
    }

    /// The number of entries. They are in order, each name once.
    pub fn len(&self) -> (n: usize)
        ensures
            n == self@.len(),
            increasing(self@, by_name()),
    {
        proof {
            use_type_invariant(self);
        }
        self.entries.len()
    }

    /// The name of entry `i`.
    pub fn name(&self, i: usize) -> (name: &ImageName)
        requires
            i < self@.len(),
        ensures
            name@ == self@[i as int].0,
    {
        &self.entries[i].0
    }

    /// The value for `name`.
    pub fn get(&self, name: &ImageName) -> (v: Option<&V>)
        ensures
            v is Some <==> value_of(self@, name@) is Some,
            v is Some ==> *v->0 == value_of(self@, name@)->0,
    {
        let ghost es = self@;
        let mut i: usize = 0;
        while i < self.entries.len()
            invariant
                i <= self.entries@.len(),
                es == name_entries(self.entries@),
                es == self@,
                forall|j: int| 0 <= j < i ==> (#[trigger] es[j]).0 != name@,
            decreases self.entries.len() - i,
        {
            if self.entries[i].0 == *name {
                proof {
                    assert(es[i as int].0 == name@);
                    lemma_value_of(es, name@, i as int);
                }
                return Some(&self.entries[i].1);
            }
            assert(es[i as int].0 != name@);
            i += 1;
        }
        proof {
            lemma_value_of(es, name@, i as int);
        }
        None
    }

    /// The table with the value for `name` set to `value`.
    pub fn with(self, name: ImageName, value: V) -> (t: Self)
        ensures
            t@ == put(self@, name@, value, by_name()),
            increasing(t@, by_name()),
    {
        proof {
            use_type_invariant(&self);
            lemma_name_order();
        }
        let ghost es = self@;
        let ghost less = by_name();
        let mut entries = self.entries;
        let ghost start = entries@;
        let (at, found) = place(&entries, &name);
        proof {
            lemma_put_at(es, name@, value, less, at as int);
            lemma_put_increasing(es, name@, value, less, at as int);
        }
        let ghost key = name@;
        if found {
            let _ = entries.remove(at);
            entries.insert(at, (name, value));
            assert(name_entries(entries@) == es.update(at as int, (es[at as int].0, value)));
        } else {
            entries.insert(at, (name, value));
            assert(name_entries(entries@) == es.insert(at as int, (key, value)));
        }
        assert(found ==> !less(key, es[at as int].0));
        NameTable { entries }
    }
}

/// What a table holds for a name is what was put there last.
pub proof fn law_table_put_get<V>(
    es: Seq<(Seq<char>, V)>,
    name: Seq<char>,
    value: V,
    other: Seq<char>,
)
    ensures
        value_of(put(es, name, value, by_name()), name) == Some(value),
        other != name ==> value_of(put(es, name, value, by_name()), other) == value_of(es, other),
    decreases es.len(),
{
    lemma_name_order();
    let less = by_name();
    let new = put(es, name, value, less);
    if es.len() == 0 {
        assert(new.skip(1) == es);
        assert(new[0] == (name, value));
    } else if less(es[0].0, name) {
        law_table_put_get(es.skip(1), name, value, other);
        assert(new.skip(1) == put(es.skip(1), name, value, less));
        assert(new[0] == es[0]);
    } else if less(name, es[0].0) {
        assert(new.skip(1) == es);
        assert(new[0] == (name, value));
    } else {
        assert(es[0].0 == name);
        assert(new.skip(1) == es.skip(1));
        assert(new[0] == (name, value));
    }
}

} // verus!
