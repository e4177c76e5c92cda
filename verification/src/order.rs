//! Lexicographic order of byte strings.
use vstd::prelude::*;

verus! {

/// Whether `a` comes before `b` when elements compare by `lt`: at the first
/// difference, or by being a proper beginning of `b`.
pub open spec fn lex_less<T>(a: Seq<T>, b: Seq<T>, lt: spec_fn(T, T) -> bool) -> bool
    decreases a.len(),
{
    b.len() > 0 && (a.len() == 0 || lt(a[0], b[0]) || (a[0] == b[0] && lex_less(
        a.skip(1),
        b.skip(1),
        lt,
    )))
}

/// A strict total order.
pub open spec fn total_order<T>(lt: spec_fn(T, T) -> bool) -> bool {
    &&& forall|x: T, y: T| #[trigger] lt(x, y) ==> !lt(y, x) && x != y
    &&& forall|x: T, y: T| x == y || #[trigger] lt(x, y) || lt(y, x)
    &&& forall|x: T, y: T, z: T| #[trigger] lt(x, y) && #[trigger] lt(y, z) ==> lt(x, z)
}

pub proof fn lemma_lex_total<T>(a: Seq<T>, b: Seq<T>, lt: spec_fn(T, T) -> bool)
    requires
        total_order(lt),
    ensures
        a == b || lex_less(a, b, lt) || lex_less(b, a, lt),
        lex_less(a, b, lt) ==> !lex_less(b, a, lt) && a != b,
    decreases a.len(),
{
    if a.len() == 0 || b.len() == 0 {
        if a.len() == b.len() {
            assert(a == b);
        }
    } else {
        lemma_lex_total(a.skip(1), b.skip(1), lt);
        if a[0] == b[0] {
            assert(!lt(a[0], a[0]));
            if a.skip(1) == b.skip(1) {
                assert(a =~= seq![a[0]] + a.skip(1));
                assert(b =~= seq![b[0]] + b.skip(1));
            }
        } else {
            assert(lt(a[0], b[0]) || lt(b[0], a[0]));
        }
    }
}

pub proof fn lemma_lex_transitive<T>(a: Seq<T>, b: Seq<T>, c: Seq<T>, lt: spec_fn(T, T) -> bool)
    requires
        total_order(lt),
        lex_less(a, b, lt),
        lex_less(b, c, lt),
    ensures
        lex_less(a, c, lt),
    decreases a.len(),
{
    if a.len() > 0 {
        if a[0] == b[0] && b[0] == c[0] {
            assert(!lt(a[0], a[0]));
            lemma_lex_transitive(a.skip(1), b.skip(1), c.skip(1), lt);
        } else {
            assert(lt(a[0], b[0]) || a[0] == b[0]);
            assert(lt(b[0], c[0]) || b[0] == c[0]);
        }
    }
}

/// Lexicographic order is a strict total order.
pub proof fn lemma_lex_order<T>(lt: spec_fn(T, T) -> bool)
    requires
        total_order(lt),
    ensures
        total_order(|a: Seq<T>, b: Seq<T>| lex_less(a, b, lt)),
{
    let less = |a: Seq<T>, b: Seq<T>| lex_less(a, b, lt);
    assert forall|x: Seq<T>, y: Seq<T>| #[trigger] less(x, y) implies !less(y, x) && x != y by {
        lemma_lex_total(x, y, lt);
    }
    assert forall|x: Seq<T>, y: Seq<T>| x == y || #[trigger] less(x, y) || less(y, x) by {
        lemma_lex_total(x, y, lt);
    }
    assert forall|x: Seq<T>, y: Seq<T>, z: Seq<T>| #[trigger]
        less(x, y) && #[trigger] less(y, z) implies less(x, z) by {
        lemma_lex_transitive(x, y, z, lt);
    }
}

/// The order of bytes.
pub open spec fn byte_less() -> spec_fn(u8, u8) -> bool {
    |x: u8, y: u8| x < y
}

/// Whether the byte string `a` comes before `b`.
pub open spec fn bytes_less(a: Seq<u8>, b: Seq<u8>) -> bool {
    lex_less(a, b, byte_less())
}

/// Byte strings are strictly and totally ordered.
pub proof fn lemma_bytes_order()
    ensures
        total_order(|a: Seq<u8>, b: Seq<u8>| bytes_less(a, b)),
{
    assert(total_order(byte_less()));
    lemma_lex_order(byte_less());
    assert((|a: Seq<u8>, b: Seq<u8>| bytes_less(a, b)) =~= (|a: Seq<u8>, b: Seq<u8>|
        lex_less(a, b, byte_less())));
}

/// How two things compare.
#[derive(Clone, Copy, PartialEq, Eq, Structural, Debug)]
pub enum Rank {
    Before,
    Same,
    After,
}

/// Compares two byte strings.
pub fn rank_bytes(a: &[u8], b: &[u8]) -> (r: Rank)
    ensures
        r == Rank::Before <==> bytes_less(a@, b@),
        r == Rank::Same <==> a@ == b@,
        r == Rank::After <==> bytes_less(b@, a@),
{
    let mut i: usize = 0;
    assert(a@.skip(0) == a@);
    assert(b@.skip(0) == b@);
    proof {
        lemma_bytes_order();
        lemma_lex_total(a@, b@, byte_less());
    }
    while i < a.len() && i < b.len()
        invariant
            i <= a@.len(),
            i <= b@.len(),
            a@.take(i as int) == b@.take(i as int),
            bytes_less(a@, b@) == bytes_less(a@.skip(i as int), b@.skip(i as int)),
            bytes_less(b@, a@) == bytes_less(b@.skip(i as int), a@.skip(i as int)),
        decreases a.len() - i,
    {
        let ghost x = a@.skip(i as int);
        let ghost y = b@.skip(i as int);
        assert(x[0] == a@[i as int] && y[0] == b@[i as int]);
        if a[i] < b[i] {
            proof {
                lemma_lex_total(a@, b@, byte_less());
            }
            return Rank::Before;
        }
        if b[i] < a[i] {
            proof {
                lemma_lex_total(b@, a@, byte_less());
            }
            return Rank::After;
        }
        assert(x.skip(1) == a@.skip(i + 1));
        assert(y.skip(1) == b@.skip(i + 1));
        assert(a@.take(i + 1) == a@.take(i as int).push(a@[i as int]));
        assert(b@.take(i + 1) == b@.take(i as int).push(b@[i as int]));
        i += 1;
    }
    if a.len() == b.len() {
        assert(a@.take(i as int) == a@);
        assert(b@.take(i as int) == b@);
        assert(a@ == b@);
        proof {
            lemma_lex_total(a@, b@, byte_less());
        }
        Rank::Same
    } else if a.len() < b.len() {
        Rank::Before
    } else {
        Rank::After
    }
}

} // verus!
