//! Unix paths as byte strings, and the components they consist of.
use vstd::prelude::*;
use vstd::string::*;
use vstd::utf8::*;

use crate::foreign::{readable, text_of};
use crate::order::{bytes_less, lex_less, rank_bytes, total_order, Rank};
use crate::text::{split, starts_with};

verus! {

/// A path on a Unix system: any bytes but NUL, separated by slashes.
#[derive(Debug)]
pub struct UnixPath {
    pub bytes: Vec<u8>,
}

impl View for UnixPath {
    type V = Seq<u8>;

    open spec fn view(&self) -> Seq<u8> {
        self.bytes@
    }
}

/// One component of a path.
#[derive(Debug)]
pub enum Component {
    /// The slash at the start of an absolute path.
    RootDir,
    /// A `.` at the start of a relative path; elsewhere it is dropped.
    CurDir,
    /// `..`
    ParentDir,
    Normal(Vec<u8>),
}

/// One component of a path, as a mathematical value.
pub enum Part {
    Root,
    Current,
    Parent,
    Normal(Seq<u8>),
}

impl View for Component {
    type V = Part;

    open spec fn view(&self) -> Part {
        match self {
            Component::RootDir => Part::Root,
            Component::CurDir => Part::Current,
            Component::ParentDir => Part::Parent,
            Component::Normal(name) => Part::Normal(name@),
        }
    }
}

/// The components' values.
pub open spec fn parts(v: Seq<Component>) -> Seq<Part> {
    Seq::new(v.len(), |i: int| v[i]@)
}

/// The contents of each name of a split path.
pub open spec fn names(v: Seq<Vec<u8>>) -> Seq<Seq<u8>> {
    Seq::new(v.len(), |i: int| v[i]@)
}

pub const SLASH: u8 = 47;

pub const DOT: u8 = 46;

/// Whether a path starts at the root directory.
pub open spec fn rooted(b: Seq<u8>) -> bool {
    b.len() > 0 && b[0] == SLASH
}

/// Names that stand for no component: empty ones and single dots.
pub open spec fn skipped(name: Seq<u8>) -> bool {
    name.len() == 0 || name == seq![DOT]
}

/// The component that a name stands for.
pub open spec fn part_of(name: Seq<u8>) -> Part {
    if name == seq![DOT, DOT] {
        Part::Parent
    } else {
        Part::Normal(name)
    }
}

/// The components that names between slashes stand for.
pub open spec fn body(list: Seq<Seq<u8>>) -> Seq<Part>
    decreases list.len(),
{
    if list.len() == 0 {
        Seq::empty()
    } else if skipped(list.last()) {
        body(list.drop_last())
    } else {
        body(list.drop_last()).push(part_of(list.last()))
    }
}

/// Whether a path starts with a `.` component.
pub open spec fn starts_here(b: Seq<u8>) -> bool {
    !rooted(b) && split(b, SLASH)[0] == seq![DOT]
}

/// The components of a path.
pub open spec fn components(b: Seq<u8>) -> Seq<Part> {
    let inner = body(split(b, SLASH));
    if rooted(b) {
        seq![Part::Root] + inner
    } else if starts_here(b) {
        seq![Part::Current] + inner
    } else {
        inner
    }
}

/// `p` as seen from the directory `base`: `p` itself if it is absolute.
pub open spec fn join(base: Seq<u8>, p: Seq<u8>) -> Seq<u8> {
    if rooted(p) {
        p
    } else if base.len() == 0 || base.last() == SLASH {
        base + p
    } else {
        base.push(SLASH) + p
    }
}

/// How a component is written.
pub open spec fn part_bytes(p: Part) -> Seq<u8> {
    match p {
        Part::Root => seq![SLASH],
        Part::Current => seq![DOT],
        Part::Parent => seq![DOT, DOT],
        Part::Normal(name) => name,
    }
}

/// The path made of the components `list`.
pub open spec fn render(list: Seq<Part>) -> Seq<u8>
    decreases list.len(),
{
    if list.len() == 0 {
        Seq::empty()
    } else {
        join(render(list.drop_last()), part_bytes(list.last()))
    }
}

/// A path without doubled or trailing slashes and without needless dots.
pub open spec fn normal(b: Seq<u8>) -> Seq<u8> {
    render(components(b))
}

/// The last component, unless it is special.
pub open spec fn file_name(b: Seq<u8>) -> Option<Seq<u8>> {
    let c = components(b);
    if c.len() > 0 && c.last() is Normal {
        Some(c.last()->Normal_0)
    } else {
        None
    }
}

/// The names joined by slashes.
pub open spec fn unsplit(list: Seq<Seq<u8>>) -> Seq<u8>
    decreases list.len(),
{
    if list.len() == 0 {
        Seq::empty()
    } else if list.len() == 1 {
        list[0]
    } else {
        unsplit(list.drop_last()).push(SLASH) + list.last()
    }
}

/// The names without skipped ones at the end.
pub open spec fn trim_tail(list: Seq<Seq<u8>>) -> Seq<Seq<u8>>
    decreases list.len(),
{
    if list.len() > 0 && skipped(list.last()) {
        trim_tail(list.drop_last())
    } else {
        list
    }
}

/// The names behind the first `k` that are not skipped, and behind the
/// skipped ones that follow.
pub open spec fn behind(list: Seq<Seq<u8>>, k: nat) -> Seq<Seq<u8>>
    decreases list.len(),
{
    if list.len() == 0 {
        list
    } else if skipped(list[0]) {
        behind(list.skip(1), k)
    } else if k > 0 {
        behind(list.skip(1), (k - 1) as nat)
    } else {
        list
    }
}

/// What is left of the path `b` behind its first `k` components.
pub open spec fn remainder(b: Seq<u8>, k: nat) -> Seq<u8> {
    let list = split(b, SLASH);
    let special: nat = if rooted(b) || starts_here(b) {
        1
    } else {
        0
    };
    if k >= special && k > 0 {
        unsplit(trim_tail(behind(list, (k - special) as nat)))
    } else if rooted(b) {
        seq![SLASH] + unsplit(trim_tail(list.skip(1)))
    } else if starts_here(b) {
        unsplit(seq![list[0]] + trim_tail(list.skip(1)))
    } else {
        unsplit(trim_tail(list))
    }
}

/// What is left of `b` below `base`; none if `b` is not below it.
pub open spec fn strip_prefix(b: Seq<u8>, base: Seq<u8>) -> Option<Seq<u8>> {
    if starts_with(components(b), components(base)) {
        Some(remainder(b, components(base).len()))
    } else {
        None
    }
}

/// Whether two paths have the same components.
pub open spec fn same_path(a: Seq<u8>, b: Seq<u8>) -> bool {
    components(a) == components(b)
}

// ---------------------------------------------------------------------------
// Order
// ---------------------------------------------------------------------------

/// The order of components: special ones first, then names by their bytes.
pub open spec fn part_less() -> spec_fn(Part, Part) -> bool {
    |x: Part, y: Part|
        match (x, y) {
            (Part::Normal(a), Part::Normal(b)) => bytes_less(a, b),
            _ => part_kind(x) < part_kind(y),
        }
}

/// The rank of a kind of component.
pub open spec fn part_kind(p: Part) -> int {
    match p {
        Part::Root => 0,
        Part::Current => 1,
        Part::Parent => 2,
        Part::Normal(_) => 3,
    }
}

/// Whether the path `a` comes before `b`: component by component.
pub open spec fn path_less(a: Seq<u8>, b: Seq<u8>) -> bool {
    lex_less(components(a), components(b), part_less())
}

/// Components are strictly and totally ordered.
pub proof fn lemma_part_order()
    ensures
        total_order(part_less()),
{
    crate::order::lemma_bytes_order();
    let less = |a: Seq<u8>, b: Seq<u8>| bytes_less(a, b);
    let lt = part_less();
    assert forall|x: Part, y: Part| #[trigger] lt(x, y) implies !lt(y, x) && x != y by {
        if x is Normal && y is Normal {
            assert(less(x->Normal_0, y->Normal_0));
        }
    }
    assert forall|x: Part, y: Part| x == y || #[trigger] lt(x, y) || lt(y, x) by {
        if x is Normal && y is Normal {
            assert(x->Normal_0 == y->Normal_0 || less(x->Normal_0, y->Normal_0) || less(
                y->Normal_0,
                x->Normal_0,
            ));
        }
    }
    assert forall|x: Part, y: Part, z: Part| #[trigger] lt(x, y) && #[trigger] lt(y, z) implies lt(
        x,
        z,
    ) by {
        if x is Normal && y is Normal && z is Normal {
            assert(less(x->Normal_0, y->Normal_0) && less(y->Normal_0, z->Normal_0));
        }
    }
}

// ---------------------------------------------------------------------------
// Bytes
// ---------------------------------------------------------------------------

/// A copy of `b`.
pub fn copy_bytes(b: &[u8]) -> (v: Vec<u8>)
    ensures
        v@ == b@,
{
    let mut v: Vec<u8> = Vec::new();
    let mut i: usize = 0;
    while i < b.len()
        invariant
            i <= b@.len(),
            v@ == b@.take(i as int),
        decreases b.len() - i,
    {
        v.push(b[i]);
        i += 1;
    }
    v
}

/// `b[from..to]` as bytes of their own.
pub fn sub_bytes(b: &[u8], from: usize, to: usize) -> (v: Vec<u8>)
    requires
        from <= to <= b@.len(),
    ensures
        v@ == b@.subrange(from as int, to as int),
{
    let mut v: Vec<u8> = Vec::new();
    let mut i: usize = from;
    while i < to
        invariant
            from <= i <= to <= b@.len(),
            v@ == b@.subrange(from as int, i as int),
        decreases to - i,
    {
        v.push(b[i]);
        i += 1;
    }
    v
}

/// Appends `more` to `v`.
pub fn push_bytes(v: &mut Vec<u8>, more: &[u8])
    ensures
        final(v)@ == old(v)@ + more@,
{
    let ghost start = v@;
    let mut i: usize = 0;
    while i < more.len()
        invariant
            i <= more@.len(),
            v@ == start + more@.take(i as int),
        decreases more.len() - i,
    {
        v.push(more[i]);
        assert(start + more@.take(i as int).push(more@[i as int]) == (start + more@.take(
            i as int,
        )).push(more@[i as int]));
        assert(more@.take(i + 1) == more@.take(i as int).push(more@[i as int]));
        i += 1;
    }
    assert(more@.take(more@.len() as int) == more@);
}

/// Whether two byte strings are the same.
pub fn same_bytes(a: &[u8], b: &[u8]) -> (r: bool)
    ensures
        r == (a@ == b@),
{
    match rank_bytes(a, b) {
        Rank::Same => true,
        _ => false,
    }
}

// ---------------------------------------------------------------------------
// Splitting
// ---------------------------------------------------------------------------

/// Splits a path at its slashes.
fn split_names(b: &[u8]) -> (list: Vec<Vec<u8>>)
    ensures
        names(list@) == split(b@, SLASH),
        list@.len() > 0,
{
    let mut list: Vec<Vec<u8>> = Vec::new();
    let mut from: usize = 0;
    assert(b@.skip(0) == b@);
    loop
        invariant_except_break
            from <= b@.len(),
            split(b@, SLASH) == names(list@) + split(b@.skip(from as int), SLASH),
        ensures
            split(b@, SLASH) == names(list@),
            list@.len() > 0,
        decreases b.len() - from,
    {
        let mut at: usize = from;
        while at < b.len() && b[at] != SLASH
            invariant
                from <= at <= b@.len(),
                forall|i: int| from <= i < at ==> b@[i] != SLASH,
            decreases b.len() - at,
        {
            at += 1;
        }
        let ghost rest = b@.skip(from as int);
        proof {
            crate::text::lemma_find_at(rest, SLASH, at - from);
        }
        let ghost before = names(list@);
        list.push(sub_bytes(b, from, at));
        assert(b@.subrange(from as int, at as int) == rest.take(at - from));
        assert(names(list@) == before.push(rest.take(at - from)));
        if at >= b.len() {
            assert(rest.take(at - from) == rest);
            break;
        }
        assert(rest.skip(at - from + 1) == b@.skip(at + 1));
        assert(before + (seq![rest.take(at - from)] + split(b@.skip(at + 1), SLASH))
            == before.push(rest.take(at - from)) + split(b@.skip(at + 1), SLASH));
        from = at + 1;
    }
    list
}

/// Whether a name stands for no component.
fn is_skipped(name: &Vec<u8>) -> (r: bool)
    ensures
        r == skipped(name@),
{
    let r = name.len() == 0 || (name.len() == 1 && name[0] == DOT);
    assert(r ==> name@.len() == 0 || name@ == seq![DOT]);
    r
}

/// The component that a name stands for.
fn component_of(name: &Vec<u8>) -> (c: Component)
    ensures
        c@ == part_of(name@),
{
    if name.len() == 2 && name[0] == DOT && name[1] == DOT {
        assert(name@ == seq![DOT, DOT]);
        Component::ParentDir
    } else {
        assert(name@ != seq![DOT, DOT]);
        Component::Normal(copy_bytes(name.as_slice()))
    }
}

/// Index of the first name behind `k` names that are not skipped, and behind
/// the skipped ones that follow.
fn skip_names(list: &Vec<Vec<u8>>, k: usize) -> (from: usize)
    ensures
        from <= list@.len(),
        names(list@).skip(from as int) == behind(names(list@), k as nat),
{
    let ghost all = names(list@);
    let mut from: usize = 0;
    let mut left: usize = k;
    assert(all.skip(0) == all);
    while from < list.len() && (left > 0 || is_skipped(&list[from]))
        invariant
            from <= list@.len(),
            all == names(list@),
            behind(all, k as nat) == behind(all.skip(from as int), left as nat),
        decreases list.len() - from,
    {
        let ghost rest = all.skip(from as int);
        assert(rest[0] == list@[from as int]@);
        assert(rest.skip(1) == all.skip(from + 1));
        if !is_skipped(&list[from]) {
            left -= 1;
        }
        from += 1;
    }
    assert(from < list@.len() ==> all.skip(from as int)[0] == list@[from as int]@);
    from
}

/// Where the names from `from` on end, without skipped ones at the end.
fn tail_end(list: &Vec<Vec<u8>>, from: usize) -> (to: usize)
    requires
        from <= list@.len(),
    ensures
        from <= to <= list@.len(),
        names(list@).subrange(from as int, to as int) == trim_tail(
            names(list@).skip(from as int),
        ),
{
    let ghost all = names(list@);
    let mut to: usize = list.len();
    assert(all.subrange(from as int, to as int) == all.skip(from as int));
    while from < to && is_skipped(&list[to - 1])
        invariant
            from <= to <= list@.len(),
            all == names(list@),
            trim_tail(all.skip(from as int)) == trim_tail(all.subrange(from as int, to as int)),
        decreases to,
    {
        let ghost cur = all.subrange(from as int, to as int);
        assert(cur.last() == list@[to - 1]@);
        assert(cur.drop_last() == all.subrange(from as int, to - 1));
        to -= 1;
    }
    assert(from < to ==> all.subrange(from as int, to as int).last() == list@[to - 1]@);
    to
}

/// The names `list[from..to]` joined by slashes.
fn joined_names(list: &Vec<Vec<u8>>, from: usize, to: usize) -> (b: Vec<u8>)
    requires
        from <= to <= list@.len(),
    ensures
        b@ == unsplit(names(list@).subrange(from as int, to as int)),
{
    let ghost all = names(list@);
    let mut b: Vec<u8> = Vec::new();
    let mut i: usize = from;
    while i < to
        invariant
            from <= i <= to <= list@.len(),
            all == names(list@),
            b@ == unsplit(all.subrange(from as int, i as int)),
        decreases to - i,
    {
        let ghost next = all.subrange(from as int, i + 1);
        assert(next.drop_last() == all.subrange(from as int, i as int));
        assert(next.last() == list@[i as int]@);
        if i > from {
            b.push(SLASH);
        }
        push_bytes(&mut b, list[i].as_slice());
        i += 1;
    }
    b
}

/// Compares two components.
fn rank_components(a: &Component, b: &Component) -> (r: Rank)
    ensures
        r == Rank::Before <==> part_less()(a@, b@),
        r == Rank::Same <==> a@ == b@,
        r == Rank::After <==> part_less()(b@, a@),
{
    match (a, b) {
        (Component::Normal(x), Component::Normal(y)) => rank_bytes(x.as_slice(), y.as_slice()),
        (Component::RootDir, Component::RootDir) => Rank::Same,
        (Component::CurDir, Component::CurDir) => Rank::Same,
        (Component::ParentDir, Component::ParentDir) => Rank::Same,
        (Component::RootDir, _) => Rank::Before,
        (_, Component::RootDir) => Rank::After,
        (Component::CurDir, _) => Rank::Before,
        (_, Component::CurDir) => Rank::After,
        (Component::ParentDir, _) => Rank::Before,
        (_, Component::ParentDir) => Rank::After,
    }
}

impl Clone for UnixPath {
    fn clone(&self) -> (r: Self)
        ensures
            r@ == self@,
    {
        UnixPath { bytes: copy_bytes(self.bytes.as_slice()) }
    }
}

impl PartialEq for UnixPath {
    /// Paths are equal when their components are.
    fn eq(&self, other: &Self) -> (r: bool) {
        self.same(other)
    }
}

impl vstd::std_specs::cmp::PartialEqSpecImpl for UnixPath {
    open spec fn obeys_eq_spec() -> bool {
        true
    }

    open spec fn eq_spec(&self, other: &Self) -> bool {
        same_path(self@, other@)
    }
}

impl UnixPath {
    /// The path written as `s`.
    pub fn from_text(s: &str) -> (p: Self)
        ensures
            p@ == encode_utf8(s@),
    {
        UnixPath { bytes: copy_bytes(s.as_bytes()) }
    }

    /// The path for people to read.
    pub fn display(&self) -> (s: String)
        ensures
            s@ == text_of(self@),
    {
        readable(self.bytes.as_slice())
    }

    /// Whether the path starts at the root directory.
    pub fn is_absolute(&self) -> (r: bool)
        ensures
            r == rooted(self@),
    {
        self.bytes.len() > 0 && self.bytes[0] == SLASH
    }

    /// The components of the path.
    pub fn components(&self) -> (v: Vec<Component>)
        ensures
            parts(v@) == components(self@),
    {
        let list = split_names(self.bytes.as_slice());
        let mut v: Vec<Component> = Vec::new();
        let ghost all = split(self@, SLASH);
        if self.is_absolute() {
            v.push(Component::RootDir);
        } else if list[0].len() == 1 && list[0][0] == DOT {
            assert(list[0]@ == seq![DOT]);
            assert(names(list@)[0] == list[0]@);
            v.push(Component::CurDir);
        } else {
            assert(names(list@)[0] == list[0]@);
            assert(list[0]@ != seq![DOT]);
        }
        let ghost lead = parts(v@);
        assert(lead == (if rooted(self@) {
            seq![Part::Root]
        } else if starts_here(self@) {
            seq![Part::Current]
        } else {
            Seq::empty()
        }));
        let mut i: usize = 0;
        while i < list.len()
            invariant
                i <= list@.len(),
                all == names(list@),
                parts(v@) == lead + body(all.take(i as int)),
            decreases list.len() - i,
        {
            let ghost head = all.take(i + 1);
            assert(head.drop_last() == all.take(i as int));
            assert(head.last() == list@[i as int]@);
            let ghost before = parts(v@);
            if !is_skipped(&list[i]) {
                v.push(component_of(&list[i]));
                assert(parts(v@) == before.push(part_of(head.last())));
                assert(lead + body(head) == (lead + body(all.take(i as int))).push(
                    part_of(head.last()),
                ));
            }
            i += 1;
        }
        assert(all.take(all.len() as int) == all);
        assert(Seq::<Part>::empty() + body(all) == body(all));
        v
    }

    /// Compares two paths, component by component.
    pub fn rank(&self, other: &UnixPath) -> (r: Rank)
        ensures
            r == Rank::Before <==> path_less(self@, other@),
            r == Rank::Same <==> same_path(self@, other@),
            r == Rank::After <==> path_less(other@, self@),
    {
        let a = self.components();
        let b = other.components();
        let ghost x = components(self@);
        let ghost y = components(other@);
        proof {
            lemma_part_order();
            crate::order::lemma_lex_total(x, y, part_less());
        }
        assert(x.skip(0) == x);
        assert(y.skip(0) == y);
        let mut i: usize = 0;
        while i < a.len() && i < b.len()
            invariant
                i <= a@.len(),
                i <= b@.len(),
                x == parts(a@),
                y == parts(b@),
                total_order(part_less()),
                x.take(i as int) == y.take(i as int),
                lex_less(x, y, part_less()) == lex_less(x.skip(i as int), y.skip(i as int), part_less()),
                lex_less(y, x, part_less()) == lex_less(y.skip(i as int), x.skip(i as int), part_less()),
                x == components(self@),
                y == components(other@),
            decreases a.len() - i,
        {
            let ghost p = x.skip(i as int);
            let ghost q = y.skip(i as int);
            assert(p[0] == a@[i as int]@ && q[0] == b@[i as int]@);
            match rank_components(&a[i], &b[i]) {
                Rank::Before => {
                    proof {
                        crate::order::lemma_lex_total(x, y, part_less());
                    }
                    return Rank::Before;
                },
                Rank::After => {
                    proof {
                        crate::order::lemma_lex_total(y, x, part_less());
                    }
                    return Rank::After;
                },
                Rank::Same => {},
            }
            assert(!part_less()(p[0], q[0]) && !part_less()(q[0], p[0]));
            assert(p.skip(1) == x.skip(i + 1));
            assert(q.skip(1) == y.skip(i + 1));
            assert(x.take(i + 1) == x.take(i as int).push(x[i as int]));
            assert(y.take(i + 1) == y.take(i as int).push(y[i as int]));
            i += 1;
        }
        if a.len() == b.len() {
            assert(x.take(i as int) == x);
            assert(y.take(i as int) == y);
            proof {
                crate::order::lemma_lex_total(x, y, part_less());
            }
            Rank::Same
        } else if a.len() < b.len() {
            Rank::Before
        } else {
            Rank::After
        }
    }

    /// Whether two paths have the same components.
    pub fn same(&self, other: &UnixPath) -> (r: bool)
        ensures
            r == same_path(self@, other@),
    {
        match self.rank(other) {
            Rank::Same => true,
            _ => false,
        }
    }

    /// Whether the first components of this path are those of `base`.
    pub fn starts_with(&self, base: &UnixPath) -> (r: bool)
        ensures
            r == starts_with(components(self@), components(base@)),
    {
        let a = self.components();
        let b = base.components();
        let ghost x = components(self@);
        let ghost y = components(base@);
        if b.len() > a.len() {
            return false;
        }
        let mut i: usize = 0;
        while i < b.len()
            invariant
                i <= b@.len() <= a@.len(),
                x == parts(a@),
                y == parts(b@),
                x.take(i as int) == y.take(i as int),
                x == components(self@),
                y == components(base@),
            decreases b.len() - i,
        {
            match rank_components(&a[i], &b[i]) {
                Rank::Same => {},
                _ => {
                    assert(x[i as int] != y[i as int]);
                    assert(x.take(y.len() as int)[i as int] == x[i as int]);
                    return false;
                },
            }
            assert(x.take(i + 1) == x.take(i as int).push(x[i as int]));
            assert(y.take(i + 1) == y.take(i as int).push(y[i as int]));
            i += 1;
        }
        assert(y.take(i as int) == y);
        true
    }

    /// The last component, unless it is special.
    pub fn file_name(&self) -> (n: Option<Vec<u8>>)
        ensures
            n is Some <==> file_name(self@) is Some,
            n is Some ==> n->0@ == file_name(self@)->0,
    {
        let mut v = self.components();
        let ghost all = v@;
        match v.pop() {
            None => None,
            Some(c) => {
                assert(parts(all).last() == all.last()@);
                match c {
                    Component::Normal(name) => Some(name),
                    _ => None,
                }
            },
        }
    }

    /// `p` as seen from this directory.
    pub fn join(&self, p: &UnixPath) -> (r: UnixPath)
        ensures
            r@ == join(self@, p@),
    {
        if p.is_absolute() {
            return p.clone();
        }
        let mut bytes = copy_bytes(self.bytes.as_slice());
        if bytes.len() > 0 && bytes[bytes.len() - 1] != SLASH {
            bytes.push(SLASH);
        }
        push_bytes(&mut bytes, p.bytes.as_slice());
        UnixPath { bytes }
    }

    /// The path written as `s`, as seen from this directory.
    pub fn join_text(&self, s: &str) -> (r: UnixPath)
        ensures
            r@ == join(self@, encode_utf8(s@)),
    {
        self.join(&UnixPath::from_text(s))
    }

    /// What is left of this path below `base`.
    pub fn strip_prefix(&self, base: &UnixPath) -> (r: Option<UnixPath>)
        ensures
            r is Some <==> strip_prefix(self@, base@) is Some,
            r is Some ==> r->0@ == strip_prefix(self@, base@)->0,
    {
        if !self.starts_with(base) {
            return None;
        }
        let k = base.components().len();
        let list = split_names(self.bytes.as_slice());
        let ghost all = split(self@, SLASH);
        assert(all[0] == list@[0]@);
        let absolute = self.is_absolute();
        let here = !absolute && list[0].len() == 1 && list[0][0] == DOT;
        assert(here == starts_here(self@)) by {
            if here {
                assert(list@[0]@ == seq![DOT]);
            } else if starts_here(self@) {
                assert(list@[0]@.len() == 1 && list@[0]@[0] == DOT);
            }
        }
        let special: usize = if absolute || here {
            1
        } else {
            0
        };
        if k >= special && k > 0 {
            let from = skip_names(&list, k - special);
            let to = tail_end(&list, from);
            let ghost left = all.skip(from as int);
            assert(names(list@) == all);
            Some(UnixPath { bytes: joined_names(&list, from, to) })
        } else if absolute {
            let to = tail_end(&list, 1);
            let mut bytes: Vec<u8> = Vec::new();
            bytes.push(SLASH);
            let rest = joined_names(&list, 1, to);
            push_bytes(&mut bytes, rest.as_slice());
            Some(UnixPath { bytes })
        } else if here {
            let to = tail_end(&list, 1);
            assert(all.subrange(0, to as int) == seq![all[0]] + all.subrange(1, to as int));
            Some(UnixPath { bytes: joined_names(&list, 0, to) })
        } else {
            let to = tail_end(&list, 0);
            assert(all.skip(0) == all);
            Some(UnixPath { bytes: joined_names(&list, 0, to) })
        }
    }

    /// The path without doubled or trailing slashes and without needless dots.
    pub fn normalized(&self) -> (r: UnixPath)
        ensures
            r@ == normal(self@),
    {
        let v = self.components();
        let ghost all = components(self@);
        assert(all.take(all.len() as int) == all);
        rendered(&v, v.len())
    }

    /// The path of all components but the last one.
    pub fn parent(&self) -> (r: UnixPath)
        requires
            components(self@).len() > 0,
        ensures
            r@ == render(components(self@).drop_last()),
    {
        let v = self.components();
        let ghost all = components(self@);
        assert(all.take(all.len() - 1) == all.drop_last());
        rendered(&v, v.len() - 1)
    }
}

/// The path made of the first `n` components.
fn rendered(v: &Vec<Component>, n: usize) -> (r: UnixPath)
    requires
        n <= v@.len(),
    ensures
        r@ == render(parts(v@).take(n as int)),
{
    let ghost all = parts(v@);
    let mut r = UnixPath { bytes: Vec::new() };
    let mut i: usize = 0;
    while i < n
        invariant
            i <= n <= v@.len(),
            all == parts(v@),
            r@ == render(all.take(i as int)),
        decreases n - i,
    {
        let mut piece: Vec<u8> = Vec::new();
        match &v[i] {
            Component::RootDir => piece.push(SLASH),
            Component::CurDir => piece.push(DOT),
            Component::ParentDir => {
                piece.push(DOT);
                piece.push(DOT);
            },
            Component::Normal(name) => push_bytes(&mut piece, name.as_slice()),
        }
        assert(piece@ == part_bytes(all[i as int]));
        assert(all.take(i + 1).drop_last() == all.take(i as int));
        assert(all.take(i + 1).last() == all[i as int]);
        r = r.join(&UnixPath { bytes: piece });
        i += 1;
    }
    r
}

} // verus!
