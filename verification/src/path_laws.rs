//! How joining, stripping and normalizing paths work together.
use vstd::prelude::*;
use vstd::utf8::*;

use crate::path::{
    behind, body, components, join, normal, part_bytes, part_of, remainder, render, rooted,
    same_path, skipped, starts_here, strip_prefix, trim_tail, unsplit, Part, DOT, SLASH,
};
use crate::text::{
    find, lemma_find, lemma_find_at, lemma_split_joined, lemma_split_pieces, lemma_split_single,
    split,
};

verus! {

/// Components of two lists of names, one behind the other.
pub proof fn lemma_body_append(a: Seq<Seq<u8>>, b: Seq<Seq<u8>>)
    ensures
        body(a + b) == body(a) + body(b),
    decreases b.len(),
{
    if b.len() == 0 {
        assert(a + b == a);
    } else {
        lemma_body_append(a, b.drop_last());
        assert((a + b).drop_last() == a + b.drop_last());
        assert((a + b).last() == b.last());
        if !skipped(b.last()) {
            assert((body(a) + body(b.drop_last())).push(part_of(b.last())) == body(a) + body(
                b.drop_last(),
            ).push(part_of(b.last())));
        }
    }
}

pub proof fn lemma_body_one(name: Seq<u8>)
    ensures
        body(seq![name]) == (if skipped(name) {
            Seq::empty()
        } else {
            seq![part_of(name)]
        }),
{
    assert(seq![name].drop_last() == Seq::<Seq<u8>>::empty());
    assert(body(Seq::empty()) == Seq::<Part>::empty());
    assert(Seq::empty().push(part_of(name)) == seq![part_of(name)]);
}

/// Joining a relative path to a directory puts its components behind those
/// of the directory; a dot at its start is dropped.
pub proof fn lemma_join_components(base: Seq<u8>, p: Seq<u8>)
    requires
        base.len() > 0,
        !rooted(p),
    ensures
        components(join(base, p)) == components(base) + body(split(p, SLASH)),
{
    let whole = join(base, p);
    lemma_split_pieces(base, SLASH);
    lemma_split_pieces(p, SLASH);
    if base.last() == SLASH {
        let dir = base.drop_last();
        assert(base == dir.push(SLASH) + Seq::<u8>::empty());
        lemma_split_joined(dir, SLASH, Seq::empty());
        lemma_split_single(Seq::<u8>::empty(), SLASH);
        assert(whole == dir.push(SLASH) + p);
        lemma_split_joined(dir, SLASH, p);
        lemma_split_pieces(dir, SLASH);
        lemma_body_append(split(dir, SLASH), split(p, SLASH));
        lemma_body_append(split(dir, SLASH), seq![Seq::<u8>::empty()]);
        lemma_body_one(Seq::<u8>::empty());
        assert(body(split(base, SLASH)) == body(split(dir, SLASH)));
        assert(split(whole, SLASH)[0] == split(base, SLASH)[0]);
    } else {
        lemma_split_joined(base, SLASH, p);
        lemma_body_append(split(base, SLASH), split(p, SLASH));
        assert(split(whole, SLASH)[0] == split(base, SLASH)[0]);
    }
    assert(whole[0] == base[0]);
    assert(components(whole) == components(base) + body(split(p, SLASH)));
}

/// Names without slashes survive joining and splitting.
proof fn lemma_split_unsplit(list: Seq<Seq<u8>>)
    requires
        list.len() > 0,
        forall|i: int| 0 <= i < list.len() ==> !(#[trigger] list[i]).contains(SLASH),
    ensures
        split(unsplit(list), SLASH) == list,
    decreases list.len(),
{
    if list.len() == 1 {
        lemma_split_single(list[0], SLASH);
        assert(list == seq![list[0]]);
    } else {
        lemma_split_unsplit(list.drop_last());
        lemma_split_joined(unsplit(list.drop_last()), SLASH, list.last());
        lemma_split_single(list.last(), SLASH);
        assert(list.drop_last() + seq![list.last()] == list);
    }
}

proof fn lemma_trim_tail(list: Seq<Seq<u8>>)
    ensures
        body(trim_tail(list)) == body(list),
        trim_tail(list).len() <= list.len(),
        trim_tail(list) == list.take(trim_tail(list).len() as int),
    decreases list.len(),
{
    if list.len() > 0 && skipped(list.last()) {
        lemma_trim_tail(list.drop_last());
        assert(list.drop_last().take(trim_tail(list).len() as int) == list.take(
            trim_tail(list).len() as int,
        ));
    } else {
        assert(list.take(list.len() as int) == list);
    }
}

proof fn lemma_behind(list: Seq<Seq<u8>>, k: nat)
    requires
        k <= body(list).len(),
    ensures
        body(behind(list, k)) == body(list).skip(k as int),
        behind(list, k).len() > 0 ==> !skipped(behind(list, k)[0]),
        behind(list, k).len() <= list.len(),
        behind(list, k) == list.skip(list.len() - behind(list, k).len()),
    decreases list.len(),
{
    if list.len() == 0 {
        assert(list.skip(0) == list);
    } else {
        let rest = list.skip(1);
        assert(list == seq![list[0]] + rest);
        lemma_body_append(seq![list[0]], rest);
        lemma_body_one(list[0]);
        if skipped(list[0]) {
            lemma_behind(rest, k);
            assert(body(list) == body(rest));
            assert(rest.skip(rest.len() - behind(rest, k).len()) == list.skip(
                list.len() - behind(list, k).len(),
            ));
        } else if k > 0 {
            lemma_behind(rest, (k - 1) as nat);
            assert(body(list).skip(k as int) == body(rest).skip(k - 1));
            assert(rest.skip(rest.len() - behind(rest, (k - 1) as nat).len()) == list.skip(
                list.len() - behind(list, k).len(),
            ));
        } else {
            assert(list.skip(0) == list);
            assert(body(list).skip(0) == body(list));
        }
    }
}

/// What is left of a path behind its first components has the others.
pub proof fn lemma_remainder(b: Seq<u8>, k: nat)
    requires
        0 < k <= components(b).len(),
    ensures
        !rooted(remainder(b, k)),
        body(split(remainder(b, k), SLASH)) == components(b).skip(k as int),
{
    let list = split(b, SLASH);
    let special: nat = if rooted(b) || starts_here(b) {
        1
    } else {
        0
    };
    lemma_split_pieces(b, SLASH);
    lemma_behind(list, (k - special) as nat);
    let left = behind(list, (k - special) as nat);
    lemma_trim_tail(left);
    let kept = trim_tail(left);
    assert(components(b).skip(k as int) == body(list).skip(k - special));
    assert(body(kept) == body(list).skip(k - special));
    if kept.len() == 0 {
        lemma_split_single(Seq::<u8>::empty(), SLASH);
        lemma_body_one(Seq::<u8>::empty());
        assert(unsplit(kept) == Seq::<u8>::empty());
        assert(body(kept) == Seq::<Part>::empty());
    } else {
        assert forall|i: int| 0 <= i < kept.len() implies !(#[trigger] kept[i]).contains(SLASH) by {
            assert(kept[i] == left[i]);
            assert(left[i] == list[list.len() - left.len() + i]);
        }
        lemma_split_unsplit(kept);
        let r = unsplit(kept);
        assert(kept[0] == left[0]);
        if rooted(r) {
            lemma_find_at(r, SLASH, 0);
            assert(split(r, SLASH)[0] == r.take(0));
            assert(skipped(kept[0]));
        }
    }
}

/// What stripping a directory off a path leaves is the path again once it is
/// joined to the directory.
pub proof fn law_strip_then_join(b: Seq<u8>, base: Seq<u8>)
    requires
        components(base).len() > 0,
        strip_prefix(b, base) is Some,
    ensures
        same_path(join(base, strip_prefix(b, base)->0), b),
{
    let k = components(base).len();
    lemma_remainder(b, k);
    if base.len() == 0 {
        lemma_split_single(Seq::<u8>::empty(), SLASH);
        lemma_body_one(Seq::<u8>::empty());
        assert(base == Seq::<u8>::empty());
        assert(components(base).len() == 0);
    }
    lemma_join_components(base, remainder(b, k));
    assert(components(b).take(k as int) + components(b).skip(k as int) == components(b));
}

/// A component list that some path has: special components in their places,
/// and names that are names.
pub open spec fn proper(list: Seq<Part>) -> bool {
    forall|i: int| 0 <= i < list.len() ==> proper_part(#[trigger] list[i], i == 0)
}

/// A component that may stand in a path, at its start or behind it.
pub open spec fn proper_part(p: Part, first: bool) -> bool {
    match p {
        Part::Root => first,
        Part::Current => first,
        Part::Parent => true,
        Part::Normal(name) => proper_name(name),
    }
}

/// A name that stands for itself in a path.
pub open spec fn proper_name(name: Seq<u8>) -> bool {
    !skipped(name) && name != seq![DOT, DOT] && !name.contains(SLASH)
}

proof fn lemma_body_proper(list: Seq<Seq<u8>>)
    requires
        forall|i: int| 0 <= i < list.len() ==> !(#[trigger] list[i]).contains(SLASH),
    ensures
        forall|i: int| 0 <= i < body(list).len() ==> proper_part(#[trigger] body(list)[i], false),
    decreases list.len(),
{
    if list.len() > 0 {
        let init = list.drop_last();
        assert forall|i: int| 0 <= i < init.len() implies !(#[trigger] init[i]).contains(SLASH) by {
            assert(init[i] == list[i]);
        }
        lemma_body_proper(init);
        assert(!list[list.len() - 1].contains(SLASH));
        assert forall|i: int| 0 <= i < body(list).len() implies proper_part(
            #[trigger] body(list)[i],
            false,
        ) by {
            if i < body(init).len() {
                assert(body(list)[i] == body(init)[i]);
            }
        }
    }
}

/// The components of every path are proper.
pub proof fn lemma_components_proper(b: Seq<u8>)
    ensures
        proper(components(b)),
{
    lemma_split_pieces(b, SLASH);
    let list = split(b, SLASH);
    lemma_body_proper(list);
    let c = components(b);
    assert forall|i: int| 0 <= i < c.len() implies proper_part(#[trigger] c[i], i == 0) by {
        if rooted(b) || starts_here(b) {
            if i > 0 {
                assert(c[i] == body(list)[i - 1]);
            }
        } else {
            assert(c[i] == body(list)[i]);
        }
    }
}

proof fn lemma_part_bytes(p: Part)
    requires
        proper_part(p, false),
    ensures
        !rooted(part_bytes(p)),
        part_bytes(p).len() > 0,
        body(split(part_bytes(p), SLASH)) == seq![p],
        !part_bytes(p).contains(SLASH),
        part_bytes(p) != seq![DOT],
{
    let name = part_bytes(p);
    assert(!name.contains(SLASH)) by {
        if p is Parent {
            assert(name == seq![DOT, DOT]);
        }
    }
    if p is Parent {
        assert(seq![DOT, DOT] != seq![DOT]) by {
            assert(seq![DOT, DOT].len() == 2);
        }
    }
    if rooted(name) {
        assert(name.contains(name[0]));
    }
    lemma_split_single(name, SLASH);
    lemma_body_one(name);
    if p is Parent {
        assert(seq![DOT, DOT].len() == 2);
        assert(!skipped(name));
    }
}

/// Components that are written down read back as themselves.
pub proof fn lemma_render_components(list: Seq<Part>)
    requires
        proper(list),
    ensures
        components(render(list)) == list,
        list.len() > 0 ==> render(list).len() > 0,
    decreases list.len(),
{
    if list.len() == 0 {
        lemma_split_single(Seq::<u8>::empty(), SLASH);
        lemma_body_one(Seq::<u8>::empty());
        assert(components(render(list)) == list);
    } else {
        let init = list.drop_last();
        let p = list.last();
        assert(proper(init)) by {
            assert forall|i: int| 0 <= i < init.len() implies proper_part(
                #[trigger] init[i],
                i == 0,
            ) by {
                assert(init[i] == list[i]);
            }
        }
        lemma_render_components(init);
        let b = render(list);
        if init.len() == 0 {
            assert(list == seq![p]);
            assert(proper_part(list[0], true));
            assert(b == part_bytes(p));
            match p {
                Part::Root => {
                    assert(b == Seq::<u8>::empty().push(SLASH) + Seq::<u8>::empty());
                    lemma_split_joined(Seq::<u8>::empty(), SLASH, Seq::<u8>::empty());
                    lemma_split_single(Seq::<u8>::empty(), SLASH);
                    lemma_body_append(seq![Seq::<u8>::empty()], seq![Seq::<u8>::empty()]);
                    lemma_body_one(Seq::<u8>::empty());
                    assert(components(b) == list);
                },
                Part::Current => {
                    lemma_split_single(b, SLASH);
                    lemma_body_one(b);
                    assert(components(b) == list);
                },
                _ => {
                    lemma_part_bytes(p);
                    lemma_split_single(b, SLASH);
                    assert(split(b, SLASH)[0] == b);
                    assert(components(b) == list);
                },
            }
        } else {
            assert(list[list.len() - 1] == p);
            assert(proper_part(p, false));
            lemma_part_bytes(p);
            lemma_join_components(render(init), part_bytes(p));
            assert(components(b) == init + seq![p]);
            assert(init + seq![p] == list);
        }
    }
}

/// Normalizing keeps the components, and nothing is left to normalize.
pub proof fn law_normal(b: Seq<u8>)
    ensures
        same_path(normal(b), b),
        normal(normal(b)) == normal(b),
{
    lemma_components_proper(b);
    lemma_render_components(components(b));
}

/// A name joined to a directory becomes its last component.
pub proof fn lemma_join_one(dir: Seq<u8>, name: Seq<u8>)
    requires
        dir.len() > 0,
        proper_name(name),
    ensures
        components(join(dir, name)) == components(dir).push(Part::Normal(name)),
{
    lemma_part_bytes(Part::Normal(name));
    lemma_join_components(dir, name);
}

/// A name joined to a normalized directory other than the empty one makes a
/// normalized path, with that name as its last component.
pub proof fn lemma_join_name(dir: Seq<u8>, name: Seq<u8>)
    requires
        dir.len() > 0,
        normal(dir) == dir,
        proper_name(name),
    ensures
        components(join(dir, name)) == components(dir).push(Part::Normal(name)),
        normal(join(dir, name)) == join(dir, name),
        rooted(join(dir, name)) == rooted(dir),
{
    let p = Part::Normal(name);
    lemma_part_bytes(p);
    lemma_join_components(dir, name);
    let c = components(join(dir, name));
    assert(c == components(dir).push(p));
    assert(c.drop_last() == components(dir));
    assert(join(dir, name)[0] == dir[0]);
}

// ---------------------------------------------------------------------------
// Paths that are text
// ---------------------------------------------------------------------------

proof fn lemma_slash_utf8()
    ensures
        valid_utf8(seq![SLASH]),
{
    assert(valid_first_scalar(seq![SLASH]));
    assert(pop_first_scalar(seq![SLASH]) == Seq::<u8>::empty());
    assert(valid_utf8(Seq::<u8>::empty()));
}

/// Text joined to text is text.
pub proof fn lemma_join_utf8(base: Seq<u8>, p: Seq<u8>)
    requires
        valid_utf8(base),
        valid_utf8(p),
    ensures
        valid_utf8(join(base, p)),
{
    lemma_slash_utf8();
    valid_utf8_concat(base, seq![SLASH]);
    valid_utf8_concat(base, p);
    assert(base.push(SLASH) == base + seq![SLASH]);
    valid_utf8_concat(base.push(SLASH), p);
}

/// Whether all names are text.
spec fn all_utf8(list: Seq<Seq<u8>>) -> bool {
    forall|i: int| 0 <= i < list.len() ==> valid_utf8(#[trigger] list[i])
}

/// The names between the slashes of a text are text.
proof fn lemma_split_utf8(b: Seq<u8>)
    requires
        valid_utf8(b),
    ensures
        all_utf8(split(b, SLASH)),
    decreases b.len(),
{
    lemma_find(b, SLASH);
    let at = find(b, SLASH) as int;
    if at < b.len() {
        let rest = b.skip(at);
        is_char_boundary_iff_is_leading_byte(b, at);
        assert(is_leading_byte_width_1(b[at]));
        valid_utf8_split(b, at);
        assert(b.subrange(0, at) == b.take(at));
        assert(b.subrange(at, b.len() as int) == rest);
        assert(pop_first_scalar(rest) == b.skip(at + 1));
        lemma_split_utf8(b.skip(at + 1));
        let list = split(b.skip(at + 1), SLASH);
        assert(split(b, SLASH) == seq![b.take(at)] + list);
        assert forall|i: int| 0 <= i < split(b, SLASH).len() implies valid_utf8(
            #[trigger] split(b, SLASH)[i],
        ) by {
            if i > 0 {
                assert(split(b, SLASH)[i] == list[i - 1]);
            }
        }
    }
}

proof fn lemma_unsplit_utf8(list: Seq<Seq<u8>>)
    requires
        all_utf8(list),
    ensures
        valid_utf8(unsplit(list)),
    decreases list.len(),
{
    if list.len() > 1 {
        lemma_unsplit_utf8(list.drop_last());
        lemma_slash_utf8();
        let first = unsplit(list.drop_last());
        valid_utf8_concat(first, seq![SLASH]);
        assert(first.push(SLASH) == first + seq![SLASH]);
        valid_utf8_concat(first.push(SLASH), list.last());
    }
}

/// What is left of a text behind its first components is text.
pub proof fn lemma_remainder_utf8(b: Seq<u8>, k: nat)
    requires
        valid_utf8(b),
        k <= components(b).len(),
    ensures
        valid_utf8(remainder(b, k)),
{
    let list = split(b, SLASH);
    let special: nat = if rooted(b) || starts_here(b) {
        1
    } else {
        0
    };
    lemma_split_pieces(b, SLASH);
    lemma_split_utf8(b);
    lemma_slash_utf8();
    if k >= special && k > 0 {
        lemma_behind(list, (k - special) as nat);
        lemma_trim_tail(behind(list, (k - special) as nat));
        lemma_unsplit_utf8(trim_tail(behind(list, (k - special) as nat)));
    } else {
        lemma_trim_tail(list);
        lemma_trim_tail(list.skip(1));
        lemma_unsplit_utf8(trim_tail(list));
        lemma_unsplit_utf8(trim_tail(list.skip(1)));
        lemma_unsplit_utf8(seq![list[0]] + trim_tail(list.skip(1)));
        valid_utf8_concat(seq![SLASH], unsplit(trim_tail(list.skip(1))));
    }
}

} // verus!
