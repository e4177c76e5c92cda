//! What the components of a path are.
use vstd::prelude::*;
use vstd::string::*;

use crate::order::{bytes_less, lex_less};
use crate::path::{
    behind, body, components, file_name, join, normal, part_less, path_less, render, rooted,
    same_path, strip_prefix, trim_tail, unsplit, Part,
};
use crate::path_laws::{
    law_normal, lemma_body_append, lemma_body_one, lemma_join_components, lemma_join_one,
    lemma_remainder,
};
use crate::paths::{expanded, lemma_tilde, shown, TILDE};
use crate::text::{split, starts_with};
use crate::text_laws::{joined, law_split};

verus! {

/// What stands between two slashes gives: nothing if it is empty or a dot.
pub open spec fn piece_parts(piece: Seq<u8>) -> Seq<Part> {
    if piece =~= Seq::empty() || piece =~= seq![46u8] {
        Seq::empty()
    } else if piece =~= seq![46u8, 46u8] {
        seq![Part::Parent]
    } else {
        seq![Part::Normal(piece)]
    }
}

/// What the pieces between slashes give, in order.
pub open spec fn pieces_parts(list: Seq<Seq<u8>>) -> Seq<Part>
    decreases list.len(),
{
    if list.len() == 0 {
        Seq::empty()
    } else {
        piece_parts(list[0]) + pieces_parts(list.skip(1))
    }
}

/// What a path starts with: the root directory if there is nothing before its
/// first slash, and the current one if there is a dot.
pub open spec fn leading_part(list: Seq<Seq<u8>>) -> Seq<Part> {
    if list.len() > 1 && list[0].len() == 0 {
        seq![Part::Root]
    } else if list[0] =~= seq![46u8] {
        seq![Part::Current]
    } else {
        Seq::empty()
    }
}

proof fn lemma_body(list: Seq<Seq<u8>>)
    ensures
        body(list) == pieces_parts(list),
    decreases list.len(),
{
    if list.len() > 0 {
        lemma_body(list.skip(1));
        lemma_body_append(seq![list[0]], list.skip(1));
        lemma_body_one(list[0]);
        assert(list == seq![list[0]] + list.skip(1));
    }
}

proof fn lemma_joined_start(list: Seq<Seq<u8>>, c: u8)
    requires
        list.len() > 0,
    ensures
        list[0].len() > 0 ==> joined(list, c).len() > 0 && joined(list, c)[0] == list[0][0],
        list.len() > 1 && list[0].len() == 0 ==> joined(list, c).len() > 0 && joined(list, c)[0]
            == c,
        list.len() == 1 && list[0].len() == 0 ==> joined(list, c).len() == 0,
    decreases list.len(),
{
    if list.len() > 1 {
        let init = list.drop_last();
        lemma_joined_start(init, c);
        assert(init[0] == list[0]);
    }
}

/// The components of a path are what stands between its slashes, but for
/// empty pieces and dots, which count only at its start.
pub proof fn law_components(list: Seq<Seq<u8>>)
    requires
        list.len() > 0,
        forall|i: int| 0 <= i < list.len() ==> !(#[trigger] list[i]).contains(47u8),
    ensures
        components(joined(list, 47u8)) == leading_part(list) + pieces_parts(list),
        rooted(joined(list, 47u8)) <==> list.len() > 1 && list[0].len() == 0,
{
    let b = joined(list, 47u8);
    law_split(list, 47u8);
    lemma_body(list);
    lemma_joined_start(list, 47u8);
    if list[0].len() > 0 {
        assert(list[0].contains(list[0][0]));
    }
    assert(Seq::<Part>::empty() + pieces_parts(list) == pieces_parts(list));
}

/// An absolute path stays as it is wherever it is seen from; a relative one
/// has its components behind those of the directory, but for a dot at its
/// start.
pub proof fn law_join(base: Seq<u8>, list: Seq<Seq<u8>>)
    requires
        list.len() > 0,
        forall|i: int| 0 <= i < list.len() ==> !(#[trigger] list[i]).contains(47u8),
    ensures
        list.len() > 1 && list[0].len() == 0 ==> join(base, joined(list, 47u8)) == joined(
            list,
            47u8,
        ),
        !(list.len() > 1 && list[0].len() == 0) && base.len() > 0 ==> components(
            join(base, joined(list, 47u8)),
        ) == components(base) + pieces_parts(list),
        !(list.len() > 1 && list[0].len() == 0) && base.len() == 0 ==> join(
            base,
            joined(list, 47u8),
        ) == joined(list, 47u8),
{
    law_components(list);
    law_split(list, 47u8);
    lemma_body(list);
    let p = joined(list, 47u8);
    if !rooted(p) {
        if base.len() > 0 {
            lemma_join_components(base, p);
        } else {
            assert(join(base, p) == p);
        }
    }
}

/// Whether `name` can stand between slashes for itself.
pub open spec fn plain(name: Seq<u8>) -> bool {
    name.len() > 0 && !(name =~= seq![46u8]) && !(name =~= seq![46u8, 46u8]) && !name.contains(47u8)
}

/// Names as components.
pub open spec fn normals(names: Seq<Seq<u8>>) -> Seq<Part> {
    Seq::new(names.len(), |i: int| Part::Normal(names[i]))
}

proof fn lemma_pieces_plain(names: Seq<Seq<u8>>)
    requires
        forall|i: int| 0 <= i < names.len() ==> plain(#[trigger] names[i]),
    ensures
        pieces_parts(names) == normals(names),
    decreases names.len(),
{
    if names.len() > 0 {
        let rest = names.skip(1);
        assert forall|i: int| 0 <= i < rest.len() implies plain(#[trigger] rest[i]) by {
            assert(rest[i] == names[i + 1]);
        }
        lemma_pieces_plain(rest);
        assert(plain(names[0]));
        assert(normals(names) == seq![Part::Normal(names[0])] + normals(rest));
    } else {
        assert(normals(names) == Seq::<Part>::empty());
    }
}

proof fn lemma_joined_slash(names: Seq<Seq<u8>>)
    requires
        names.len() > 0,
    ensures
        joined(seq![Seq::<u8>::empty()] + names, 47u8) == seq![47u8] + joined(names, 47u8),
    decreases names.len(),
{
    let all = seq![Seq::<u8>::empty()] + names;
    assert(all.last() == names.last());
    assert(all.drop_last() == seq![Seq::<u8>::empty()] + names.drop_last());
    if names.len() == 1 {
        assert(all.drop_last() == seq![Seq::<u8>::empty()]);
        assert(joined(all.drop_last(), 47u8) == Seq::<u8>::empty());
        assert(Seq::<u8>::empty().push(47u8) == seq![47u8]);
    } else {
        lemma_joined_slash(names.drop_last());
        assert((seq![47u8] + joined(names.drop_last(), 47u8)).push(47u8) + names.last()
            == seq![47u8] + (joined(names.drop_last(), 47u8).push(47u8) + names.last()));
    }
}

/// Names with slashes between them and one before them are the absolute path
/// with these names as components, and it is normal.
pub proof fn law_absolute_paths(names: Seq<Seq<u8>>)
    requires
        names.len() > 0,
        forall|i: int| 0 <= i < names.len() ==> plain(#[trigger] names[i]),
    ensures
        components(seq![47u8] + joined(names, 47u8)) == seq![Part::Root] + normals(names),
        normal(seq![47u8] + joined(names, 47u8)) == seq![47u8] + joined(names, 47u8),
        render(seq![Part::Root] + normals(names)) == seq![47u8] + joined(names, 47u8),
        file_name(seq![47u8] + joined(names, 47u8)) == Some(names.last()),
{
    let all = seq![Seq::<u8>::empty()] + names;
    assert forall|i: int| 0 <= i < all.len() implies !(#[trigger] all[i]).contains(47u8) by {
        if i > 0 {
            assert(all[i] == names[i - 1]);
            assert(plain(names[i - 1]));
        }
    }
    lemma_joined_slash(names);
    law_components(all);
    assert(all.skip(1) == names);
    lemma_pieces_plain(names);
    assert(pieces_parts(all) == Seq::<Part>::empty() + normals(names));
    assert(Seq::<Part>::empty() + normals(names) == normals(names));
    lemma_render_names(names);
    let c = seq![Part::Root] + normals(names);
    assert(c.last() == Part::Normal(names.last()));
}

proof fn lemma_render_names(names: Seq<Seq<u8>>)
    requires
        names.len() > 0,
        forall|i: int| 0 <= i < names.len() ==> plain(#[trigger] names[i]),
    ensures
        render(seq![Part::Root] + normals(names)) == seq![47u8] + joined(names, 47u8),
    decreases names.len(),
{
    reveal_with_fuel(render, 2);
    let c = seq![Part::Root] + normals(names);
    assert(c.last() == Part::Normal(names.last()));
    assert(plain(names[names.len() - 1]));
    let name = names.last();
    if rooted(name) {
        assert(name.contains(name[0]));
    }
    if names.len() == 1 {
        assert(c.drop_last() == seq![Part::Root]);
        assert(seq![Part::Root].drop_last() == Seq::<Part>::empty());
        assert(render(seq![Part::Root]) == seq![47u8]);
        assert(render(c) == seq![47u8] + name);
    } else {
        let init = names.drop_last();
        assert forall|i: int| 0 <= i < init.len() implies plain(#[trigger] init[i]) by {
            assert(init[i] == names[i]);
        }
        lemma_render_names(init);
        assert(c.drop_last() == seq![Part::Root] + normals(init));
        let b = seq![47u8] + joined(init, 47u8);
        lemma_joined_last(init);
        assert(b.last() != 47u8);
        assert(b.push(47u8) + name == seq![47u8] + (joined(init, 47u8).push(47u8) + name));
    }
}

proof fn lemma_joined_last(names: Seq<Seq<u8>>)
    requires
        names.len() > 0,
        forall|i: int| 0 <= i < names.len() ==> plain(#[trigger] names[i]),
    ensures
        joined(names, 47u8).len() > 0,
        joined(names, 47u8).last() != 47u8,
{
    let name = names[names.len() - 1];
    assert(plain(name));
    assert(name.contains(name.last()));
    assert(joined(names, 47u8).last() == name.last());
}

/// Paths with the same components have the same normal form, and the normal
/// form has these components.
pub proof fn law_normal_forms(a: Seq<u8>, b: Seq<u8>)
    ensures
        same_path(a, b) <==> normal(a) == normal(b),
        components(normal(a)) == components(a),
{
    law_normal(a);
    law_normal(b);
}

/// A path's last component is its file name, unless it is special.
pub proof fn law_file_names(dir: Seq<u8>, name: Seq<u8>)
    requires
        dir.len() > 0,
        plain(name),
    ensures
        file_name(join(dir, name)) == Some(name),
        file_name(join(dir, seq![46u8, 46u8])) is None,
        file_name(seq![47u8]) is None,
        file_name(Seq::empty()) is None,
{
    lemma_join_one(dir, name);
    let c = components(dir);
    assert(c.push(Part::Normal(name)).last() == Part::Normal(name));
    let up = seq![seq![46u8, 46u8]];
    assert(joined(up, 47u8) == seq![46u8, 46u8]);
    law_join(dir, up);
    assert(up.skip(1) == Seq::<Seq<u8>>::empty());
    assert(seq![46u8, 46u8].len() == 2 && seq![46u8].len() == 1);
    assert(pieces_parts(up.skip(1)) == Seq::<Part>::empty());
    assert(piece_parts(up[0]) == seq![Part::Parent]);
    assert(pieces_parts(up) == seq![Part::Parent] + Seq::<Part>::empty());
    assert((c + pieces_parts(up)).last() == Part::Parent);
    let top = seq![Seq::<u8>::empty(), Seq::<u8>::empty()];
    assert(top.drop_last() == seq![Seq::<u8>::empty()]);
    reveal_with_fuel(joined, 3);
    assert(joined(top, 47u8) == seq![47u8]);
    law_components(top);
    reveal_with_fuel(pieces_parts, 3);
    assert(components(seq![47u8]) =~= seq![Part::Root]);
    let none = seq![Seq::<u8>::empty()];
    assert(joined(none, 47u8) == Seq::<u8>::empty());
    law_components(none);
    assert(components(Seq::<u8>::empty()) =~= Seq::<Part>::empty());
}

/// A path has a directory taken off if and only if it starts with the
/// directory's components.
pub proof fn law_prefixes(path: Seq<u8>, dir: Seq<u8>)
    ensures
        strip_prefix(path, dir) is Some <==> components(dir).len() <= components(path).len() && (
        forall|i: int|
            0 <= i < components(dir).len() ==> #[trigger] components(path)[i] == components(dir)[i]),
{
    let p = components(path);
    let d = components(dir);
    if strip_prefix(path, dir) is Some {
        assert forall|i: int| 0 <= i < d.len() implies #[trigger] p[i] == d[i] by {
            assert(p.take(d.len() as int)[i] == p[i]);
        }
    }
    if d.len() <= p.len() && (forall|i: int| 0 <= i < d.len() ==> #[trigger] p[i] == d[i]) {
        assert(p.take(d.len() as int) == d);
    }
}

/// A `~` at the start of a path stands for the home directory, and only there:
/// a path that starts with another component is left alone.
pub proof fn law_tilde(home: Seq<u8>, path: Seq<u8>)
    requires
        home.len() > 0,
    ensures
        components(path).len() > 0 && components(path)[0] == Part::Normal(seq![126u8])
            ==> components(expanded(home, path)) == components(home) + components(path).skip(1),
        !(components(path).len() > 0 && components(path)[0] == Part::Normal(seq![126u8]))
            ==> expanded(home, path) == path,
{
    lemma_tilde();
    let c = components(path);
    let t = seq![TILDE];
    if c.len() > 0 && c[0] == Part::Normal(t) {
        assert(c.take(1) == seq![Part::Normal(t)]);
        lemma_remainder(path, 1);
        lemma_join_components(home, crate::path::remainder(path, 1));
    } else if starts_with(c, components(t)) {
        assert(c.take(1)[0] == c[0]);
    }
}

/// A path in the home directory is shown with a `~` in place of the home
/// directory, and other paths are shown as they are.
pub proof fn law_shown(home: Seq<u8>, path: Seq<u8>)
    requires
        components(home).len() > 0,
    ensures
        strip_prefix(path, home) is Some ==> components(shown(home, path)) == seq![
            Part::Normal(seq![126u8]),
        ] + components(path).skip(components(home).len() as int),
        strip_prefix(path, home) is None ==> shown(home, path) == path,
{
    lemma_tilde();
    if strip_prefix(path, home) is Some {
        lemma_remainder(path, components(home).len());
        lemma_join_components(seq![TILDE], strip_prefix(path, home)->0);
    }
}

// ---------------------------------------------------------------------------
// Order
// ---------------------------------------------------------------------------

proof fn lemma_lex(lead: Seq<Part>, x: Part, y: Part, a: Seq<Part>, b: Seq<Part>)
    ensures
        part_less()(x, y) ==> lex_less(lead.push(x) + a, lead.push(y) + b, part_less()),
        lex_less(lead, lead.push(y) + b, part_less()),
    decreases lead.len(),
{
    let p = lead.push(x) + a;
    let q = lead.push(y) + b;
    if lead.len() > 0 {
        lemma_lex(lead.skip(1), x, y, a, b);
        assert(p.skip(1) == lead.skip(1).push(x) + a);
        assert(q.skip(1) == lead.skip(1).push(y) + b);
        assert(p[0] == lead[0] && q[0] == lead[0]);
    } else {
        assert(p[0] == x && q[0] == y);
    }
}

/// Paths are ordered by the first component in which they differ, a path
/// before what lies below it: the root directory, dots and double dots first,
/// in this order, and then names by their bytes.
pub proof fn law_path_order(p: Seq<u8>, q: Seq<u8>, i: int, x: Seq<u8>, y: Seq<u8>)
    requires
        0 <= i <= components(p).len(),
        i < components(q).len(),
        components(p).take(i) == components(q).take(i),
    ensures
        i < components(p).len() && part_less()(components(p)[i], components(q)[i]) ==> path_less(
            p,
            q,
        ),
        i == components(p).len() ==> path_less(p, q),
        part_less()(Part::Root, Part::Current),
        part_less()(Part::Current, Part::Parent),
        part_less()(Part::Parent, Part::Normal(x)),
        part_less()(Part::Normal(x), Part::Normal(y)) <==> bytes_less(x, y),
{
    let a = components(p);
    let b = components(q);
    let lead = b.take(i);
    assert(b == lead.push(b[i]) + b.skip(i + 1));
    if i < a.len() {
        assert(a == lead.push(a[i]) + a.skip(i + 1));
        lemma_lex(lead, a[i], b[i], a.skip(i + 1), b.skip(i + 1));
    } else {
        assert(a == lead);
        lemma_lex(lead, b[i], b[i], Seq::empty(), b.skip(i + 1));
    }
}

// ---------------------------------------------------------------------------
// Shown paths
// ---------------------------------------------------------------------------

proof fn lemma_unsplit_joined(list: Seq<Seq<u8>>)
    ensures
        unsplit(list) == joined(list, 47u8),
    decreases list.len(),
{
    if list.len() > 1 {
        lemma_unsplit_joined(list.drop_last());
    }
}

proof fn lemma_behind_names(names: Seq<Seq<u8>>, list: Seq<Seq<u8>>)
    requires
        forall|i: int| 0 <= i < names.len() ==> plain(#[trigger] names[i]),
        list.len() > 0,
        plain(list[0]),
    ensures
        behind(names + list, names.len()) == list,
    decreases names.len(),
{
    if names.len() == 0 {
        assert(names + list == list);
    } else {
        assert(plain(names[0]));
        let rest = names.skip(1);
        assert forall|i: int| 0 <= i < rest.len() implies plain(#[trigger] rest[i]) by {
            assert(rest[i] == names[i + 1]);
        }
        lemma_behind_names(rest, list);
        assert((names + list).skip(1) == rest + list);
        assert((names + list)[0] == names[0]);
    }
}

/// A path below the home directory is shown as `~/` and what stands behind the
/// home directory in it, as it is written there.
pub proof fn law_shown_as_written(names: Seq<Seq<u8>>, list: Seq<Seq<u8>>)
    requires
        names.len() > 0,
        forall|i: int| 0 <= i < names.len() ==> plain(#[trigger] names[i]),
        list.len() > 0,
        forall|i: int| 0 <= i < list.len() ==> !(#[trigger] list[i]).contains(47u8),
        plain(list[0]),
        plain(list.last()),
    ensures
        ({
            let home = seq![47u8] + joined(names, 47u8);
            shown(home, home + seq![47u8] + joined(list, 47u8)) == seq![126u8, 47u8] + joined(
                list,
                47u8,
            )
        }),
{
    let home = seq![47u8] + joined(names, 47u8);
    let rest = joined(list, 47u8);
    let path = home + seq![47u8] + rest;
    let empty = Seq::<u8>::empty();
    law_absolute_paths(names);
    let front = seq![empty] + names;
    let all = front + list;
    assert forall|i: int| 0 <= i < front.len() implies !(#[trigger] front[i]).contains(47u8) by {
        if i > 0 {
            assert(plain(names[i - 1]));
        }
    }
    law_split(front, 47u8);
    lemma_joined_slash(names);
    law_split(list, 47u8);
    assert(path == home.push(47u8) + rest);
    crate::text::lemma_split_joined(home, 47u8, rest);
    assert(split(path, 47u8) == all);
    assert(rooted(path));
    lemma_body(all);
    assert(all == front + list);
    lemma_body_append(front, list);
    lemma_body(front);
    assert(components(home) == seq![Part::Root] + body(front));
    assert(components(path) == seq![Part::Root] + body(all));
    let k = components(home).len();
    assert(components(path).take(k as int) == components(home));
    assert(k == names.len() + 1);
    lemma_behind_names(names, list);
    assert(all.skip(1) == names + list);
    assert(behind(all, names.len()) == list);
    assert(trim_tail(list) == list);
    lemma_unsplit_joined(list);
    assert(strip_prefix(path, home) == Some(rest));
    lemma_tilde();
    assert(rest.len() > 0 && rest[0] == list[0][0]) by {
        lemma_joined_start(list, 47u8);
    }
    assert(list[0].contains(list[0][0]));
    assert(shown(home, path) =~= seq![126u8, 47u8] + rest);
}

} // verus!
