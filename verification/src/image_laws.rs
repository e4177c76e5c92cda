//! What getting the Debian image comes to.
use vstd::prelude::*;
use vstd::string::*;

use crate::foreign::{lower_hex, sha512_digest, text_of};
use crate::image::{
    after, find_white, first_sum, lemma_find_white, line_sum, listed_sum, stand, want_of,
    DebianImageView, ImageFault, PhaseView, ProgressView, ToldView, Want, SUMS_URL, TARBALL,
    TARBALL_URL,
};
use crate::text::{is_white, lines, trim};
use crate::text_laws::{all_white, law_trim, snug};

verus! {

// ---------------------------------------------------------------------------
// The list of checksums
// ---------------------------------------------------------------------------

/// Whether `s` has no white space.
pub open spec fn no_white(s: Seq<char>) -> bool {
    forall|i: int| 0 <= i < s.len() ==> !is_white(#[trigger] s[i])
}

/// Whether `line` lists the checksum `sum` for `name`: white space behind the
/// checksum, and around the name.
pub open spec fn lists(line: Seq<char>, sum: Seq<char>, name: Seq<char>) -> bool {
    exists|a: Seq<char>, b: Seq<char>|
        {
            &&& no_white(sum)
            &&& a.len() > 0
            &&& #[trigger] all_white(a)
            &&& #[trigger] all_white(b)
            &&& line == sum + a + name + b
        }
}

/// Whether `line` lists a checksum for `name`.
pub open spec fn lists_any(line: Seq<char>, name: Seq<char>) -> bool {
    exists|sum: Seq<char>| lists(line, sum, name)
}

proof fn lemma_lists(line: Seq<char>, sum: Seq<char>, name: Seq<char>)
    requires
        snug(name),
        lists(line, sum, name),
    ensures
        line_sum(line, name) == Some(sum),
{
    let (a, b) = choose|a: Seq<char>, b: Seq<char>|
        {
            &&& no_white(sum)
            &&& a.len() > 0
            &&& #[trigger] all_white(a)
            &&& #[trigger] all_white(b)
            &&& line == sum + a + name + b
        };
    let n = sum.len() as int;
    assert(is_white(a[0]));
    assert(line[n] == a[0]);
    assert forall|i: int| 0 <= i < n implies !is_white(#[trigger] line[i]) by {
        assert(line[i] == sum[i]);
    }
    lemma_find_white(line, n);
    let rest = a.skip(1);
    assert forall|i: int| 0 <= i < rest.len() implies is_white(#[trigger] rest[i]) by {
        assert(rest[i] == a[i + 1]);
    }
    assert(line.skip(n + 1) == rest + name + b);
    law_trim(rest, name, b);
    assert(line.take(n) == sum);
}

proof fn lemma_before_white(s: Seq<char>)
    ensures
        find_white(s) <= s.len(),
        no_white(s.take(find_white(s) as int)),
        find_white(s) < s.len() ==> is_white(s[find_white(s) as int]),
    decreases s.len(),
{
    if s.len() > 0 && !is_white(s[0]) {
        lemma_before_white(s.skip(1));
        let n = find_white(s) as int;
        assert forall|i: int| 0 <= i < n implies !is_white(#[trigger] s.take(n)[i]) by {
            if i > 0 {
                assert(s.take(n)[i] == s.skip(1).take(n - 1)[i - 1]);
            }
        }
    }
}

/// The white space that trimming takes away.
proof fn lemma_trim_parts(s: Seq<char>) -> (r: (Seq<char>, Seq<char>))
    ensures
        all_white(r.0),
        all_white(r.1),
        s == r.0 + trim(s) + r.1,
    decreases s.len(),
{
    if s.len() == 0 {
        assert(s == s + trim(s) + s);
        (s, s)
    } else if is_white(s[0]) {
        let (a, b) = lemma_trim_parts(s.skip(1));
        let c = seq![s[0]] + a;
        assert forall|i: int| 0 <= i < c.len() implies is_white(#[trigger] c[i]) by {
            if i > 0 {
                assert(c[i] == a[i - 1]);
            }
        }
        assert(s == seq![s[0]] + s.skip(1));
        assert(trim(s) == trim(s.skip(1)));
        assert(s == c + trim(s) + b);
        (c, b)
    } else {
        let b = lemma_end_parts(s);
        assert(s == Seq::<char>::empty() + trim(s) + b);
        (Seq::empty(), b)
    }
}

proof fn lemma_end_parts(s: Seq<char>) -> (b: Seq<char>)
    ensures
        all_white(b),
        s == crate::text::trim_end(s) + b,
    decreases s.len(),
{
    if s.len() > 0 && is_white(s.last()) {
        let b = lemma_end_parts(s.drop_last());
        let c = b.push(s.last());
        assert(s == s.drop_last().push(s.last()));
        assert(s == crate::text::trim_end(s) + c);
        c
    } else {
        assert(s == s + Seq::<char>::empty());
        Seq::empty()
    }
}

proof fn lemma_line_sum(line: Seq<char>, name: Seq<char>)
    requires
        line_sum(line, name) is Some,
    ensures
        lists(line, line_sum(line, name)->0, name),
{
    lemma_before_white(line);
    let n = find_white(line) as int;
    let sum = line.take(n);
    let (a, b) = lemma_trim_parts(line.skip(n + 1));
    let c = seq![line[n]] + a;
    assert forall|i: int| 0 <= i < c.len() implies is_white(#[trigger] c[i]) by {
        if i > 0 {
            assert(c[i] == a[i - 1]);
        }
    }
    assert(line == sum + seq![line[n]] + line.skip(n + 1));
    assert(line == sum + c + name + b);
    assert(all_white(c) && all_white(b));
}

proof fn lemma_first_sum(list: Seq<Seq<char>>, name: Seq<char>, i: int)
    requires
        0 <= i <= list.len(),
        forall|j: int| 0 <= j < i ==> line_sum(#[trigger] list[j], name) is None,
    ensures
        first_sum(list, name) == first_sum(list.skip(i), name),
    decreases i,
{
    if i > 0 {
        assert(line_sum(list[0], name) is None);
        let rest = list.skip(1);
        assert forall|j: int| 0 <= j < i - 1 implies line_sum(#[trigger] rest[j], name) is None by {
            assert(rest[j] == list[j + 1]);
        }
        lemma_first_sum(rest, name, i - 1);
        assert(rest.skip(i - 1) == list.skip(i));
    } else {
        assert(list.skip(0) == list);
    }
}

/// The checksum of a file is all that stands before the white space in the
/// first line that lists the file, however long it is; a file that no line
/// lists has none.
pub proof fn law_listed_sum(text: Seq<char>, name: Seq<char>, sum: Seq<char>, i: int)
    requires
        snug(name),
    ensures
        ({
            let list = lines(text);
            &&& 0 <= i < list.len() && lists(list[i], sum, name) && (forall|j: int|
                0 <= j < i ==> !lists_any(#[trigger] list[j], name)) ==> listed_sum(text, name)
                == Some(sum)
            &&& (forall|j: int|
                0 <= j < list.len() ==> !lists_any(#[trigger] list[j], name)) ==> listed_sum(
                text,
                name,
            ) is None
        }),
{
    let list = lines(text);
    if 0 <= i < list.len() && lists(list[i], sum, name) && (forall|j: int|
        0 <= j < i ==> !lists_any(#[trigger] list[j], name)) {
        lemma_lists(list[i], sum, name);
        assert forall|j: int| 0 <= j < i implies line_sum(#[trigger] list[j], name) is None by {
            if line_sum(list[j], name) is Some {
                lemma_line_sum(list[j], name);
            }
        }
        lemma_first_sum(list, name, i);
        assert(list.skip(i)[0] == list[i]);
    }
    if forall|j: int|
        0 <= j < list.len() ==> !lists_any(#[trigger] list[j], name) {
        assert forall|j: int| 0 <= j < list.len() implies line_sum(
            #[trigger] list[j],
            name,
        ) is None by {
            if line_sum(list[j], name) is Some {
                lemma_line_sum(list[j], name);
            }
        }
        lemma_first_sum(list, name, list.len() as int);
        assert(list.skip(list.len() as int).len() == 0);
    }
}

// ---------------------------------------------------------------------------
// Getting the image
// ---------------------------------------------------------------------------

/// Whether the list of checksums in `bytes` gives `sum` for the tarball: it is
/// the first that is listed for it.
pub open spec fn list_has(bytes: Seq<u8>, sum: Seq<char>) -> bool {
    let list = lines(text_of(bytes));
    exists|i: int|
        {
            &&& 0 <= i < list.len()
            &&& lists(#[trigger] list[i], sum, TARBALL@)
            &&& forall|j: int|
                0 <= j < i ==> !lists_any(#[trigger] list[j], TARBALL@)
        }
}

/// Whether the list of checksums in `bytes` says nothing of the tarball.
pub open spec fn list_lacks(bytes: Seq<u8>) -> bool {
    let list = lines(text_of(bytes));
    forall|j: int|
        0 <= j < list.len() ==> !lists_any(#[trigger] list[j], TARBALL@)
}

proof fn lemma_tarball()
    ensures
        snug(TARBALL@),
{
    reveal_strlit("debian-13-genericcloud-arm64.tar.xz");
}

proof fn lemma_expected(bytes: Seq<u8>, sum: Seq<char>)
    ensures
        list_has(bytes, sum) ==> listed_sum(text_of(bytes), TARBALL@) == Some(sum),
        list_lacks(bytes) ==> listed_sum(text_of(bytes), TARBALL@) is None,
{
    lemma_tarball();
    let list = lines(text_of(bytes));
    if list_has(bytes, sum) {
        let i = choose|i: int|
            {
                &&& 0 <= i < list.len()
                &&& lists(#[trigger] list[i], sum, TARBALL@)
                &&& forall|j: int|
                    0 <= j < i ==> !lists_any(#[trigger] list[j], TARBALL@)
            };
        law_listed_sum(text_of(bytes), TARBALL@, sum, i);
    }
    law_listed_sum(text_of(bytes), TARBALL@, sum, 0);
}

/// Whether the image that is kept was made from the tarball with the checksum
/// `sum`: it is there, and so is its stamp, which says so.
pub open spec fn kept_is(stamp: Option<Seq<char>>, there: bool, sum: Seq<char>) -> bool {
    there && stamp is Some && exists|a: Seq<char>, b: Seq<char>|
        #[trigger] all_white(a) && #[trigger] all_white(b) && snug(sum) && stamp->0 == a + sum + b
}

proof fn lemma_kept(stamp: Option<Seq<char>>, there: bool, sum: Seq<char>)
    ensures
        kept_is(stamp, there, sum) <==> there && stamp is Some && trim(stamp->0) == sum,
{
    if kept_is(stamp, there, sum) {
        let (a, b) = choose|a: Seq<char>, b: Seq<char>|
            #[trigger] all_white(a) && #[trigger] all_white(b) && snug(sum) && stamp->0 == a + sum
                + b;
        law_trim(a, sum, b);
    }
    if there && stamp is Some && trim(stamp->0) == sum {
        let (a, b) = lemma_trim_parts(stamp->0);
        crate::text_laws::law_trimmed_is_snug(stamp->0);
        assert(all_white(a) && all_white(b));
    }
}

/// What is to be done where things stand.
pub open spec fn wanted(p: ProgressView) -> Option<Want> {
    match p {
        ProgressView::Next(phase) => Some(want_of(phase)),
        _ => None,
    }
}

/// With a list that has the tarball, an image that was made from the listed
/// tarball is used as it is, and nothing is downloaded.
pub proof fn law_current_image_is_used(
    raw: Seq<u8>,
    bytes: Seq<u8>,
    stamp: Option<Seq<char>>,
    there: bool,
    sum: Seq<char>,
)
    ensures
        list_has(bytes, sum) ==> ({
            let news = seq![ToldView::Sums(Ok(bytes)), ToldView::Cache(stamp, there)];
            &&& wanted(stand(raw, news, 0)) == Some(Want::Sums)
            &&& wanted(stand(raw, news, 1)) == Some(Want::Cache)
            &&& kept_is(stamp, there, sum) ==> stand(raw, news, 2) == ProgressView::Ready(
                DebianImageView { path: raw, sha512: sum },
            )
            &&& !kept_is(stamp, there, sum) ==> wanted(stand(raw, news, 2)) == Some(Want::Hash)
        }),
{
    lemma_expected(bytes, sum);
    lemma_kept(stamp, there, sum);
    reveal_with_fuel(stand, 3);
}

/// Without a list, or with one that lacks the tarball, the image that is kept
/// has to do; without that, there is none, and it says why.
pub proof fn law_kept_image_has_to_do(
    raw: Seq<u8>,
    sums: Result<Seq<u8>, Seq<char>>,
    stamp: Option<Seq<char>>,
    there: bool,
    sum: Seq<char>,
)
    ensures
        (sums is Ok ==> list_lacks(sums->Ok_0)) ==> ({
            let news = seq![ToldView::Sums(sums), ToldView::Cache(stamp, there)];
            &&& kept_is(stamp, there, sum) ==> stand(raw, news, 2) == ProgressView::Unchecked(
                DebianImageView { path: raw, sha512: sum },
            )
            &&& !there || stamp is None ==> stand(raw, news, 2) == ProgressView::Failed(
                match sums {
                    Ok(_) => ImageFault::NotListed,
                    Err(reason) => ImageFault::Unreachable(reason),
                },
            )
        }),
{
    if sums is Ok {
        lemma_expected(sums->Ok_0, sum);
    }
    lemma_kept(stamp, there, sum);
    reveal_with_fuel(stand, 3);
}

/// A tarball with the listed checksum is unpacked and installed: the one that
/// is there already, else the one that is downloaded. A downloaded one with
/// another checksum is removed, and one without a disk image fails.
pub proof fn law_listed_tarball_is_installed(
    raw: Seq<u8>,
    bytes: Seq<u8>,
    stamp: Option<Seq<char>>,
    there: bool,
    sum: Seq<char>,
    first: Option<Seq<char>>,
    second: Seq<char>,
    disk: bool,
)
    ensures
        list_has(bytes, sum) && !kept_is(stamp, there, sum) ==> ({
            let head = seq![ToldView::Sums(Ok(bytes)), ToldView::Cache(stamp, there)];
            let own = head + seq![
                ToldView::Hash(first),
                ToldView::Unpacked(disk),
                ToldView::Installed,
            ];
            let new = head + seq![
                ToldView::Hash(first),
                ToldView::Downloaded,
                ToldView::Hash(Some(second)),
                ToldView::Unpacked(disk),
                ToldView::Installed,
            ];
            let bad = head + seq![
                ToldView::Hash(first),
                ToldView::Downloaded,
                ToldView::Hash(Some(second)),
                ToldView::Removed,
            ];
            let ready = ProgressView::Ready(DebianImageView { path: raw, sha512: sum });
            let no_disk = ProgressView::Failed(ImageFault::NoDisk);
            &&& first == Some(sum) ==> {
                &&& wanted(stand(raw, own, 3)) == Some(Want::Unpack)
                &&& disk ==> wanted(stand(raw, own, 4)) == Some(Want::Install)
                &&& stand(raw, own, 5) == (if disk {
                    ready
                } else {
                    no_disk
                })
            }
            &&& first != Some(sum) ==> {
                &&& wanted(stand(raw, new, 3)) == Some(Want::Download)
                &&& wanted(stand(raw, new, 4)) == Some(Want::Rehash)
                &&& second == sum ==> {
                    &&& wanted(stand(raw, new, 5)) == Some(Want::Unpack)
                    &&& disk ==> wanted(stand(raw, new, 6)) == Some(Want::Install)
                    &&& stand(raw, new, 7) == (if disk {
                        ready
                    } else {
                        no_disk
                    })
                }
                &&& second != sum ==> {
                    &&& wanted(stand(raw, bad, 5)) == Some(Want::Remove)
                    &&& stand(raw, bad, 6) == ProgressView::Failed(
                        ImageFault::Mismatch { expected: sum, actual: second },
                    )
                }
            }
        }),
{
    lemma_expected(bytes, sum);
    lemma_kept(stamp, there, sum);
    reveal_with_fuel(stand, 8);
}

proof fn lemma_hex_no_white(data: Seq<u8>)
    ensures
        no_white(lower_hex(data)),
{
    let h = lower_hex(data);
    assert forall|i: int| 0 <= i < h.len() implies !is_white(#[trigger] h[i]) by {
    }
}

/// A download with the content that the list was made from is installed: the
/// list has the whole checksum of the content, two blanks and the tarball's
/// name in one line.
pub proof fn law_good_download_is_installed(
    raw: Seq<u8>,
    bytes: Seq<u8>,
    data: Seq<u8>,
    i: int,
)
    ensures
        0 <= i < lines(text_of(bytes)).len() && lines(text_of(bytes))[i] == lower_hex(
            sha512_digest(data),
        ) + seq![' ', ' '] + TARBALL@ && (forall|j: int|
            0 <= j < i ==> !lists_any(#[trigger] lines(text_of(bytes))[j], TARBALL@)) ==> stand(
            raw,
            seq![
                ToldView::Sums(Ok(bytes)),
                ToldView::Cache(None, false),
                ToldView::Hash(None),
                ToldView::Downloaded,
                ToldView::Hash(Some(lower_hex(sha512_digest(data)))),
                ToldView::Unpacked(true),
                ToldView::Installed,
            ],
            7,
        ) == ProgressView::Ready(
            DebianImageView { path: raw, sha512: lower_hex(sha512_digest(data)) },
        ),
{
    let sum = lower_hex(sha512_digest(data));
    let list = lines(text_of(bytes));
    lemma_hex_no_white(sha512_digest(data));
    let a = seq![' ', ' '];
    let b = Seq::<char>::empty();
    assert(all_white(a) && all_white(b));
    if 0 <= i < list.len() && list[i] == sum + a + TARBALL@ && (forall|j: int|
        0 <= j < i ==> !lists_any(#[trigger] list[j], TARBALL@)) {
        assert(list[i] == sum + a + TARBALL@ + b);
        assert(lists(list[i], sum, TARBALL@));
        assert(list_has(bytes, sum));
        law_listed_tarball_is_installed(raw, bytes, None, false, sum, None, sum, true);
        assert(seq![ToldView::Sums(Ok(bytes)), ToldView::Cache(None, false)] + seq![
            ToldView::Hash(None),
            ToldView::Downloaded,
            ToldView::Hash(Some(sum)),
            ToldView::Unpacked(true),
            ToldView::Installed,
        ] =~= seq![
            ToldView::Sums(Ok(bytes)),
            ToldView::Cache(None, false),
            ToldView::Hash(None),
            ToldView::Downloaded,
            ToldView::Hash(Some(sum)),
            ToldView::Unpacked(true),
            ToldView::Installed,
        ]);
    }
}

/// Whether `told` says what became of `want`.
pub open spec fn answers(want: Want, told: ToldView) -> bool {
    match want {
        Want::Sums => told is Sums,
        Want::Cache => told is Cache,
        Want::Hash => told is Hash,
        Want::Download => told is Downloaded,
        Want::Rehash => told is Hash && told->Hash_0 is Some,
        Want::Remove => told is Removed,
        Want::Unpack => told is Unpacked,
        Want::Install => told is Installed,
    }
}

/// Getting the image goes on exactly when what was asked for is told.
pub proof fn law_only_answers_count(raw: Seq<u8>, phase: PhaseView, told: ToldView)
    ensures
        after(raw, phase, told) == ProgressView::Next(phase) <==> !answers(want_of(phase), told),
{
}

/// The list of checksums and the tarball that it lists come from the same
/// place.
pub proof fn law_urls()
    ensures
        TARBALL_URL@ == "https://cloud.debian.org/images/cloud/trixie/latest/"@ + TARBALL@,
        SUMS_URL@ == "https://cloud.debian.org/images/cloud/trixie/latest/"@ + "SHA512SUMS"@,
{
    reveal_strlit("https://cloud.debian.org/images/cloud/trixie/latest/");
    reveal_strlit("SHA512SUMS");
    reveal_strlit("debian-13-genericcloud-arm64.tar.xz");
    reveal_strlit("https://cloud.debian.org/images/cloud/trixie/latest/SHA512SUMS");
    reveal_strlit(
        "https://cloud.debian.org/images/cloud/trixie/latest/debian-13-genericcloud-arm64.tar.xz",
    );
    assert(TARBALL_URL@ =~= "https://cloud.debian.org/images/cloud/trixie/latest/"@ + TARBALL@);
    assert(SUMS_URL@ =~= "https://cloud.debian.org/images/cloud/trixie/latest/"@ + "SHA512SUMS"@);
}

} // verus!
