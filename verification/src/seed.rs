//! The files of the cloud-init seed that a base image is provisioned with.
use vstd::prelude::*;
use vstd::string::*;
use vstd::utf8::*;

use crate::assets::{BANNER, KEY_PLACEHOLDER, PROVISION_SCRIPT, USER_DATA};
use crate::mounts::{lemma_lines_read_back, one_line, text_of_lines};
use crate::number::{dec, dec_padded, decimal, decimal_padded, lemma_dec_value, repeat};
use crate::path::copy_bytes;
use crate::provision::{script_views, CustomScript, ScriptView};
use crate::text::{
    chars_of, has_control, is_control, lines, same_chars, starts_with, string_of, sub_text,
};

verus! {

/// A file of the seed, by its path in it.
#[derive(Debug)]
pub struct SeedFile {
    pub name: String,
    pub content: Vec<u8>,
}

/// A file of the seed, as a mathematical value.
pub struct SeedFileView {
    pub name: Seq<char>,
    pub content: Seq<u8>,
}

impl View for SeedFile {
    type V = SeedFileView;

    open spec fn view(&self) -> SeedFileView {
        SeedFileView { name: self.name@, content: self.content@ }
    }
}

/// The files' values.
pub open spec fn file_views(v: Seq<SeedFile>) -> Seq<SeedFileView> {
    Seq::new(v.len(), |i: int| v[i]@)
}

/// `s` with each `from` replaced by `to`, from left to right.
pub open spec fn replaced(s: Seq<char>, from: Seq<char>, to: Seq<char>) -> Seq<char>
    decreases s.len(),
{
    if s.len() == 0 || from.len() == 0 {
        s
    } else if starts_with(s, from) {
        to + replaced(s.skip(from.len() as int), from, to)
    } else {
        seq![s[0]] + replaced(s.skip(1), from, to)
    }
}

/// Replaces each `from` in `s` by `to`.
pub fn replace(s: &str, from: &str, to: &str) -> (r: String)
    requires
        from@.len() > 0,
    ensures
        r@ == replaced(s@, from@, to@),
{
    let text = chars_of(s);
    let old_text = chars_of(from);
    let new_text = chars_of(to);
    let mut out: Vec<char> = Vec::new();
    let mut i: usize = 0;
    assert(text@.skip(0) == text@);
    while i < text.len()
        invariant
            i <= text@.len(),
            text@ == s@,
            old_text@ == from@,
            new_text@ == to@,
            from@.len() > 0,
            replaced(s@, from@, to@) == out@ + replaced(s@.skip(i as int), from@, to@),
        decreases text.len() - i,
    {
        let ghost rest = s@.skip(i as int);
        let ghost before = out@;
        let mut here = false;
        if text.len() - i >= old_text.len() {
            let window = sub_text(text.as_slice(), i, i + old_text.len());
            assert(window@ == rest.take(old_text@.len() as int));
            here = same_chars(window.as_slice(), old_text.as_slice());
        }
        assert(here == starts_with(rest, from@));
        if here {
            push_chars(&mut out, new_text.as_slice());
            assert(rest.skip(from@.len() as int) == s@.skip(i + from@.len()));
            assert(before + (to@ + replaced(s@.skip(i + from@.len()), from@, to@)) == before + to@
                + replaced(s@.skip(i + from@.len()), from@, to@));
            i += old_text.len();
        } else {
            out.push(text[i]);
            assert(rest[0] == s@[i as int]);
            assert(rest.skip(1) == s@.skip(i + 1));
            assert(before + (seq![s@[i as int]] + replaced(s@.skip(i + 1), from@, to@))
                == before.push(s@[i as int]) + replaced(s@.skip(i + 1), from@, to@));
            i += 1;
        }
    }
    assert(s@.skip(i as int) == Seq::<char>::empty());
    assert(out@ + Seq::<char>::empty() == out@);
    string_of(out.as_slice())
}

fn push_chars(v: &mut Vec<char>, more: &[char])
    ensures
        final(v)@ == old(v)@ + more@,
{
    let ghost start = v@;
    let mut i: usize = 0;
    while i < more.len()
        invariant
            i <= more@.len(),
            v@ == start + more@.take(i as int),
        decreases more.len() - i,
    {
        v.push(more[i]);
        assert(more@.take(i + 1) == more@.take(i as int).push(more@[i as int]));
        i += 1;
    }
    assert(more@.take(i as int) == more@);
}

/// The name of the file that holds script `i`. Numbered names survive the
/// ISO's file name limits.
pub open spec fn script_file_name(i: nat) -> Seq<char> {
    dec_padded(i + 1, 3) + ".sh"@
}

/// The line of the list that maps script `i` back to its own name.
pub open spec fn list_line(scripts: Seq<ScriptView>, i: int) -> Seq<char> {
    script_file_name(i as nat) + " "@ + scripts[i].name
}

/// The lines of the list of custom scripts.
pub open spec fn list_lines(scripts: Seq<ScriptView>) -> Seq<Seq<char>> {
    Seq::new(scripts.len(), |i: int| list_line(scripts, i))
}

/// The files with the custom scripts.
pub open spec fn script_files(scripts: Seq<ScriptView>) -> Seq<SeedFileView> {
    Seq::new(
        scripts.len(),
        |i: int|
            SeedFileView {
                name: "custom/"@ + script_file_name(i as nat),
                content: scripts[i].content,
            },
    )
}

/// A file with this text.
pub open spec fn text_file(name: Seq<char>, text: Seq<char>) -> SeedFileView {
    SeedFileView { name, content: encode_utf8(text) }
}

/// The files of the seed: cloud-init's, the built-in provisioning's, the
/// custom scripts and the list of them.
pub open spec fn seed_files(key: Seq<char>, scripts: Seq<ScriptView>, now: nat) -> Seq<
    SeedFileView,
> {
    seq![
        text_file(
            "meta-data"@,
            "instance-id: sendit-"@ + dec(now) + "\nlocal-hostname: sendit\n"@,
        ),
        text_file("user-data"@, replaced(USER_DATA@, KEY_PLACEHOLDER@, key)),
        text_file("provision.sh"@, PROVISION_SCRIPT@),
        text_file("banner.txt"@, BANNER@),
    ] + script_files(scripts).push(
        text_file("custom/list"@, text_of_lines(list_lines(scripts))),
    )
}

/// A public key that can't be put into the user data.
#[derive(Debug)]
pub struct KeyError {
    pub key: String,
}

impl KeyError {
    /// What went wrong, for people.
    pub fn message(&self) -> (s: String)
        ensures
            s@ == "unexpected SSH public key format"@,
    {
        "unexpected SSH public key format".to_owned()
    }
}

/// Whether a public key stays within its place in the user data.
pub open spec fn key_fits(key: Seq<char>) -> bool {
    forall|i: int| 0 <= i < key.len() ==> #[trigger] key[i] != '\n' && key[i] != '"'
}

fn fits(key: &str) -> (r: bool)
    ensures
        r == key_fits(key@),
{
    let chars = chars_of(key);
    let mut i: usize = 0;
    while i < chars.len()
        invariant
            i <= chars@.len(),
            chars@ == key@,
            forall|j: int| 0 <= j < i ==> #[trigger] key@[j] != '\n' && key@[j] != '"',
        decreases chars.len() - i,
    {
        if chars[i] == '\n' || chars[i] == '"' {
            assert(!(key@[i as int] != '\n' && key@[i as int] != '"'));
            return false;
        }
        i += 1;
    }
    true
}

fn text_entry(name: &str, text: &str) -> (f: SeedFile)
    ensures
        f@ == text_file(name@, text@),
{
    SeedFile { name: name.to_owned(), content: copy_bytes(text.as_bytes()) }
}

/// The files of the NoCloud seed, made at time `now`.
pub fn build_seed(public_key: &str, scripts: &Vec<CustomScript>, now: u64) -> (r: Result<
    Vec<SeedFile>,
    KeyError,
>)
    ensures
        r is Ok <==> key_fits(public_key@),
        r is Ok ==> file_views(r->Ok_0@) == seed_files(
            public_key@,
            script_views(scripts@),
            now as nat,
        ),
        r is Err ==> r->Err_0.key@ == public_key@,
{
    if !fits(public_key) {
        return Err(KeyError { key: public_key.to_owned() });
    }
    let ghost views = script_views(scripts@);
    proof {
        reveal_strlit("@SSH_PUBLIC_KEY@");
    }
    let mut files: Vec<SeedFile> = Vec::new();
    let meta = "instance-id: sendit-".to_owned().concat(decimal(now).as_str()).concat(
        "\nlocal-hostname: sendit\n",
    );
    files.push(text_entry("meta-data", meta.as_str()));
    files.push(
        text_entry("user-data", replace(USER_DATA, KEY_PLACEHOLDER, public_key).as_str()),
    );
    files.push(text_entry("provision.sh", PROVISION_SCRIPT));
    files.push(text_entry("banner.txt", BANNER));
    let ghost head = file_views(files@);
    let ghost all = script_files(views);
    let ghost list_all = list_lines(views);
    let mut list = String::new();
    let mut i: usize = 0;
    assert(list_all.take(0) == Seq::<Seq<char>>::empty());
    while i < scripts.len()
        invariant
            i <= scripts@.len(),
            views == script_views(scripts@),
            all == script_files(views),
            list_all == list_lines(views),
            file_views(files@) == head + all.take(i as int),
            list@ == text_of_lines(list_all.take(i as int)),
        decreases scripts.len() - i,
    {
        let script = &scripts[i];
        assert(views[i as int] == script@);
        let file = decimal_padded(i as u64 + 1, 3).concat(".sh");
        assert(file@ == script_file_name(i as nat));
        let ghost before = file_views(files@);
        files.push(
            SeedFile {
                name: "custom/".to_owned().concat(file.as_str()),
                content: copy_bytes(script.content.as_slice()),
            },
        );
        assert(file_views(files@) == before.push(files@.last()@));
        assert(all.take(i + 1) == all.take(i as int).push(all[i as int]));
        let line = file.concat(" ").concat(script.name.as_str());
        assert(line@ == list_line(views, i as int));
        list.append(line.as_str());
        list.push('\n');
        assert(list_all.take(i + 1).drop_last() == list_all.take(i as int));
        assert(list_all.take(i + 1).last() == line@);
        i += 1;
    }
    assert(all.take(i as int) == all);
    assert(list_all.take(i as int) == list_all);
    let ghost before = file_views(files@);
    files.push(text_entry("custom/list", list.as_str()));
    assert(file_views(files@) == before.push(files@.last()@));
    assert(file_views(files@) == seed_files(public_key@, views, now as nat));
    Ok(files)
}

// ---------------------------------------------------------------------------
// Laws
// ---------------------------------------------------------------------------

pub proof fn lemma_padded(n: nat)
    ensures
        forall|k: int| 0 <= k < dec_padded(n, 3).len() ==> '0' <= #[trigger] dec_padded(n, 3)[k]
            <= '9',
        crate::number::all_digits(dec_padded(n, 3), 10),
        crate::number::value(dec_padded(n, 3), 10) == n,
{
    lemma_dec_value(n);
    let d = dec(n);
    let pad: nat = if 3 <= d.len() {
        0
    } else {
        (3 - d.len()) as nat
    };
    let s = dec_padded(n, 3);
    assert(s == repeat('0', pad) + d);
    assert forall|k: int| 0 <= k < s.len() implies '0' <= #[trigger] s[k] <= '9' by {
        if k < pad {
            assert(s[k] == '0');
        } else {
            assert(s[k] == d[k - pad]);
        }
    }
    lemma_leading_zeros(d, pad);
}

proof fn lemma_leading_zeros(d: Seq<char>, pad: nat)
    ensures
        crate::number::value(repeat('0', pad) + d, 10) == crate::number::value(d, 10),
    decreases d.len() + pad,
{
    let s = repeat('0', pad) + d;
    if d.len() > 0 {
        lemma_leading_zeros(d.drop_last(), pad);
        assert(s.drop_last() == repeat('0', pad) + d.drop_last());
    } else if pad > 0 {
        lemma_leading_zeros(d, (pad - 1) as nat);
        assert(s.drop_last() == repeat('0', (pad - 1) as nat) + d);
        assert(s.last() == '0');
    } else {
        assert(s == d);
    }
}

/// The custom scripts are in files of their own, however many there are.
pub proof fn law_script_files_are_distinct(i: nat, j: nat)
    requires
        i != j,
    ensures
        script_file_name(i) != script_file_name(j),
{
    lemma_padded(i + 1);
    lemma_padded(j + 1);
    reveal_strlit(".sh");
    let a = dec_padded(i + 1, 3);
    let b = dec_padded(j + 1, 3);
    if script_file_name(i) == script_file_name(j) {
        assert(script_file_name(i).len() == a.len() + 3);
        assert(script_file_name(j).len() == b.len() + 3);
        assert forall|k: int| 0 <= k < a.len() implies a[k] == b[k] by {
            assert(script_file_name(i)[k] == a[k]);
            assert(script_file_name(j)[k] == b[k]);
        }
        assert(a == b);
    }
}

/// The list of custom scripts has one line for each script, with the name of
/// its file and its own name: names without control characters, the only ones
/// that are collected, can't add or break a line.
pub proof fn law_script_list_reads_back(scripts: Seq<ScriptView>)
    requires
        forall|i: int| 0 <= i < scripts.len() ==> !has_control(#[trigger] scripts[i].name),
    ensures
        lines(text_of_lines(list_lines(scripts))) == list_lines(scripts),
{
    let list = list_lines(scripts);
    reveal_strlit(".sh");
    reveal_strlit(" ");
    assert forall|i: int| 0 <= i < list.len() implies one_line(#[trigger] list[i]) by {
        lemma_padded((i + 1) as nat);
        let number = dec_padded((i + 1) as nat, 3);
        let name = scripts[i].name;
        assert(!has_control(scripts[i].name));
        let line = list[i];
        assert(line == number + ".sh"@ + " "@ + name);
        assert forall|k: int| 0 <= k < line.len() implies !is_control(#[trigger] line[k]) by {
            if k < number.len() {
                assert(line[k] == number[k]);
            } else if k < number.len() + 3 {
                assert(line[k] == ".sh"@[k - number.len()]);
            } else if k == number.len() + 3 {
                assert(line[k] == ' ');
            } else {
                assert(line[k] == name[k - number.len() - 4]);
            }
        }
    }
    lemma_lines_read_back(list, Seq::empty());
    assert(text_of_lines(list) + Seq::<char>::empty() == text_of_lines(list));
    assert(list + lines(Seq::<char>::empty()) == list);
}

} // verus!
