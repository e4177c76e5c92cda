//! What provisioning comes to.
use vstd::prelude::*;
use vstd::string::*;
use vstd::utf8::*;

use crate::assets::SUCCESS_SENTINEL;
use crate::foreign::{lower_hex, sha256_digest};
use crate::order::bytes_less;
use crate::provision::{
    after, command_text, in_name_order, joined_names, law_scripts_in_name_order, occurs,
    revision_of, script_before, script_name, stamps_of, stand, Progress, ScriptView, Told, Want,
};
use crate::text::starts_with;

verus! {

// ---------------------------------------------------------------------------
// Provisioning
// ---------------------------------------------------------------------------

/// What stands in the middle of something occurs in it, and what occurs
/// somewhere stands there.
pub proof fn law_occurs<T>(before: Seq<T>, needle: Seq<T>, behind: Seq<T>, haystack: Seq<T>)
    ensures
        occurs(before + needle + behind, needle),
        occurs(haystack, needle) ==> exists|a: Seq<T>, b: Seq<T>|
            haystack == #[trigger] (a + needle + b),
{
    let whole = before + needle + behind;
    let n = before.len() as int;
    assert(whole.subrange(n, n + needle.len()) == needle);
    if occurs(haystack, needle) {
        let i = choose|i: int|
            0 <= i <= haystack.len() - needle.len() && #[trigger] haystack.subrange(
                i,
                i + needle.len(),
            ) == needle;
        let a = haystack.take(i);
        let b = haystack.skip(i + needle.len());
        assert(haystack == a + needle + b);
    }
}

/// An image is already there if and only if it is there and no rebuild is
/// asked for; that ends it, whatever is told later. Otherwise it is built.
pub proof fn law_builds_unless_there(force: bool, there: bool, news: Seq<Told>, n: nat)
    requires
        0 < n <= news.len(),
        news[0] == Told::Looked(there),
    ensures
        stand(force, news, n) is AlreadyThere <==> there && !force,
        stand(force, news, 0) == Progress::Next(Want::Look),
        !there || force ==> stand(force, news, 1) == Progress::Next(Want::Prepare),
    decreases n,
{
    reveal_with_fuel(stand, 2);
    assert(stand(force, news, 0) == Progress::Next(Want::Look));
    if n > 1 {
        law_builds_unless_there(force, there, news, (n - 1) as nat);
        if !there || force {
            lemma_only_look_ends_early(force, there, news, n);
        }
    }
}

proof fn lemma_only_look_ends_early(force: bool, there: bool, news: Seq<Told>, n: nat)
    requires
        1 < n <= news.len(),
        news[0] == Told::Looked(there),
        !there || force,
    ensures
        stand(force, news, n) !is AlreadyThere,
        stand(force, news, (n - 1) as nat) != Progress::Next(Want::Look),
    decreases n,
{
    reveal_with_fuel(stand, 3);
    if n > 2 {
        lemma_only_look_ends_early(force, there, news, (n - 1) as nat);
    } else {
        assert(stand(force, news, 1) == Progress::Next(Want::Prepare));
    }
}

/// A build goes through all its steps in order: it is prepared, booted, and
/// its log is read. With the sentinel anywhere in the log the new image is
/// installed, and ready then; without it, provisioning has failed.
pub proof fn law_build(force: bool, there: bool, output: Vec<u8>, a: Seq<u8>, b: Seq<u8>)
    requires
        !there || force,
    ensures
        ({
            let news = seq![
                Told::Looked(there),
                Told::Prepared,
                Told::Stopped,
                Told::Log(output),
                Told::Installed,
            ];
            let sentinel = encode_utf8(SUCCESS_SENTINEL@);
            &&& stand(force, news, 1) == Progress::Next(Want::Prepare)
            &&& stand(force, news, 2) == Progress::Next(Want::Boot)
            &&& stand(force, news, 3) == Progress::Next(Want::Log)
            &&& output@ == a + sentinel + b ==> stand(force, news, 4) == Progress::Next(
                Want::Install,
            ) && stand(force, news, 5) is Ready
            &&& (forall|x: Seq<u8>, y: Seq<u8>| output@ != #[trigger] (x + sentinel + y))
                ==> stand(force, news, 4) is Failed && stand(force, news, 5) is Failed
        }),
{
    let sentinel = encode_utf8(SUCCESS_SENTINEL@);
    law_occurs(a, sentinel, b, output@);
    reveal_with_fuel(stand, 6);
}

/// Whether `told` says what became of `want`.
pub open spec fn answers(want: Want, told: Told) -> bool {
    match want {
        Want::Look => told is Looked,
        Want::Prepare => told is Prepared,
        Want::Boot => told is Stopped,
        Want::Log => told is Log,
        Want::Install => told is Installed,
    }
}

/// Provisioning goes on exactly when what was asked for is told.
pub proof fn law_only_answers_count(want: Want, force: bool, told: Told)
    ensures
        after(want, force, told) == Progress::Next(want) <==> !answers(want, told),
{
}

/// A recorded revision counts as it is, and without one an image is of the
/// first.
pub proof fn law_revisions(n: u32)
    ensures
        revision_of(Some(n)) == n,
        revision_of(None) == 1,
{
}

// ---------------------------------------------------------------------------
// Commands and scripts
// ---------------------------------------------------------------------------

/// The command that provisions an image names it, unless it is the default
/// one, and ends in `--force` if and only if it is to rebuild it.
pub proof fn law_command(image: Seq<char>)
    ensures
        command_text("default"@, false) == "sendit provision"@,
        image != "default"@ ==> command_text(image, false) == "sendit provision "@ + image,
        command_text(image, true) == command_text(image, false) + " --force"@,
{
    reveal_strlit("sendit provision");
    reveal_strlit("sendit provision ");
    reveal_strlit(" ");
    assert("sendit provision"@ + Seq::<char>::empty() + Seq::<char>::empty()
        == "sendit provision"@);
    assert("sendit provision"@ + " "@ == "sendit provision "@);
    assert("sendit provision"@ + (" "@ + image) + Seq::<char>::empty() == "sendit provision "@
        + image);
    let head = "sendit provision"@ + (if image == "default"@ {
        Seq::empty()
    } else {
        " "@ + image
    });
    assert(head + Seq::<char>::empty() == head);
}

/// A file is a script to run if and only if its name is text that ends in
/// `.sh` and doesn't start with a dot.
pub proof fn law_script_names(s: Seq<char>, stem: Seq<char>, name: Seq<u8>)
    ensures
        script_name(encode_utf8(s)) ==> s.len() > 3 && s[0] != '.' && s == s.take(s.len() - 3)
            + ".sh"@,
        stem.len() > 0 && stem[0] != '.' ==> script_name(encode_utf8(stem + ".sh"@)),
        !valid_utf8(name) ==> !script_name(name),
{
    reveal_strlit(".");
    reveal_strlit(".sh");
    encode_utf8_valid_utf8(s);
    encode_utf8_decode_utf8(s);
    if script_name(encode_utf8(s)) {
        assert(s == s.take(s.len() - 3) + s.skip(s.len() - 3));
        if s[0] == '.' {
            assert(s.take(1) == "."@);
        }
        if s.len() == 3 {
            assert(s.skip(0) == s);
            assert(s[0] == ".sh"@[0]);
        }
    }
    let t = stem + ".sh"@;
    encode_utf8_valid_utf8(t);
    encode_utf8_decode_utf8(t);
    if stem.len() > 0 && stem[0] != '.' {
        assert(t.skip(t.len() - 3) == ".sh"@);
        assert(t.take(1)[0] == stem[0]);
        assert("."@[0] == '.');
    }
}

/// The scripts that are run are those that there are, by the bytes of their
/// names.
pub proof fn law_script_order(list: Seq<ScriptView>, i: int, j: int)
    requires
        0 <= i < j < list.len(),
    ensures
        ({
            let run = in_name_order(list, list.len());
            &&& run.len() == list.len()
            &&& run.to_multiset() == list.to_multiset()
            &&& !bytes_less(encode_utf8(run[j].name), encode_utf8(run[i].name))
        }),
{
    broadcast use vstd::seq_lib::group_to_multiset_ensures;

    law_scripts_in_name_order(list, list.len());
    let run = in_name_order(list, list.len());
    assert(list.take(list.len() as int) == list);
    assert(run.to_multiset().len() == run.len());
    assert(list.to_multiset().len() == list.len());
    assert(!script_before(run[j], run[i]));
}

/// The text that lists scripts has each script's name, in order, with `, `
/// before all but the first.
pub proof fn law_script_list(scripts: Seq<ScriptView>, i: int, n: nat) -> (around: (
    Seq<char>,
    Seq<char>,
))
    requires
        0 <= i < n <= scripts.len(),
    ensures
        joined_names(scripts, n) == around.0 + scripts[i].name + around.1,
        around.0 == (if i == 0 {
            Seq::empty()
        } else {
            joined_names(scripts, i as nat) + ", "@
        }),
        around.1.len() == 0 <==> i == n - 1,
        i < n - 1 ==> starts_with(around.1, ", "@ + scripts[i + 1].name),
    decreases n,
{
    reveal_strlit(", ");
    if i == n - 1 {
        let lead = if i == 0 {
            Seq::empty()
        } else {
            joined_names(scripts, i as nat) + ", "@
        };
        assert(joined_names(scripts, n) == lead + scripts[i].name + Seq::<char>::empty());
        (lead, Seq::empty())
    } else {
        let (a, b) = law_script_list(scripts, i, (n - 1) as nat);
        let tail = ", "@ + scripts[n - 1].name;
        assert(joined_names(scripts, n) == a + scripts[i].name + (b + tail));
        if i == n - 2 {
            assert(b + tail == tail);
            assert(tail.take(tail.len() as int) == tail);
        } else {
            let lead = ", "@ + scripts[i + 1].name;
            assert((b + tail).take(lead.len() as int) == b.take(lead.len() as int));
        }
        (a, b + tail)
    }
}

/// A script's stamp is its name and the SHA-256 of its content in hex, and
/// there is one for each script, in order.
pub proof fn law_stamps(scripts: Seq<ScriptView>, i: int)
    ensures
        stamps_of(scripts).len() == scripts.len(),
        0 <= i < scripts.len() ==> stamps_of(scripts)[i].name == scripts[i].name && stamps_of(
            scripts,
        )[i].sha256 == lower_hex(sha256_digest(scripts[i].content)),
{
}

} // verus!
