//! What the guest and the base image are given.
use vstd::prelude::*;
use vstd::string::*;
use vstd::utf8::*;

use crate::assets::{BANNER, KEY_PLACEHOLDER, PROVISION_SCRIPT, USER_DATA};
use crate::config::{MountView, VmView};
use crate::foreign::text_of;
use crate::mounts::{manifest_lines, mount_tag, shares_of, text_of_lines};
use crate::number::{dec, dec_padded, lemma_dec_value, number};
use crate::provision::{occurs, ScriptView};
use crate::seed::{
    key_fits, lemma_padded, list_lines, replaced, script_file_name, seed_files, SeedFileView,
};
use crate::text::starts_with;

verus! {

// ---------------------------------------------------------------------------
// Shares and the manifest
// ---------------------------------------------------------------------------

/// Every mount's directory is shared, in its own mode, and the manifest says
/// under the same tag where to mount it and how. The directory of the manifest
/// is shared too, to be read only.
pub proof fn law_every_mount_is_shared(vm: VmView, meta: Seq<u8>, i: int)
    requires
        0 <= i < vm.mounts.len(),
    ensures
        ({
            let shares = shares_of(vm.mounts, meta);
            let n = vm.mounts.len() as int;
            let mode = if vm.mounts[i].read_only {
                seq![' ', 'r', 'o', ' ']
            } else {
                seq![' ', 'r', 'w', ' ']
            };
            &&& shares.len() == n + 1
            &&& shares[i].host == vm.mounts[i].host
            &&& shares[i].read_only == vm.mounts[i].read_only
            &&& manifest_lines(vm)[i] == shares[i].tag + mode + text_of(vm.mounts[i].guest)
            &&& shares[n].host == meta
            &&& shares[n].read_only
            &&& shares[n].tag == seq!['m', 'e', 't', 'a']
        }),
{
    reveal_strlit(" ");
    reveal_strlit("ro");
    reveal_strlit("rw");
    reveal_strlit("meta");
    assert("meta"@ == seq!['m', 'e', 't', 'a']);
    let tag = shares_of(vm.mounts, meta)[i].tag;
    let guest = text_of(vm.mounts[i].guest);
    if vm.mounts[i].read_only {
        assert(manifest_lines(vm)[i] =~= tag + seq![' ', 'r', 'o', ' '] + guest);
    } else {
        assert(manifest_lines(vm)[i] =~= tag + seq![' ', 'r', 'w', ' '] + guest);
    }
}

/// The tags of shares are different, so the guest can tell them apart.
pub proof fn law_tags_differ(mounts: Seq<MountView>, meta: Seq<u8>, i: int, j: int)
    requires
        0 <= i < j <= mounts.len(),
    ensures
        shares_of(mounts, meta)[i].tag != shares_of(mounts, meta)[j].tag,
{
    reveal_strlit("mount");
    reveal_strlit("meta");
    lemma_dec_value(i as nat);
    lemma_dec_value(j as nat);
    let a = mount_tag(i as nat);
    let b = mount_tag(j as nat);
    if a == b {
        assert(a.skip(5) == dec(i as nat));
        assert(b.skip(5) == dec(j as nat));
    }
    assert(a[1] == 'o' && "meta"@[1] == 'e');
}

/// The project's git history is hidden by one line at the end of the manifest,
/// unless it is exposed; then there are the lines of the mounts alone.
pub proof fn law_git_is_hidden(vm: VmView)
    requires
        vm.mounts.len() > 0,
    ensures
        vm.expose_git ==> manifest_lines(vm).len() == vm.mounts.len(),
        !vm.expose_git ==> manifest_lines(vm).len() == vm.mounts.len() + 1
            && manifest_lines(vm).last() == seq!['h', 'i', 'd', 'e', ' '] + text_of(
            vm.mounts[0].guest,
        ) + seq!['/', '.', 'g', 'i', 't'],
{
    reveal_strlit("hide ");
    reveal_strlit("/.git");
    assert("hide "@ == seq!['h', 'i', 'd', 'e', ' ']);
    assert("/.git"@ == seq!['/', '.', 'g', 'i', 't']);
}

/// A text of lines has a line feed behind each line and nothing else.
pub proof fn law_text_of_lines(list: Seq<Seq<char>>, line: Seq<char>)
    ensures
        text_of_lines(Seq::empty()) == Seq::<char>::empty(),
        text_of_lines(list.push(line)) == text_of_lines(list) + line + seq!['\n'],
{
    assert(list.push(line).drop_last() == list);
    assert(text_of_lines(list) + line.push('\n') =~= text_of_lines(list) + line + seq!['\n']);
}

// ---------------------------------------------------------------------------
// The seed
// ---------------------------------------------------------------------------

/// Text that does not hold what is to be replaced stays as it is.
pub proof fn law_replace_nothing(s: Seq<char>, from: Seq<char>, to: Seq<char>)
    requires
        from.len() > 0,
        !occurs(s, from),
    ensures
        replaced(s, from, to) == s,
    decreases s.len(),
{
    if s.len() > 0 {
        if starts_with(s, from) {
            assert(s.subrange(0, 0int + from.len()) == s.take(from.len() as int));
            assert(s.subrange(0, 0int + from.len()) == from);
        }
        let rest = s.skip(1);
        if occurs(rest, from) {
            let i = choose|i: int|
                0 <= i <= rest.len() - from.len() && #[trigger] rest.subrange(i, i + from.len())
                    == from;
            assert(s.subrange(i + 1, (i + 1) + from.len()) == rest.subrange(i, i + from.len()));
        }
        law_replace_nothing(rest, from, to);
        assert(seq![s[0]] + rest == s);
    }
}

/// The first occurrence is replaced, what stands before it stays, and what
/// stands behind it is treated in the same way.
pub proof fn law_replace_first(before: Seq<char>, from: Seq<char>, behind: Seq<char>, to: Seq<char>)
    requires
        from.len() > 0,
        forall|i: int|
            0 <= i < before.len() ==> !starts_with(
                #[trigger] (before + from + behind).skip(i),
                from,
            ),
    ensures
        replaced(before + from + behind, from, to) == before + to + replaced(behind, from, to),
    decreases before.len(),
{
    let s = before + from + behind;
    let n = from.len() as int;
    if before.len() == 0 {
        assert(s.take(n) == from);
        assert(s.skip(n) == behind);
        assert(to + replaced(behind, from, to) == before + to + replaced(behind, from, to));
    } else {
        assert(s.skip(0) == s);
        assert(!starts_with(s, from));
        let rest = before.skip(1);
        assert(s.skip(1) == rest + from + behind);
        assert forall|i: int| 0 <= i < rest.len() implies !starts_with(
            #[trigger] (rest + from + behind).skip(i),
            from,
        ) by {
            assert((rest + from + behind).skip(i) == s.skip(i + 1));
        }
        law_replace_first(rest, from, behind, to);
        assert(seq![s[0]] + (rest + to + replaced(behind, from, to)) == before + to + replaced(
            behind,
            from,
            to,
        ));
    }
}

/// The seed has cloud-init's two files, with the time and the key, the
/// built-in script and banner, every custom script with its content under a
/// numbered name, and the list of the names.
pub proof fn law_seed(key: Seq<char>, scripts: Seq<ScriptView>, now: nat, i: int)
    ensures
        ({
            let files = seed_files(key, scripts, now);
            let n = scripts.len() as int;
            &&& files.len() == n + 5
            &&& files[0] == (SeedFileView {
                name: "meta-data"@,
                content: encode_utf8(
                    "instance-id: sendit-"@ + dec(now) + "\nlocal-hostname: sendit\n"@,
                ),
            })
            &&& files[1] == (SeedFileView {
                name: "user-data"@,
                content: encode_utf8(replaced(USER_DATA@, KEY_PLACEHOLDER@, key)),
            })
            &&& files[2] == (SeedFileView {
                name: "provision.sh"@,
                content: encode_utf8(PROVISION_SCRIPT@),
            })
            &&& files[3] == (SeedFileView { name: "banner.txt"@, content: encode_utf8(BANNER@) })
            &&& 0 <= i < n ==> files[4 + i].content == scripts[i].content && files[4 + i].name
                == "custom/"@ + script_file_name(i as nat)
            &&& files[n + 4].name == "custom/list"@
            &&& files[n + 4].content == encode_utf8(text_of_lines(list_lines(scripts)))
            &&& list_lines(scripts).len() == n
            &&& 0 <= i < n ==> list_lines(scripts)[i] == script_file_name(i as nat) + seq![' ']
                + scripts[i].name
        }),
{
    reveal_strlit(" ");
    assert(" "@ == seq![' ']);
}

/// Scripts are numbered from one on, in at least three digits.
pub proof fn law_script_numbers(i: nat)
    ensures
        ({
            let name = script_file_name(i);
            let digits = name.take(name.len() - 3);
            &&& name.len() >= 6
            &&& name == digits + seq!['.', 's', 'h']
            &&& number(digits, 10, i + 1) == Some(i + 1)
            &&& digits.len() > 3 ==> digits[0] != '0'
        }),
{
    reveal_strlit(".sh");
    assert(".sh"@ == seq!['.', 's', 'h']);
    lemma_padded(i + 1);
    crate::text_laws::law_padding(Seq::empty(), 3, i + 1);
    crate::text_laws::law_decimals(i + 1, i + 1);
    let d = dec_padded(i + 1, 3);
    let name = script_file_name(i);
    assert(name.take(name.len() - 3) == d);
    if d.len() > 3 {
        assert(d.skip(0) == d);
        assert(d == dec(i + 1));
    }
}

/// A key is put into the seed exactly if it has neither a line feed nor a
/// quotation mark.
pub proof fn law_keys(before: Seq<char>, c: char, behind: Seq<char>)
    ensures
        c as int == 10 || c as int == 34 ==> !key_fits(before.push(c) + behind),
        key_fits(before) && key_fits(behind) && c as int != 10 && c as int != 34 ==> key_fits(
            before.push(c) + behind,
        ),
        key_fits(Seq::empty()),
{
    let key = before.push(c) + behind;
    assert(key[before.len() as int] == c);
    if key_fits(before) && key_fits(behind) && c as int != 10 && c as int != 34 {
        assert forall|i: int| 0 <= i < key.len() implies #[trigger] key[i] != '\n' && key[i]
            != '"' by {
            if i < before.len() {
                assert(key[i] == before[i]);
            } else if i > before.len() {
                assert(key[i] == behind[i - before.len() - 1]);
            }
        }
    }
}

} // verus!
