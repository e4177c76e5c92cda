//! Sharing the mounts with the guest: which host directories are shared, and
//! the manifest that tells the guest where to mount them.
use vstd::prelude::*;
use vstd::string::*;
use vstd::utf8::*;

use crate::config::{MountView, VmSettings, VmView};
use crate::config_laws::{valid_guest, valid_settings};
use crate::foreign::text_of;
use crate::number::{dec, decimal, lemma_dec_value};
use crate::path::UnixPath;
use crate::text::{is_control, lemma_find_at, lines, strip_return};

verus! {

/// A host directory shared with the guest over virtiofs.
#[derive(Debug)]
pub struct Share {
    /// The name by which the guest mounts it.
    pub tag: String,
    pub host: UnixPath,
    pub read_only: bool,
}

/// A shared host directory, as a mathematical value.
pub struct ShareView {
    pub tag: Seq<char>,
    pub host: Seq<u8>,
    pub read_only: bool,
}

impl View for Share {
    type V = ShareView;

    open spec fn view(&self) -> ShareView {
        ShareView { tag: self.tag@, host: self.host@, read_only: self.read_only }
    }
}

/// The shares' values.
pub open spec fn share_views(v: Seq<Share>) -> Seq<ShareView> {
    Seq::new(v.len(), |i: int| v[i]@)
}

/// The tag of the directory with the manifest.
pub const META_TAG: &'static str = "meta";

/// The tag of mount `i`.
pub open spec fn mount_tag(i: nat) -> Seq<char> {
    "mount"@ + dec(i)
}

/// The shares for `mounts`, and one for the manifest's directory.
pub open spec fn shares_of(mounts: Seq<MountView>, meta: Seq<u8>) -> Seq<ShareView> {
    Seq::new(
        mounts.len(),
        |i: int|
            ShareView {
                tag: mount_tag(i as nat),
                host: mounts[i].host,
                read_only: mounts[i].read_only,
            },
    ).push(ShareView { tag: META_TAG@, host: meta, read_only: true })
}

/// The manifest's line for mount `i`: tag, mode and guest path.
pub open spec fn mount_line(mount: MountView, i: nat) -> Seq<char> {
    mount_tag(i) + " "@ + (if mount.read_only {
        "ro"@
    } else {
        "rw"@
    }) + " "@ + text_of(mount.guest)
}

/// The manifest's line that hides the project's git history.
pub open spec fn hide_line(project: MountView) -> Seq<char> {
    "hide "@ + text_of(project.guest) + "/.git"@
}

/// The lines of the manifest: one for each mount, and one that hides the
/// project's `.git` directory unless it is exposed.
pub open spec fn manifest_lines(vm: VmView) -> Seq<Seq<char>> {
    let all = Seq::new(vm.mounts.len(), |i: int| mount_line(vm.mounts[i], i as nat));
    if vm.expose_git || vm.mounts.len() == 0 {
        all
    } else {
        all.push(hide_line(vm.mounts[0]))
    }
}

/// Lines as one text, a line feed behind each.
pub open spec fn text_of_lines(list: Seq<Seq<char>>) -> Seq<char>
    decreases list.len(),
{
    if list.len() == 0 {
        Seq::empty()
    } else {
        text_of_lines(list.drop_last()) + list.last().push('\n')
    }
}

/// What to share, and the manifest to write.
#[derive(Debug)]
pub struct Prepared {
    pub shares: Vec<Share>,
    pub manifest: String,
}

/// The shares for the resolved settings of a VM, and the manifest that goes
/// into the directory `meta`.
pub fn prepare(settings: &VmSettings, meta: &UnixPath) -> (p: Prepared)
    ensures
        share_views(p.shares@) == shares_of(settings@.mounts, meta@),
        p.manifest@ == text_of_lines(manifest_lines(settings@)),
{
    let ghost vm = settings@;
    let ghost all = Seq::new(vm.mounts.len(), |i: int| mount_line(vm.mounts[i], i as nat));
    let mut shares: Vec<Share> = Vec::new();
    let mut manifest = String::new();
    let mut i: usize = 0;
    assert(all.take(0) == Seq::<Seq<char>>::empty());
    while i < settings.mounts.len()
        invariant
            i <= settings.mounts@.len(),
            vm == settings@,
            all == Seq::new(vm.mounts.len(), |i: int| mount_line(vm.mounts[i], i as nat)),
            share_views(shares@) == shares_of(vm.mounts, meta@).take(i as int),
            manifest@ == text_of_lines(all.take(i as int)),
        decreases settings.mounts.len() - i,
    {
        let mount = &settings.mounts[i];
        assert(vm.mounts[i as int] == mount@);
        let tag = "mount".to_owned().concat(decimal(i as u64).as_str());
        let line = tag.clone().concat(" ").concat(mount.mode()).concat(" ").concat(
            mount.guest.display().as_str(),
        );
        assert(line@ == mount_line(vm.mounts[i as int], i as nat));
        let ghost before = share_views(shares@);
        shares.push(Share { tag, host: mount.host.clone(), read_only: mount.read_only });
        assert(share_views(shares@) == before.push(shares@.last()@));
        assert(shares_of(vm.mounts, meta@).take(i + 1) == shares_of(vm.mounts, meta@).take(
            i as int,
        ).push(shares_of(vm.mounts, meta@)[i as int]));
        manifest.append(line.as_str());
        manifest.push('\n');
        assert(all.take(i + 1).drop_last() == all.take(i as int));
        assert(all.take(i + 1).last() == line@);
        i += 1;
    }
    let ghost before = share_views(shares@);
    shares.push(Share { tag: META_TAG.to_owned(), host: meta.clone(), read_only: true });
    assert(share_views(shares@) == before.push(shares@.last()@));
    assert(shares_of(vm.mounts, meta@).take(i as int).push(shares@.last()@) == shares_of(
        vm.mounts,
        meta@,
    ));
    assert(all.take(i as int) == all);
    if !settings.expose_git && settings.mounts.len() > 0 {
        let line = "hide ".to_owned().concat(
            settings.mounts[0].guest.display().as_str(),
        ).concat("/.git");
        assert(line@ == hide_line(vm.mounts[0]));
        manifest.append(line.as_str());
        manifest.push('\n');
        assert(all.push(line@).drop_last() == all);
    }
    Prepared { shares, manifest }
}

// ---------------------------------------------------------------------------
// The guest reads the manifest line by line
// ---------------------------------------------------------------------------

/// Text that is one line.
pub open spec fn one_line(s: Seq<char>) -> bool {
    forall|i: int| 0 <= i < s.len() ==> !is_control(#[trigger] s[i])
}

/// The lines of a text that starts with one line.
proof fn lemma_first_line(a: Seq<char>, b: Seq<char>)
    requires
        one_line(a),
    ensures
        lines(a.push('\n') + b) == seq![a] + lines(b),
{
    let s = a.push('\n') + b;
    lemma_find_at(s, '\n', a.len() as int);
    assert(s.take(a.len() as int) == a);
    assert(s.skip(a.len() as int + 1) == b);
    if a.len() > 0 {
        assert(!is_control(a[a.len() - 1]));
    }
    assert(strip_return(a) == a);
}

/// Lines that are written down read back as themselves.
pub proof fn lemma_lines_read_back(list: Seq<Seq<char>>, rest: Seq<char>)
    requires
        forall|i: int| 0 <= i < list.len() ==> one_line(#[trigger] list[i]),
    ensures
        lines(text_of_lines(list) + rest) == list + lines(rest),
    decreases list.len(),
{
    if list.len() == 0 {
        assert(text_of_lines(list) + rest == rest);
        assert(list + lines(rest) == lines(rest));
    } else {
        let init = list.drop_last();
        let last = list.last();
        assert(one_line(list[list.len() - 1]));
        assert forall|i: int| 0 <= i < init.len() implies one_line(#[trigger] init[i]) by {
            assert(init[i] == list[i]);
        }
        let tail = last.push('\n') + rest;
        assert(text_of_lines(list) + rest == text_of_lines(init) + tail);
        lemma_lines_read_back(init, tail);
        lemma_first_line(last, rest);
        assert(init + (seq![last] + lines(rest)) == list + lines(rest));
    }
}

proof fn lemma_one_line_join(a: Seq<char>, b: Seq<char>)
    requires
        one_line(a),
        one_line(b),
    ensures
        one_line(a + b),
{
    assert forall|i: int| 0 <= i < (a + b).len() implies !is_control(#[trigger] (a + b)[i]) by {
        if i < a.len() {
            assert((a + b)[i] == a[i]);
        } else {
            assert((a + b)[i] == b[i - a.len()]);
        }
    }
}

proof fn lemma_one_line_guest(guest: Seq<u8>)
    requires
        valid_guest(guest),
    ensures
        one_line(text_of(guest)),
{
}

proof fn lemma_mount_line(mount: MountView, i: nat)
    requires
        valid_guest(mount.guest),
    ensures
        one_line(mount_line(mount, i)),
{
    reveal_strlit("mount");
    reveal_strlit(" ");
    reveal_strlit("ro");
    reveal_strlit("rw");
    lemma_one_line_guest(mount.guest);
    lemma_dec_value(i);
    assert forall|k: int| 0 <= k < dec(i).len() implies !is_control(#[trigger] dec(i)[k]) by {
        assert('0' <= dec(i)[k] <= '9');
    }
    let mode = if mount.read_only {
        "ro"@
    } else {
        "rw"@
    };
    lemma_one_line_join("mount"@, dec(i));
    lemma_one_line_join(mount_tag(i), " "@);
    lemma_one_line_join(mount_tag(i) + " "@, mode);
    lemma_one_line_join(mount_tag(i) + " "@ + mode, " "@);
    lemma_one_line_join(mount_tag(i) + " "@ + mode + " "@, text_of(mount.guest));
}

/// The manifest of valid settings has exactly one line for each mount, and
/// one that hides the git history unless it is exposed: no guest path can add
/// or break a line.
pub proof fn law_manifest_reads_back(vm: VmView, root: Seq<u8>, host_cpus: u32)
    requires
        valid_settings(vm, root, host_cpus),
    ensures
        lines(text_of_lines(manifest_lines(vm))) == manifest_lines(vm),
        manifest_lines(vm).len() == vm.mounts.len() + (if vm.expose_git {
            0int
        } else {
            1
        }),
{
    let list = manifest_lines(vm);
    assert forall|i: int| 0 <= i < list.len() implies one_line(#[trigger] list[i]) by {
        if i < vm.mounts.len() {
            assert(valid_guest(vm.mounts[i].guest));
            lemma_mount_line(vm.mounts[i], i as nat);
        } else {
            assert(valid_guest(vm.mounts[0].guest));
            lemma_one_line_guest(vm.mounts[0].guest);
            reveal_strlit("hide ");
            reveal_strlit("/.git");
            lemma_one_line_join("hide "@, text_of(vm.mounts[0].guest));
            lemma_one_line_join("hide "@ + text_of(vm.mounts[0].guest), "/.git"@);
        }
    }
    lemma_lines_read_back(list, Seq::empty());
    assert(text_of_lines(list) + Seq::<char>::empty() == text_of_lines(list));
    assert(list + lines(Seq::<char>::empty()) == list);
}

} // verus!
