//! Which settings are accepted, and why others are not.
use vstd::prelude::*;
use vstd::string::*;
use vstd::utf8::*;

use crate::component_laws::{law_absolute_paths, normals, plain};
use crate::config::{
    below_root, canonical, merged, merged_mounts, mount_fault, mount_for, mounts_fault,
    project_guest, resolved,
    resources_fault, settings_fault, table_at, table_for, taken, with_mounts, ConfigView,
    MountView, Step, VmView,
};
use crate::config_error::Fault;
use crate::config_laws::{
    is_for, law_one_table_per_project, law_resolved_settings_are_valid, lemma_table_looks,
    lemma_table_stays, looked_at,
};
use crate::host::{found_at, Found};
use crate::mount_spec::MountSpecView;
use crate::path::{components, file_name, join, rooted, same_path, Part};
use crate::path_laws::law_normal;
use crate::paths::expanded;
use crate::settings::{Resources, SettingsView};
use crate::size::ByteSize;
use crate::table::value_of;
use crate::text::{has_control, lemma_trim_fixed, trim};
use crate::text_laws::{joined, law_trimmed_is_snug, snug};

verus! {

// ---------------------------------------------------------------------------
// Guest paths
// ---------------------------------------------------------------------------

/// Whether `guest` is written as a slash and names with slashes between them,
/// in text without control characters and without white space at its ends.
pub open spec fn mountable(guest: Seq<u8>, names: Seq<Seq<u8>>, text: Seq<char>) -> bool {
    &&& names.len() > 0
    &&& forall|i: int| 0 <= i < names.len() ==> plain(#[trigger] names[i])
    &&& guest == seq![47u8] + joined(names, 47u8)
    &&& guest == encode_utf8(text)
    &&& !has_control(text)
    &&& snug(text)
}

proof fn lemma_mountable(guest: Seq<u8>, names: Seq<Seq<u8>>, text: Seq<char>)
    requires
        mountable(guest, names, text),
    ensures
        below_root(guest),
        valid_utf8(guest),
        !has_control(decode_utf8(guest)),
        trim(decode_utf8(guest)) == decode_utf8(guest),
{
    law_absolute_paths(names);
    let c = components(guest);
    assert forall|i: int| 0 <= i < c.len() implies (#[trigger] c[i] is Root || c[i] is Normal) by {
        if i > 0 {
            assert(c[i] == normals(names)[i - 1]);
        }
    }
    encode_utf8_valid_utf8(text);
    encode_utf8_decode_utf8(text);
    lemma_trim_fixed(text);
}

proof fn lemma_free(mounts: Seq<MountView>, guest: Seq<u8>, n: nat)
    requires
        forall|i: int| 0 <= i < n ==> !same_path((#[trigger] mounts[i]).guest, guest),
    ensures
        taken(mounts, guest, n) is None,
    decreases n,
{
    if n > 0 {
        lemma_free(mounts, guest, (n - 1) as nat);
        assert(!same_path(mounts[n - 1].guest, guest));
    }
}

proof fn lemma_no_fault(mounts: Seq<MountView>, from: int)
    requires
        0 <= from,
        forall|i: int| 0 <= i < mounts.len() ==> mount_fault(mounts, i) is None,
    ensures
        mounts_fault(mounts, from) is None,
    decreases mounts.len() - from,
{
    if from < mounts.len() {
        assert(mount_fault(mounts, from) is None);
        lemma_no_fault(mounts, from + 1);
    }
}

// ---------------------------------------------------------------------------
// Layers
// ---------------------------------------------------------------------------

/// The first value that is there, from the top layer down, else the last one.
pub open spec fn topmost<T>(layers: Seq<Option<T>>, built_in: T) -> T
    decreases layers.len(),
{
    if layers.len() == 0 {
        built_in
    } else if layers[0] is Some {
        layers[0]->0
    } else {
        topmost(layers.skip(1), built_in)
    }
}

proof fn lemma_topmost_three<T>(a: Option<T>, b: Option<T>, c: Option<T>, d: T)
    ensures
        topmost(seq![a, b, c], d) == (if a is Some {
            a->0
        } else if b is Some {
            b->0
        } else if c is Some {
            c->0
        } else {
            d
        }),
{
    reveal_with_fuel(topmost, 4);
    assert(seq![a, b, c].skip(1) == seq![b, c]);
    assert(seq![b, c].skip(1) == seq![c]);
    assert(seq![c].skip(1) == Seq::<Option<T>>::empty());
}

pub proof fn lemma_topmost_four<T>(a: Option<T>, b: Option<T>, c: Option<T>, d: Option<T>, e: T)
    ensures
        topmost(seq![a, b, c, d], e) == (if a is Some {
            a->0
        } else if b is Some {
            b->0
        } else if c is Some {
            c->0
        } else if d is Some {
            d->0
        } else {
            e
        }),
{
    assert(seq![a, b, c, d].skip(1) == seq![b, c, d]);
    lemma_topmost_three(b, c, d, e);
}

/// Whether `table` has the settings of the only project table that is for the
/// project at `root`, or none if there is no such table.
pub open spec fn is_table(
    config: ConfigView,
    home: Seq<u8>,
    root: Seq<u8>,
    host: Seq<(Seq<u8>, Found)>,
    table: SettingsView,
) -> bool {
    let es = config.projects;
    &&& forall|i: int| 0 <= i < es.len() ==> #[trigger] looked_at(es, home, host, i)
    &&& forall|i: int, j: int|
        0 <= i < j < es.len() ==> !(#[trigger] is_for(es, home, root, host, i)
            && #[trigger] is_for(es, home, root, host, j))
    &&& forall|i: int|
        0 <= i < es.len() && #[trigger] is_for(es, home, root, host, i) ==> table == es[i].1
    &&& (forall|i: int| 0 <= i < es.len() ==> !#[trigger] is_for(es, home, root, host, i)) ==> {
        &&& table.cpus is None
        &&& table.memory is None
        &&& table.disk_size is None
        &&& table.expose_git is None
        &&& table.image is None
        &&& table.mounts.len() == 0
    }
}

pub proof fn lemma_table(
    config: ConfigView,
    home: Seq<u8>,
    root: Seq<u8>,
    host: Seq<(Seq<u8>, Found)>,
    table: SettingsView,
)
    requires
        is_table(config, home, root, host, table),
    ensures
        table_for(config.projects, home, root, host, 0, None) is Done,
        table_at(config, table_for(config.projects, home, root, host, 0, None)->Done_0) == table,
{
    let es = config.projects;
    let step = table_for(es, home, root, host, 0, None);
    law_one_table_per_project(es, home, root, host);
    lemma_table_looks(es, home, root, host, 0, None);
    lemma_table_stays(es, home, root, host, host, 0, None);
    match step {
        Step::Look(path) => {
            let i = choose|i: int| 0 <= i < es.len() && path == expanded(home, (#[trigger] es[i]).0);
            assert(looked_at(es, home, host, i));
        },
        Step::Done(at) => {
            if at is Some {
                assert(is_for(es, home, root, host, at->0));
            } else {
                assert(table.mounts =~= Seq::empty());
            }
        },
        Step::Fail(_) => {},
    }
}

pub proof fn lemma_all_done(
    start: Seq<MountView>,
    home: Seq<u8>,
    specs: Seq<MountSpecView>,
    base: Option<Seq<u8>>,
    host: Seq<(Seq<u8>, Found)>,
    all: Seq<MountView>,
    n: nat,
)
    requires
        n <= specs.len(),
        all.len() >= n,
        forall|i: int|
            0 <= i < n ==> mount_for(home, #[trigger] specs[i], base, host) == Step::Done(all[i]),
    ensures
        with_mounts(start, home, specs, base, host, n) == Step::Done(start + all.take(n as int)),
    decreases n,
{
    if n == 0 {
        assert(start + all.take(0) == start);
    } else {
        lemma_all_done(start, home, specs, base, host, all, (n - 1) as nat);
        assert(mount_for(home, specs[n - 1], base, host) == Step::Done(all[n - 1]));
        assert((start + all.take(n - 1)).push(all[n - 1]) == start + all.take(n as int));
    }
}

/// Settings that make sense are accepted, and are those that the layers give:
/// at least one CPU and no more than the host has, at least 512 MiB of memory
/// in whole MiB, a disk of at least 8 GiB, and mounts that all lead somewhere
/// and appear in different places below the guest's root directory.
pub proof fn law_valid_settings_are_accepted(
    config: ConfigView,
    home: Seq<u8>,
    root: Seq<u8>,
    cli: SettingsView,
    cwd: Seq<u8>,
    made_from: Option<Seq<char>>,
    host: Seq<(Seq<u8>, Found)>,
    host_cpus: u32,
    table: SettingsView,
    vm: VmView,
    resources: Resources,
    names: Seq<Seq<Seq<u8>>>,
    texts: Seq<Seq<char>>,
)
    requires
        is_table(config, home, root, host, table),
        // The image, and what its table says.
        vm.image == (if cli.image is Some {
            cli.image
        } else if table.image is Some {
            table.image
        } else {
            config.defaults.image
        }),
        resources == (match value_of(
            config.images,
            topmost(seq![vm.image, made_from], "default"@),
        ) {
            Some(r) => r,
            None => Resources { cpus: None, memory: None },
        }),
        // The scalars.
        vm.cpus == topmost(
            seq![cli.cpus, table.cpus, resources.cpus, config.defaults.cpus],
            2u32,
        ),
        vm.memory == topmost(
            seq![cli.memory, table.memory, resources.memory, config.defaults.memory],
            ByteSize(4294967296),
        ),
        vm.disk_size == topmost(
            seq![cli.disk_size, table.disk_size, config.defaults.disk_size],
            ByteSize(68719476736),
        ),
        vm.expose_git == topmost(
            seq![cli.expose_git, table.expose_git, config.defaults.expose_git],
            false,
        ),
        // The mounts.
        vm.mounts.len() == 1 + config.defaults.mounts.len() + table.mounts.len()
            + cli.mounts.len(),
        vm.mounts[0] == (MountView { host: root, guest: project_guest(root), read_only: false }),
        forall|i: int|
            0 <= i < config.defaults.mounts.len() ==> mount_for(
                home,
                #[trigger] config.defaults.mounts[i],
                None,
                host,
            ) == Step::Done(vm.mounts[1 + i]),
        forall|i: int|
            0 <= i < table.mounts.len() ==> mount_for(home, #[trigger] table.mounts[i], None, host)
                == Step::Done(vm.mounts[1 + config.defaults.mounts.len() + i]),
        forall|i: int|
            0 <= i < cli.mounts.len() ==> mount_for(
                home,
                #[trigger] cli.mounts[i],
                Some(cwd),
                host,
            ) == Step::Done(
                vm.mounts[1 + config.defaults.mounts.len() + table.mounts.len() + i],
            ),
        // They make sense.
        1 <= vm.cpus <= host_cpus,
        vm.memory.0 >= 536870912,
        vm.memory.0 % 1048576 == 0,
        vm.disk_size.0 >= 8589934592,
        names.len() == vm.mounts.len(),
        texts.len() == vm.mounts.len(),
        forall|i: int|
            0 <= i < vm.mounts.len() ==> mountable(
                (#[trigger] vm.mounts[i]).guest,
                names[i],
                texts[i],
            ),
        forall|i: int, j: int|
            0 <= i < j < vm.mounts.len() ==> !same_path(
                (#[trigger] vm.mounts[i]).guest,
                (#[trigger] vm.mounts[j]).guest,
            ),
    ensures
        resolved(config, home, root, cli, cwd, made_from, host, host_cpus) == Step::Done(vm),
{
    lemma_table(config, home, root, host, table);
    lemma_merged(config, table, cli, made_from, vm, resources);
    lemma_mounts(config, table, cli, home, root, cwd, host, vm.mounts);
    lemma_no_settings_fault(vm, host_cpus, names, texts);
}

proof fn lemma_merged(
    config: ConfigView,
    table: SettingsView,
    cli: SettingsView,
    made_from: Option<Seq<char>>,
    vm: VmView,
    resources: Resources,
)
    requires
        vm.image == (if cli.image is Some {
            cli.image
        } else if table.image is Some {
            table.image
        } else {
            config.defaults.image
        }),
        resources == (match value_of(
            config.images,
            topmost(seq![vm.image, made_from], "default"@),
        ) {
            Some(r) => r,
            None => Resources { cpus: None, memory: None },
        }),
        vm.cpus == topmost(
            seq![cli.cpus, table.cpus, resources.cpus, config.defaults.cpus],
            2u32,
        ),
        vm.memory == topmost(
            seq![cli.memory, table.memory, resources.memory, config.defaults.memory],
            ByteSize(4294967296),
        ),
        vm.disk_size == topmost(
            seq![cli.disk_size, table.disk_size, config.defaults.disk_size],
            ByteSize(68719476736),
        ),
        vm.expose_git == topmost(
            seq![cli.expose_git, table.expose_git, config.defaults.expose_git],
            false,
        ),
    ensures
        merged(config, table, cli, made_from, vm.mounts) == vm,
{
    lemma_topmost_four(cli.cpus, table.cpus, resources.cpus, config.defaults.cpus, 2u32);
    lemma_topmost_four(
        cli.memory,
        table.memory,
        resources.memory,
        config.defaults.memory,
        ByteSize(4294967296),
    );
    lemma_topmost_three(
        cli.disk_size,
        table.disk_size,
        config.defaults.disk_size,
        ByteSize(68719476736),
    );
    lemma_topmost_three(cli.expose_git, table.expose_git, config.defaults.expose_git, false);
    lemma_topmost_two(vm.image, made_from, "default"@);
}

proof fn lemma_mounts(
    config: ConfigView,
    table: SettingsView,
    cli: SettingsView,
    home: Seq<u8>,
    root: Seq<u8>,
    cwd: Seq<u8>,
    host: Seq<(Seq<u8>, Found)>,
    mounts: Seq<MountView>,
)
    requires
        mounts.len() == 1 + config.defaults.mounts.len() + table.mounts.len() + cli.mounts.len(),
        mounts[0] == (MountView { host: root, guest: project_guest(root), read_only: false }),
        forall|i: int|
            0 <= i < config.defaults.mounts.len() ==> mount_for(
                home,
                #[trigger] config.defaults.mounts[i],
                None,
                host,
            ) == Step::Done(mounts[1 + i]),
        forall|i: int|
            0 <= i < table.mounts.len() ==> mount_for(home, #[trigger] table.mounts[i], None, host)
                == Step::Done(mounts[1 + config.defaults.mounts.len() + i]),
        forall|i: int|
            0 <= i < cli.mounts.len() ==> mount_for(
                home,
                #[trigger] cli.mounts[i],
                Some(cwd),
                host,
            ) == Step::Done(mounts[1 + config.defaults.mounts.len() + table.mounts.len() + i]),
    ensures
        merged_mounts(config, table, cli, home, root, cwd, host) == Step::Done(mounts),
{
    let d = config.defaults.mounts.len() as int;
    let t = table.mounts.len() as int;
    let c = cli.mounts.len() as int;
    let first = mounts.take(1);
    let m1 = mounts.subrange(1, 1 + d);
    let m2 = mounts.subrange(1 + d, 1 + d + t);
    let m3 = mounts.subrange(1 + d + t, 1 + d + t + c);
    assert(first == seq![mounts[0]]);
    lemma_all_done(first, home, config.defaults.mounts, None, host, m1, d as nat);
    assert(m1.take(d) == m1);
    let second = first + m1;
    lemma_all_done(second, home, table.mounts, None, host, m2, t as nat);
    assert(m2.take(t) == m2);
    let third = second + m2;
    lemma_all_done(third, home, cli.mounts, Some(cwd), host, m3, c as nat);
    assert(m3.take(c) == m3);
    assert(third + m3 == mounts);
}

proof fn lemma_no_settings_fault(
    vm: VmView,
    host_cpus: u32,
    names: Seq<Seq<Seq<u8>>>,
    texts: Seq<Seq<char>>,
)
    requires
        1 <= vm.cpus <= host_cpus,
        vm.memory.0 >= 536870912,
        vm.memory.0 % 1048576 == 0,
        vm.disk_size.0 >= 8589934592,
        names.len() == vm.mounts.len(),
        texts.len() == vm.mounts.len(),
        forall|i: int|
            0 <= i < vm.mounts.len() ==> mountable(
                (#[trigger] vm.mounts[i]).guest,
                names[i],
                texts[i],
            ),
        forall|i: int, j: int|
            0 <= i < j < vm.mounts.len() ==> !same_path(
                (#[trigger] vm.mounts[i]).guest,
                (#[trigger] vm.mounts[j]).guest,
            ),
    ensures
        settings_fault(vm, host_cpus) is None,
{
    assert forall|i: int| 0 <= i < vm.mounts.len() implies mount_fault(vm.mounts, i) is None by {
        let guest = vm.mounts[i].guest;
        assert(mountable(vm.mounts[i].guest, names[i], texts[i]));
        lemma_mountable(guest, names[i], texts[i]);
        assert forall|j: int| 0 <= j < i implies !same_path((#[trigger] vm.mounts[j]).guest, guest) by {
            assert(!same_path(vm.mounts[j].guest, vm.mounts[i].guest));
        }
        lemma_free(vm.mounts, guest, i as nat);
    }
    lemma_no_fault(vm.mounts, 0);
}

proof fn lemma_topmost_two<T>(a: Option<T>, b: Option<T>, c: T)
    ensures
        topmost(seq![a, b], c) == (if a is Some {
            a->0
        } else if b is Some {
            b->0
        } else {
            c
        }),
{
    reveal_with_fuel(topmost, 3);
    assert(seq![a, b].skip(1) == seq![b]);
    assert(seq![b].skip(1) == Seq::<Option<T>>::empty());
}

// ---------------------------------------------------------------------------
// Refusals
// ---------------------------------------------------------------------------

/// CPUs and memory are refused exactly if they are out of bounds, and the
/// first thing that is wrong is named: no CPU or more than the host has, less
/// than 512 MiB, or no whole number of MiB.
pub proof fn law_resources_refused(cpus: u32, memory: ByteSize, host_cpus: u32)
    ensures
        resources_fault(cpus, memory, host_cpus) == (if cpus == 0 || cpus > host_cpus {
            Some(Fault::Cpus { host_cpus, cpus })
        } else if memory.0 < 536870912 {
            Some(Fault::MemoryTooSmall { memory })
        } else if memory.0 % 1048576 != 0 {
            Some(Fault::MemoryNotWhole { memory })
        } else {
            None
        }),
{
}

/// Whether a guest path is absolute, below the root directory, and made of
/// names.
pub open spec fn named_below_root(guest: Seq<u8>) -> bool {
    let c = components(guest);
    &&& c.len() > 1
    &&& c[0] == Part::Root
    &&& forall|i: int| 1 <= i < c.len() ==> #[trigger] c[i] is Normal
}

proof fn lemma_below_root(guest: Seq<u8>)
    ensures
        below_root(guest) <==> named_below_root(guest),
{
    let c = components(guest);
    crate::path_laws::lemma_components_proper(guest);
    if below_root(guest) {
        assert forall|i: int| 1 <= i < c.len() implies #[trigger] c[i] is Normal by {
            assert(crate::path_laws::proper_part(c[i], false));
        }
    }
    if named_below_root(guest) {
        assert forall|i: int| 0 <= i < c.len() implies (#[trigger] c[i] is Root || c[i]
            is Normal) by {
        }
        if !rooted(guest) {
            lemma_not_rooted(guest);
        }
    }
}

proof fn lemma_not_rooted(guest: Seq<u8>)
    requires
        !rooted(guest),
        components(guest).len() > 0,
    ensures
        components(guest)[0] != Part::Root,
{
    let list = crate::text::split(guest, crate::path::SLASH);
    lemma_body_has_no_root(list);
    let c = components(guest);
    let inner = crate::path::body(list);
    if !crate::path::starts_here(guest) {
        assert(c[0] == inner[0]);
    }
}

proof fn lemma_body_has_no_root(list: Seq<Seq<u8>>)
    ensures
        forall|i: int|
            0 <= i < crate::path::body(list).len() ==> #[trigger] crate::path::body(list)[i]
                != Part::Root,
    decreases list.len(),
{
    if list.len() > 0 {
        lemma_body_has_no_root(list.drop_last());
    }
}

/// A mount is refused exactly if its guest path is no absolute path of names
/// below the root directory, no UTF-8, has control characters or white space
/// at its ends, or is that of an earlier mount; and the first of these that
/// holds is named, with the mount's directories.
pub proof fn law_mounts_refused(mounts: Seq<MountView>, i: int)
    requires
        0 <= i < mounts.len(),
    ensures
        ({
            let host = mounts[i].host;
            let guest = mounts[i].guest;
            let fault = mount_fault(mounts, i);
            let text = decode_utf8(guest);
            let bad_text = has_control(text) || !snug(text);
            let taken_before = exists|j: int|
                0 <= j < i && same_path((#[trigger] mounts[j]).guest, guest);
            &&& !named_below_root(guest) <==> fault == Some(Fault::GuestNotAbsolute { host, guest })
            &&& named_below_root(guest) && !valid_utf8(guest) <==> fault == Some(
                Fault::GuestNotUtf8 { host, guest },
            )
            &&& named_below_root(guest) && valid_utf8(guest) && bad_text <==> fault == Some(
                Fault::GuestText { host, text },
            )
            &&& named_below_root(guest) && valid_utf8(guest) && !bad_text && !taken_before
                <==> fault is None
            &&& named_below_root(guest) && valid_utf8(guest) && !bad_text && taken_before
                ==> exists|j: int|
                {
                    &&& 0 <= j < i
                    &&& same_path((#[trigger] mounts[j]).guest, guest)
                    &&& fault == Some(
                        Fault::GuestTaken { first: mounts[j].host, second: host, guest },
                    )
                }
        }),
{
    let guest = mounts[i].guest;
    lemma_below_root(guest);
    let text = decode_utf8(guest);
    if snug(text) {
        lemma_trim_fixed(text);
    } else {
        law_trimmed_is_snug(text);
    }
    lemma_taken(mounts, guest, i as nat);
}

proof fn lemma_taken(mounts: Seq<MountView>, guest: Seq<u8>, n: nat)
    ensures
        taken(mounts, guest, n) is Some <==> exists|j: int|
            0 <= j < n && same_path((#[trigger] mounts[j]).guest, guest),
        taken(mounts, guest, n) is Some ==> 0 <= taken(mounts, guest, n)->0 < n && same_path(
            mounts[taken(mounts, guest, n)->0].guest,
            guest,
        ),
    decreases n,
{
    if n > 0 {
        lemma_taken(mounts, guest, (n - 1) as nat);
    }
}

/// Settings are refused for CPUs and memory first, then for a disk of less
/// than 8 GiB, and then for the first mount that is refused; else they are
/// accepted.
pub proof fn law_settings_refused(vm: VmView, host_cpus: u32, i: int)
    ensures
        resources_fault(vm.cpus, vm.memory, host_cpus) is Some ==> settings_fault(vm, host_cpus)
            == resources_fault(vm.cpus, vm.memory, host_cpus),
        resources_fault(vm.cpus, vm.memory, host_cpus) is None && vm.disk_size.0 < 8589934592
            ==> settings_fault(vm, host_cpus) == Some(
            Fault::DiskTooSmall { disk_size: vm.disk_size },
        ),
        resources_fault(vm.cpus, vm.memory, host_cpus) is None && vm.disk_size.0 >= 8589934592 ==> {
            &&& settings_fault(vm, host_cpus) is None <==> forall|k: int|
                0 <= k < vm.mounts.len() ==> #[trigger] mount_fault(vm.mounts, k) is None
            &&& 0 <= i < vm.mounts.len() && mount_fault(vm.mounts, i) is Some && (forall|k: int|
                0 <= k < i ==> #[trigger] mount_fault(vm.mounts, k) is None) ==> settings_fault(
                vm,
                host_cpus,
            ) == mount_fault(vm.mounts, i)
        },
{
    lemma_first_fault(vm.mounts, 0);
    if 0 <= i < vm.mounts.len() {
        lemma_fault_at(vm.mounts, 0, i);
    }
}

proof fn lemma_first_fault(mounts: Seq<MountView>, from: int)
    requires
        0 <= from,
    ensures
        mounts_fault(mounts, from) is None <==> forall|k: int|
            from <= k < mounts.len() ==> #[trigger] mount_fault(mounts, k) is None,
    decreases mounts.len() - from,
{
    if from < mounts.len() {
        lemma_first_fault(mounts, from + 1);
    }
}

proof fn lemma_fault_at(mounts: Seq<MountView>, from: int, i: int)
    requires
        0 <= from <= i < mounts.len(),
    ensures
        mount_fault(mounts, i) is Some && (forall|k: int|
            from <= k < i ==> #[trigger] mount_fault(mounts, k) is None) ==> mounts_fault(
            mounts,
            from,
        ) == mount_fault(mounts, i),
    decreases i - from,
{
    if from < i {
        lemma_fault_at(mounts, from + 1, i);
    }
}

/// Resolved settings have guest paths of names below the root directory, in
/// text without control characters or white space at its ends.
pub proof fn law_guests_are_below_root(
    config: ConfigView,
    home: Seq<u8>,
    root: Seq<u8>,
    cli: SettingsView,
    cwd: Seq<u8>,
    made_from: Option<Seq<char>>,
    host: Seq<(Seq<u8>, Found)>,
    host_cpus: u32,
    i: int,
)
    requires
        resolved(config, home, root, cli, cwd, made_from, host, host_cpus) is Done,
        0 <= i < resolved(
            config,
            home,
            root,
            cli,
            cwd,
            made_from,
            host,
            host_cpus,
        )->Done_0.mounts.len(),
    ensures
        ({
            let vm = resolved(
                config,
                home,
                root,
                cli,
                cwd,
                made_from,
                host,
                host_cpus,
            )->Done_0;
            let guest = vm.mounts[i].guest;
            &&& named_below_root(guest)
            &&& valid_utf8(guest)
            &&& !has_control(decode_utf8(guest))
            &&& snug(decode_utf8(guest))
            &&& vm.memory.0 >= 536870912
            &&& vm.memory.0 % 1048576 == 0
            &&& vm.disk_size.0 >= 8589934592
            &&& 1 <= vm.cpus <= host_cpus
        }),
{
    law_resolved_settings_are_valid(config, home, root, cli, cwd, made_from, host, host_cpus);
    let vm = resolved(config, home, root, cli, cwd, made_from, host, host_cpus)->Done_0;
    assert(crate::config_laws::valid_guest(vm.mounts[i].guest));
    lemma_below_root(vm.mounts[i].guest);
    law_trimmed_is_snug(decode_utf8(vm.mounts[i].guest));
}

// ---------------------------------------------------------------------------
// Single mounts
// ---------------------------------------------------------------------------

/// A mount shares the directory that its host path leads to, in the mode that
/// was asked for and at the place that was asked for. It is refused if the
/// path is relative where that has no meaning, leads nowhere, or leads to no
/// directory, and the path is looked at if that was not done yet.
pub proof fn law_mounts_as_asked(
    home: Seq<u8>,
    spec: MountSpecView,
    base: Option<Seq<u8>>,
    host: Seq<(Seq<u8>, Found)>,
)
    ensures
        ({
            let wanted = expanded(home, spec.host);
            let path = if rooted(wanted) {
                wanted
            } else {
                join(base->0, wanted)
            };
            let step = mount_for(home, spec, base, host);
            &&& !rooted(wanted) && base is None <==> step == Step::<MountView>::Fail(
                Fault::RelativeMount { host: spec.host },
            )
            &&& rooted(wanted) || base is Some ==> match found_at(host, path) {
                None => step == Step::<MountView>::Look(path),
                Some(Found::Failed(reason)) => step == Step::<MountView>::Fail(
                    Fault::MountUnresolved { host: path, reason },
                ),
                Some(Found::Other(found)) => step == Step::<MountView>::Fail(
                    Fault::MountNotDirectory { host: found },
                ),
                Some(Found::Directory(dir)) => {
                    &&& step is Done ==> step->Done_0.host == dir && step->Done_0.read_only
                        == spec.read_only
                    &&& spec.guest is Some ==> step is Done && components(step->Done_0.guest)
                        == components(spec.guest->0)
                    &&& spec.guest is None && file_name(path) is None && file_name(dir) is None
                        ==> step == Step::<MountView>::Fail(Fault::MountNoName { host: dir })
                    &&& spec.guest is None && file_name(path) is Some ==> step is Done
                        && step->Done_0.guest == join(encode_utf8("/mnt"@), file_name(path)->0)
                    &&& spec.guest is None && file_name(path) is None && file_name(dir) is Some
                        ==> step is Done && step->Done_0.guest == join(
                        encode_utf8("/mnt"@),
                        file_name(dir)->0,
                    )
                },
            }
        }),
{
    if spec.guest is Some {
        law_normal(spec.guest->0);
    }
}

/// The project appears below the guest user's home directory, under its own
/// name, or as `project` if it has none.
pub proof fn law_project_place(root: Seq<u8>)
    ensures
        file_name(root) is Some ==> project_guest(root) == join(
            encode_utf8("/home/dev"@),
            file_name(root)->0,
        ),
        file_name(root) is None ==> project_guest(root) == join(
            encode_utf8("/home/dev"@),
            encode_utf8("project"@),
        ),
{
}

/// A path that leads nowhere counts as it is written, and any other as the
/// host finds it.
pub proof fn law_canonical(path: Seq<u8>, found: Seq<u8>, reason: Seq<char>)
    ensures
        canonical(Found::Directory(found), path) == found,
        canonical(Found::Other(found), path) == found,
        canonical(Found::Failed(reason), path) == path,
{
}

} // verus!
