//! What holds of resolved settings, whatever the configuration.
use vstd::prelude::*;
use vstd::string::*;
use vstd::utf8::*;

use crate::config::{
    below_root, canonical, either, host_path, image_of, mount_fault, mount_for, mounts_fault, pick,
    project_guest, resolved, resolved_image, table_at, table_for, taken, with_mounts, ConfigView,
    MountView, Step, VmView, DEFAULT_CPUS, DEFAULT_DISK_SIZE, DEFAULT_MEMORY, GUEST_HOME,
    MIN_DISK_SIZE, MIN_MEMORY,
};
use crate::config_error::Fault;
use crate::host::{found_at, Found};
use crate::mount_spec::MountSpecView;
use crate::path::{
    body, components, file_name, join, normal, remainder, rooted, same_path, Part, DOT, SLASH,
};
use crate::path_laws::{
    law_normal, lemma_components_proper, lemma_join_components, lemma_join_name, lemma_remainder,
    lemma_render_components, proper_name,
};
use crate::paths::{expanded, lemma_tilde, TILDE};
use crate::settings::{Resources, SettingsView};
use crate::size::{ByteSize, MIB};
use crate::table::value_of;
use crate::text::{has_control, split, starts_with, trim};

verus! {

// ---------------------------------------------------------------------------
// Valid settings
// ---------------------------------------------------------------------------

/// A guest path that the guest can mount at: a normalized absolute UTF-8 path
/// below the root directory, without control characters or surrounding
/// spaces.
pub open spec fn valid_guest(guest: Seq<u8>) -> bool {
    &&& below_root(guest)
    &&& normal(guest) == guest
    &&& valid_utf8(guest)
    &&& !has_control(decode_utf8(guest))
    &&& trim(decode_utf8(guest)) == decode_utf8(guest)
}

/// Settings that a VM can be run with on a host with `host_cpus` CPUs, for
/// the project at `root`.
pub open spec fn valid_settings(vm: VmView, root: Seq<u8>, host_cpus: u32) -> bool {
    &&& 1 <= vm.cpus <= host_cpus
    &&& vm.memory.0 >= MIN_MEMORY
    &&& vm.memory.0 % MIB == 0
    &&& vm.disk_size.0 >= MIN_DISK_SIZE
    &&& vm.mounts.len() > 0
    &&& vm.mounts[0] == (MountView { host: root, guest: project_guest(root), read_only: false })
    &&& forall|i: int| 0 <= i < vm.mounts.len() ==> valid_guest(#[trigger] vm.mounts[i].guest)
    &&& forall|i: int, j: int|
        0 <= i < j < vm.mounts.len() ==> !same_path(
            (#[trigger] vm.mounts[i]).guest,
            (#[trigger] vm.mounts[j]).guest,
        )
}

/// Whether all guest paths are normalized.
spec fn all_normal(mounts: Seq<MountView>) -> bool {
    forall|i: int| 0 <= i < mounts.len() ==> normal(#[trigger] mounts[i].guest) == mounts[i].guest
}

/// A path made of `/` and one name per slash is normalized.
proof fn lemma_literal(b: Seq<u8>, list: Seq<Part>)
    requires
        crate::path_laws::proper(list),
        crate::path::render(list) == b,
    ensures
        components(b) == list,
        normal(b) == b,
{
    lemma_render_components(list);
}

proof fn lemma_mnt()
    ensures
        normal(encode_utf8("/mnt"@)) == encode_utf8("/mnt"@),
        encode_utf8("/mnt"@).len() > 0,
{
    reveal_strlit("/mnt");
    is_ascii_chars_encode_utf8("/mnt"@);
    let b = encode_utf8("/mnt"@);
    let name = seq![109u8, 110u8, 116u8];
    let list = seq![Part::Root, Part::Normal(name)];
    lemma_dir_name(name);
    reveal_with_fuel(crate::path::render, 3);
    assert(list.drop_last() == seq![Part::Root]);
    assert(list.drop_last().drop_last() == Seq::<Part>::empty());
    assert(seq![Part::Root].last() == Part::Root);
    assert(crate::path::render(list) == b);
    lemma_literal(b, list);
}

/// Three bytes without slashes and dots are a name.
proof fn lemma_dir_name(name: Seq<u8>)
    requires
        name.len() >= 3,
        forall|i: int| 0 <= i < name.len() ==> name[i] != SLASH,
    ensures
        proper_name(name),
{
    assert(name != seq![DOT]) by {
        assert(seq![DOT].len() == 1);
    }
    assert(name != seq![DOT, DOT]) by {
        assert(seq![DOT, DOT].len() == 2);
    }
}

proof fn lemma_guest_home()
    ensures
        normal(encode_utf8(GUEST_HOME@)) == encode_utf8(GUEST_HOME@),
        encode_utf8(GUEST_HOME@).len() > 0,
        proper_name(encode_utf8("project"@)),
{
    reveal_strlit("/home/dev");
    is_ascii_chars_encode_utf8("/home/dev"@);
    let b = encode_utf8("/home/dev"@);
    let home = seq![104u8, 111u8, 109u8, 101u8];
    let dev = seq![100u8, 101u8, 118u8];
    let list = seq![Part::Root, Part::Normal(home), Part::Normal(dev)];
    lemma_dir_name(home);
    lemma_dir_name(dev);
    reveal_with_fuel(crate::path::render, 4);
    assert(list.drop_last() == seq![Part::Root, Part::Normal(home)]);
    assert(list.drop_last().drop_last() == seq![Part::Root]);
    assert(list.drop_last().drop_last().drop_last() == Seq::<Part>::empty());
    assert(crate::path::render(list) == b);
    lemma_literal(b, list);
    reveal_strlit("project");
    is_ascii_chars_encode_utf8("project"@);
    lemma_dir_name(encode_utf8("project"@));
}

/// The last component of a path, if it is a name, is proper.
proof fn lemma_file_name(b: Seq<u8>)
    requires
        file_name(b) is Some,
    ensures
        proper_name(file_name(b)->0),
{
    lemma_components_proper(b);
    let c = components(b);
    assert(crate::path_laws::proper_part(c[c.len() - 1], c.len() == 1));
}

proof fn lemma_mount_normal(
    home: Seq<u8>,
    spec: MountSpecView,
    base: Option<Seq<u8>>,
    host: Seq<(Seq<u8>, Found)>,
)
    requires
        mount_for(home, spec, base, host) is Done,
    ensures
        normal(mount_for(home, spec, base, host)->Done_0.guest) == mount_for(
            home,
            spec,
            base,
            host,
        )->Done_0.guest,
{
    match spec.guest {
        Some(guest) => {
            law_normal(guest);
        },
        None => {
            let path = host_path(home, spec, base);
            let dir = mount_for(home, spec, base, host)->Done_0.host;
            if file_name(path) is Some {
                lemma_file_name(path);
            } else {
                lemma_file_name(dir);
            }
            lemma_mnt();
            lemma_join_name(encode_utf8("/mnt"@), either(file_name(path), file_name(dir))->0);
        },
    }
}

proof fn lemma_with_mounts_normal(
    start: Seq<MountView>,
    home: Seq<u8>,
    specs: Seq<MountSpecView>,
    base: Option<Seq<u8>>,
    host: Seq<(Seq<u8>, Found)>,
    n: nat,
)
    requires
        all_normal(start),
        with_mounts(start, home, specs, base, host, n) is Done,
    ensures
        all_normal(with_mounts(start, home, specs, base, host, n)->Done_0),
    decreases n,
{
    if n > 0 {
        lemma_with_mounts_normal(start, home, specs, base, host, (n - 1) as nat);
        lemma_mount_normal(home, specs[n - 1], base, host);
    }
}

/// Joining a relative path keeps its last component last.
proof fn lemma_join_last(base: Seq<u8>, p: Seq<u8>)
    requires
        !rooted(p),
        body(split(p, SLASH)).len() > 0,
    ensures
        components(join(base, p)).len() > 0,
        components(join(base, p)).last() == body(split(p, SLASH)).last(),
{
    if base.len() == 0 {
        assert(join(base, p) == p);
    } else {
        lemma_join_components(base, p);
    }
}

/// Without a guest path, a directory is mounted below `/mnt`, under the last
/// name of the host path as the user wrote it, wherever that path leads. (A
/// bare `~` has no name of its own.)
pub proof fn law_default_guest_is_named_as_written(
    home: Seq<u8>,
    spec: MountSpecView,
    base: Option<Seq<u8>>,
    host: Seq<(Seq<u8>, Found)>,
)
    requires
        mount_for(home, spec, base, host) is Done,
        spec.guest is None,
        file_name(spec.host) is Some,
        components(spec.host) != seq![Part::Normal(seq![TILDE])],
    ensures
        mount_for(home, spec, base, host)->Done_0.guest == join(
            encode_utf8("/mnt"@),
            file_name(spec.host)->0,
        ),
{
    lemma_tilde();
    let c = components(spec.host);
    let wanted = expanded(home, spec.host);
    if starts_with(c, components(seq![TILDE])) {
        assert(c.take(1)[0] == c[0]);
        if c.len() == 1 {
            assert(c == seq![Part::Normal(seq![TILDE])]);
        }
        lemma_remainder(spec.host, 1);
        lemma_join_last(home, remainder(spec.host, 1));
    }
    assert(file_name(wanted) == file_name(spec.host));
    if !rooted(wanted) {
        lemma_join_last(base->0, wanted);
    }
}

proof fn lemma_no_mount_fault(mounts: Seq<MountView>, from: int, i: int)
    requires
        0 <= from <= i < mounts.len(),
        mounts_fault(mounts, from) is None,
    ensures
        mount_fault(mounts, i) is None,
    decreases i - from,
{
    if from < i {
        lemma_no_mount_fault(mounts, from + 1, i);
    }
}

proof fn lemma_not_taken(mounts: Seq<MountView>, guest: Seq<u8>, n: nat, i: int)
    requires
        0 <= i < n,
        taken(mounts, guest, n) is None,
    ensures
        !same_path(mounts[i].guest, guest),
    decreases n,
{
    if i < n - 1 {
        lemma_not_taken(mounts, guest, (n - 1) as nat, i);
    }
}

/// Resolved settings are valid: CPUs, memory and disk are within bounds, the
/// project comes first and is writable, and the guest paths can be mounted
/// at, no two at the same place.
pub proof fn law_resolved_settings_are_valid(
    config: ConfigView,
    home: Seq<u8>,
    root: Seq<u8>,
    cli: SettingsView,
    cwd: Seq<u8>,
    made_from: Option<Seq<char>>,
    host: Seq<(Seq<u8>, Found)>,
    host_cpus: u32,
)
    requires
        resolved(config, home, root, cli, cwd, made_from, host, host_cpus) is Done,
    ensures
        valid_settings(
            resolved(config, home, root, cli, cwd, made_from, host, host_cpus)->Done_0,
            root,
            host_cpus,
        ),
{
    let vm = resolved(config, home, root, cli, cwd, made_from, host, host_cpus)->Done_0;
    let at = table_for(config.projects, home, root, host, 0, None)->Done_0;
    let table = table_at(config, at);
    let project = MountView { host: root, guest: project_guest(root), read_only: false };
    let first = seq![project];
    lemma_guest_home();
    if file_name(root) is Some {
        lemma_file_name(root);
        lemma_join_name(encode_utf8(GUEST_HOME@), file_name(root)->0);
    } else {
        lemma_join_name(encode_utf8(GUEST_HOME@), encode_utf8("project"@));
    }
    assert(all_normal(first));
    let s1 = config.defaults.mounts;
    let s2 = table.mounts;
    let s3 = cli.mounts;
    let second = with_mounts(first, home, s1, None, host, s1.len())->Done_0;
    let third = with_mounts(second, home, s2, None, host, s2.len())->Done_0;
    lemma_with_mounts_normal(first, home, s1, None, host, s1.len());
    lemma_with_mounts_normal(second, home, s2, None, host, s2.len());
    lemma_with_mounts_normal(third, home, s3, Some(cwd), host, s3.len());
    lemma_with_mounts_each(first, home, s1, None, host, s1.len());
    lemma_with_mounts_each(second, home, s2, None, host, s2.len());
    lemma_with_mounts_each(third, home, s3, Some(cwd), host, s3.len());
    let mounts = vm.mounts;
    assert(mounts[0] == third[0] && third[0] == second[0] && second[0] == first[0]);
    assert forall|i: int| 0 <= i < mounts.len() implies valid_guest(#[trigger] mounts[i].guest) by {
        lemma_no_mount_fault(mounts, 0, i);
    }
    assert forall|i: int, j: int| 0 <= i < j < mounts.len() implies !same_path(
        (#[trigger] mounts[i]).guest,
        (#[trigger] mounts[j]).guest,
    ) by {
        lemma_no_mount_fault(mounts, 0, j);
        lemma_not_taken(mounts, mounts[j].guest, j as nat, i);
    }
}

// ---------------------------------------------------------------------------
// Mounts accumulate
// ---------------------------------------------------------------------------

/// The mounts of a layer stand behind those before them, in order.
proof fn lemma_with_mounts_each(
    start: Seq<MountView>,
    home: Seq<u8>,
    specs: Seq<MountSpecView>,
    base: Option<Seq<u8>>,
    host: Seq<(Seq<u8>, Found)>,
    n: nat,
)
    requires
        with_mounts(start, home, specs, base, host, n) is Done,
    ensures
        with_mounts(start, home, specs, base, host, n)->Done_0.len() == start.len() + n,
        with_mounts(start, home, specs, base, host, n)->Done_0.take(start.len() as int) == start,
        forall|i: int|
            0 <= i < n ==> mount_for(home, specs[i], base, host) == Step::Done(
                #[trigger] with_mounts(start, home, specs, base, host, n)->Done_0[start.len() + i],
            ),
    decreases n,
{
    let all = with_mounts(start, home, specs, base, host, n)->Done_0;
    if n == 0 {
        assert(all.take(start.len() as int) == start);
    } else {
        lemma_with_mounts_each(start, home, specs, base, host, (n - 1) as nat);
        let before = with_mounts(start, home, specs, base, host, (n - 1) as nat)->Done_0;
        assert(all.take(start.len() as int) == before.take(start.len() as int));
        assert forall|i: int| 0 <= i < n implies mount_for(home, specs[i], base, host)
            == Step::Done(#[trigger] all[start.len() + i]) by {
            if i < n - 1 {
                assert(all[start.len() + i] == before[start.len() + i]);
            }
        }
    }
}

/// Mounts accumulate across layers: the project's, then each mount of the
/// config file's top level, of the project's table and of the command line,
/// in this order, each resolved on its own.
pub proof fn law_mounts_accumulate(
    config: ConfigView,
    home: Seq<u8>,
    root: Seq<u8>,
    cli: SettingsView,
    cwd: Seq<u8>,
    made_from: Option<Seq<char>>,
    host: Seq<(Seq<u8>, Found)>,
    host_cpus: u32,
    table: SettingsView,
    i: int,
)
    requires
        resolved(config, home, root, cli, cwd, made_from, host, host_cpus) is Done,
        table == table_at(config, table_for(config.projects, home, root, host, 0, None)->Done_0),
        0 <= i < config.defaults.mounts.len() + table.mounts.len() + cli.mounts.len(),
    ensures
        ({
            let mounts = resolved(
                config,
                home,
                root,
                cli,
                cwd,
                made_from,
                host,
                host_cpus,
            )->Done_0.mounts;
            let d = config.defaults.mounts.len() as int;
            let t = table.mounts.len() as int;
            &&& mounts.len() == 1 + d + t + cli.mounts.len()
            &&& Step::Done(mounts[1 + i]) == (if i < d {
                mount_for(home, config.defaults.mounts[i], None, host)
            } else if i < d + t {
                mount_for(home, table.mounts[i - d], None, host)
            } else {
                mount_for(home, cli.mounts[i - d - t], Some(cwd), host)
            })
        }),
{
    let vm = resolved(config, home, root, cli, cwd, made_from, host, host_cpus)->Done_0;
    let project = MountView { host: root, guest: project_guest(root), read_only: false };
    let first = seq![project];
    let s1 = config.defaults.mounts;
    let s2 = table.mounts;
    let s3 = cli.mounts;
    let second = with_mounts(first, home, s1, None, host, s1.len())->Done_0;
    let third = with_mounts(second, home, s2, None, host, s2.len())->Done_0;
    lemma_with_mounts_each(first, home, s1, None, host, s1.len());
    lemma_with_mounts_each(second, home, s2, None, host, s2.len());
    lemma_with_mounts_each(third, home, s3, Some(cwd), host, s3.len());
    let d = s1.len() as int;
    let t = s2.len() as int;
    let all = vm.mounts;
    if i < d {
        assert(second[first.len() + i] == second[1 + i]);
        assert(second[1 + i] == third.take(second.len() as int)[1 + i]);
        assert(third[1 + i] == all.take(third.len() as int)[1 + i]);
    } else if i < d + t {
        assert(third[second.len() + (i - d)] == third[1 + i]);
        assert(third[1 + i] == all.take(third.len() as int)[1 + i]);
    } else {
        assert(all[third.len() + (i - d - t)] == all[1 + i]);
    }
}

// ---------------------------------------------------------------------------
// Higher layers win
// ---------------------------------------------------------------------------

/// Scalars are overridden by higher layers: a flag wins over the project's
/// table, that over the image's table, which has CPUs and memory only, that
/// over the top-level keys, and those over the built-in defaults. No image is
/// built in: where no layer chooses one, none is chosen.
pub proof fn law_higher_layers_win(
    config: ConfigView,
    home: Seq<u8>,
    root: Seq<u8>,
    cli: SettingsView,
    cwd: Seq<u8>,
    made_from: Option<Seq<char>>,
    host: Seq<(Seq<u8>, Found)>,
    host_cpus: u32,
    table: SettingsView,
)
    requires
        resolved(config, home, root, cli, cwd, made_from, host, host_cpus) is Done,
        table == table_at(config, table_for(config.projects, home, root, host, 0, None)->Done_0),
    ensures
        ({
            let vm = resolved(
                config,
                home,
                root,
                cli,
                cwd,
                made_from,
                host,
                host_cpus,
            )->Done_0;
            let image = pick(
                value_of(config.images, image_of(vm.image, made_from)),
                Resources { cpus: None, memory: None },
            );
            let low = config.defaults;
            &&& vm.cpus == (if cli.cpus is Some {
                cli.cpus->0
            } else if table.cpus is Some {
                table.cpus->0
            } else if image.cpus is Some {
                image.cpus->0
            } else if low.cpus is Some {
                low.cpus->0
            } else {
                DEFAULT_CPUS
            })
            &&& vm.memory == (if cli.memory is Some {
                cli.memory->0
            } else if table.memory is Some {
                table.memory->0
            } else if image.memory is Some {
                image.memory->0
            } else if low.memory is Some {
                low.memory->0
            } else {
                ByteSize(DEFAULT_MEMORY)
            })
            &&& vm.disk_size == (if cli.disk_size is Some {
                cli.disk_size->0
            } else if table.disk_size is Some {
                table.disk_size->0
            } else if low.disk_size is Some {
                low.disk_size->0
            } else {
                ByteSize(DEFAULT_DISK_SIZE)
            })
            &&& vm.expose_git == (if cli.expose_git is Some {
                cli.expose_git->0
            } else if table.expose_git is Some {
                table.expose_git->0
            } else if low.expose_git is Some {
                low.expose_git->0
            } else {
                false
            })
            &&& vm.image == (if cli.image is Some {
                cli.image
            } else if table.image is Some {
                table.image
            } else {
                low.image
            })
        }),
{
}

// ---------------------------------------------------------------------------
// The image
// ---------------------------------------------------------------------------

/// Without an image on the command line, the image of the resolved settings
/// is the one that the config file chooses.
pub proof fn law_resolve_image_agrees(
    config: ConfigView,
    home: Seq<u8>,
    root: Seq<u8>,
    cli: SettingsView,
    cwd: Seq<u8>,
    made_from: Option<Seq<char>>,
    host: Seq<(Seq<u8>, Found)>,
    host_cpus: u32,
)
    requires
        cli.image is None,
        resolved(config, home, root, cli, cwd, made_from, host, host_cpus) is Done,
    ensures
        resolved_image(config, home, root, host) == Step::Done(
            resolved(config, home, root, cli, cwd, made_from, host, host_cpus)->Done_0.image,
        ),
{
}

// ---------------------------------------------------------------------------
// Project tables
// ---------------------------------------------------------------------------

/// Whether the host was looked at for table `i`.
pub open spec fn looked_at(
    es: Seq<(Seq<u8>, SettingsView)>,
    home: Seq<u8>,
    host: Seq<(Seq<u8>, Found)>,
    i: int,
) -> bool {
    found_at(host, expanded(home, es[i].0)) is Some
}

/// Whether table `i` is for the project at `root`: its path, with `~`
/// expanded and symbolic links resolved if it is there, is the same.
pub open spec fn is_for(
    es: Seq<(Seq<u8>, SettingsView)>,
    home: Seq<u8>,
    root: Seq<u8>,
    host: Seq<(Seq<u8>, Found)>,
    i: int,
) -> bool {
    let path = expanded(home, es[i].0);
    looked_at(es, home, host, i) && same_path(canonical(found_at(host, path)->0, path), root)
}

/// What is known when the tables from `from` on remain.
spec fn tables_seen(
    es: Seq<(Seq<u8>, SettingsView)>,
    home: Seq<u8>,
    root: Seq<u8>,
    host: Seq<(Seq<u8>, Found)>,
    from: int,
    first: Option<int>,
) -> bool {
    &&& 0 <= from <= es.len()
    &&& first is Some ==> 0 <= first->0 < from
    &&& forall|j: int|
        0 <= j < from ==> #[trigger] looked_at(es, home, host, j) && (is_for(
            es,
            home,
            root,
            host,
            j,
        ) <==> first == Some(j))
}

proof fn lemma_tables(
    es: Seq<(Seq<u8>, SettingsView)>,
    home: Seq<u8>,
    root: Seq<u8>,
    host: Seq<(Seq<u8>, Found)>,
    from: int,
    first: Option<int>,
)
    requires
        tables_seen(es, home, root, host, from, first),
    ensures
        match table_for(es, home, root, host, from, first) {
            Step::Done(at) => tables_seen(es, home, root, host, es.len() as int, at),
            Step::Look(_) => true,
            Step::Fail(fault) => exists|a: int, b: int|
                {
                    &&& 0 <= a < b < es.len()
                    &&& #[trigger] is_for(es, home, root, host, a)
                    &&& #[trigger] is_for(es, home, root, host, b)
                    &&& fault == Fault::Ambiguous { first: es[a].0, second: es[b].0, root }
                },
        },
    decreases es.len() - from,
{
    if from < es.len() {
        let path = expanded(home, es[from].0);
        match found_at(host, path) {
            None => {},
            Some(found) => {
                assert(looked_at(es, home, host, from));
                if same_path(canonical(found, path), root) {
                    assert(is_for(es, home, root, host, from));
                    match first {
                        Some(a) => {
                            assert(looked_at(es, home, host, a));
                            assert(is_for(es, home, root, host, a));
                        },
                        None => {
                            lemma_tables(es, home, root, host, from + 1, Some(from));
                        },
                    }
                } else {
                    lemma_tables(es, home, root, host, from + 1, first);
                }
            },
        }
    }
}

/// The table of a project is the only one that is for it; without one, there
/// is none; and it is an error for several to be.
pub proof fn law_one_table_per_project(
    es: Seq<(Seq<u8>, SettingsView)>,
    home: Seq<u8>,
    root: Seq<u8>,
    host: Seq<(Seq<u8>, Found)>,
)
    ensures
        match table_for(es, home, root, host, 0, None) {
            Step::Done(Some(i)) => 0 <= i < es.len() && forall|j: int|
                0 <= j < es.len() ==> (#[trigger] is_for(es, home, root, host, j) <==> j == i),
            Step::Done(None) => forall|j: int|
                0 <= j < es.len() ==> !#[trigger] is_for(es, home, root, host, j),
            Step::Look(_) => true,
            Step::Fail(fault) => exists|a: int, b: int|
                {
                    &&& 0 <= a < b < es.len()
                    &&& #[trigger] is_for(es, home, root, host, a)
                    &&& #[trigger] is_for(es, home, root, host, b)
                    &&& fault == Fault::Ambiguous { first: es[a].0, second: es[b].0, root }
                },
        },
{
    lemma_tables(es, home, root, host, 0, None);
    match table_for(es, home, root, host, 0, None) {
        Step::Done(at) => {
            assert forall|j: int| 0 <= j < es.len() implies (#[trigger] is_for(
                es,
                home,
                root,
                host,
                j,
            ) <==> at == Some(j)) by {
                assert(looked_at(es, home, host, j));
            }
        },
        _ => {},
    }
}

// ---------------------------------------------------------------------------
// Looking at the host
// ---------------------------------------------------------------------------

/// Whether `more` knows all that `host` knows.
pub open spec fn extends(host: Seq<(Seq<u8>, Found)>, more: Seq<(Seq<u8>, Found)>) -> bool {
    forall|path: Seq<u8>|
        #![trigger found_at(more, path)]
        found_at(host, path) is Some ==> found_at(more, path) == found_at(host, path)
}

pub proof fn lemma_table_stays(
    es: Seq<(Seq<u8>, SettingsView)>,
    home: Seq<u8>,
    root: Seq<u8>,
    host: Seq<(Seq<u8>, Found)>,
    more: Seq<(Seq<u8>, Found)>,
    from: int,
    first: Option<int>,
)
    requires
        extends(host, more),
    ensures
        table_for(es, home, root, host, from, first) !is Look ==> table_for(
            es,
            home,
            root,
            more,
            from,
            first,
        ) == table_for(es, home, root, host, from, first),
        table_for(es, home, root, host, from, first) is Look ==> found_at(
            host,
            table_for(es, home, root, host, from, first)->Look_0,
        ) is None,
    decreases es.len() - from,
{
    if from < es.len() {
        let path = expanded(home, es[from].0);
        assert(found_at(host, path) is Some ==> found_at(more, path) == found_at(host, path));
        if found_at(host, path) is Some {
            if same_path(canonical(found_at(host, path)->0, path), root) {
                if first is None {
                    lemma_table_stays(es, home, root, host, more, from + 1, Some(from));
                }
            } else {
                lemma_table_stays(es, home, root, host, more, from + 1, first);
            }
        }
    }
}

proof fn lemma_mounts_stay(
    start: Seq<MountView>,
    home: Seq<u8>,
    specs: Seq<MountSpecView>,
    base: Option<Seq<u8>>,
    host: Seq<(Seq<u8>, Found)>,
    more: Seq<(Seq<u8>, Found)>,
    n: nat,
)
    requires
        extends(host, more),
    ensures
        with_mounts(start, home, specs, base, host, n) !is Look ==> with_mounts(
            start,
            home,
            specs,
            base,
            more,
            n,
        ) == with_mounts(start, home, specs, base, host, n),
        with_mounts(start, home, specs, base, host, n) is Look ==> found_at(
            host,
            with_mounts(start, home, specs, base, host, n)->Look_0,
        ) is None,
    decreases n,
{
    if n > 0 {
        lemma_mounts_stay(start, home, specs, base, host, more, (n - 1) as nat);
        let path = host_path(home, specs[n - 1], base);
        assert(found_at(host, path) is Some ==> found_at(more, path) == found_at(host, path));
    }
}

/// Looking at the host leads somewhere: a path that must be looked at was not
/// looked at before, and an answer that needs no further look stays the same
/// when more is known.
pub proof fn law_answers_stay(
    config: ConfigView,
    home: Seq<u8>,
    root: Seq<u8>,
    cli: SettingsView,
    cwd: Seq<u8>,
    made_from: Option<Seq<char>>,
    host: Seq<(Seq<u8>, Found)>,
    more: Seq<(Seq<u8>, Found)>,
    host_cpus: u32,
)
    requires
        extends(host, more),
    ensures
        ({
            let answer = resolved(config, home, root, cli, cwd, made_from, host, host_cpus);
            &&& answer is Look ==> found_at(host, answer->Look_0) is None
            &&& answer !is Look ==> resolved(
                config,
                home,
                root,
                cli,
                cwd,
                made_from,
                more,
                host_cpus,
            ) == answer
        }),
{
    lemma_table_stays(config.projects, home, root, host, more, 0, None);
    match table_for(config.projects, home, root, host, 0, None) {
        Step::Done(at) => {
            let table = table_at(config, at);
            let project = MountView { host: root, guest: project_guest(root), read_only: false };
            let first = seq![project];
            let s1 = config.defaults.mounts;
            lemma_mounts_stay(first, home, s1, None, host, more, s1.len());
            match with_mounts(first, home, s1, None, host, s1.len()) {
                Step::Done(second) => {
                    let s2 = table.mounts;
                    lemma_mounts_stay(second, home, s2, None, host, more, s2.len());
                    match with_mounts(second, home, s2, None, host, s2.len()) {
                        Step::Done(third) => {
                            let s3 = cli.mounts;
                            lemma_mounts_stay(third, home, s3, Some(cwd), host, more, s3.len());
                        },
                        _ => {},
                    }
                },
                _ => {},
            }
        },
        _ => {},
    }
}

/// Whether `path` is where one of the tables says that its project is.
pub open spec fn names_project(
    es: Seq<(Seq<u8>, SettingsView)>,
    home: Seq<u8>,
    path: Seq<u8>,
) -> bool {
    exists|i: int| 0 <= i < es.len() && path == expanded(home, (#[trigger] es[i]).0)
}

/// Whether `path` is where one of the mounts says that its directory is.
pub open spec fn names_mount(
    specs: Seq<MountSpecView>,
    home: Seq<u8>,
    base: Option<Seq<u8>>,
    path: Seq<u8>,
) -> bool {
    exists|i: int|
        0 <= i < specs.len() && path == host_path(home, #[trigger] specs[i], base)
}

pub proof fn lemma_table_looks(
    es: Seq<(Seq<u8>, SettingsView)>,
    home: Seq<u8>,
    root: Seq<u8>,
    host: Seq<(Seq<u8>, Found)>,
    from: int,
    first: Option<int>,
)
    requires
        0 <= from,
    ensures
        table_for(es, home, root, host, from, first) is Look ==> names_project(
            es,
            home,
            table_for(es, home, root, host, from, first)->Look_0,
        ),
    decreases es.len() - from,
{
    if from < es.len() {
        let path = expanded(home, es[from].0);
        match found_at(host, path) {
            None => {
                assert(names_project(es, home, path));
            },
            Some(found) => {
                if same_path(canonical(found, path), root) {
                    if first is None {
                        lemma_table_looks(es, home, root, host, from + 1, Some(from));
                    }
                } else {
                    lemma_table_looks(es, home, root, host, from + 1, first);
                }
            },
        }
    }
}

proof fn lemma_mount_looks(
    start: Seq<MountView>,
    home: Seq<u8>,
    specs: Seq<MountSpecView>,
    base: Option<Seq<u8>>,
    host: Seq<(Seq<u8>, Found)>,
    n: nat,
)
    requires
        n <= specs.len(),
    ensures
        with_mounts(start, home, specs, base, host, n) is Look ==> names_mount(
            specs,
            home,
            base,
            with_mounts(start, home, specs, base, host, n)->Look_0,
        ),
    decreases n,
{
    if n > 0 {
        lemma_mount_looks(start, home, specs, base, host, (n - 1) as nat);
        let path = host_path(home, specs[n - 1], base);
        assert(names_mount(specs, home, base, path));
    }
}

/// Only paths that the layers name are looked at: those of the project
/// tables and those of the mounts.
pub proof fn law_looks_only_where_told(
    config: ConfigView,
    home: Seq<u8>,
    root: Seq<u8>,
    cli: SettingsView,
    cwd: Seq<u8>,
    made_from: Option<Seq<char>>,
    host: Seq<(Seq<u8>, Found)>,
    host_cpus: u32,
)
    requires
        resolved(config, home, root, cli, cwd, made_from, host, host_cpus) is Look,
    ensures
        ({
            let path = resolved(
                config,
                home,
                root,
                cli,
                cwd,
                made_from,
                host,
                host_cpus,
            )->Look_0;
            ||| names_project(config.projects, home, path)
            ||| names_mount(config.defaults.mounts, home, None, path)
            ||| names_mount(cli.mounts, home, Some(cwd), path)
            ||| exists|i: int|
                0 <= i < config.projects.len() && names_mount(
                    (#[trigger] config.projects[i]).1.mounts,
                    home,
                    None,
                    path,
                )
        }),
{
    lemma_table_looks(config.projects, home, root, host, 0, None);
    law_one_table_per_project(config.projects, home, root, host);
    match table_for(config.projects, home, root, host, 0, None) {
        Step::Done(at) => {
            let table = table_at(config, at);
            let project = MountView { host: root, guest: project_guest(root), read_only: false };
            let first = seq![project];
            let s1 = config.defaults.mounts;
            lemma_mount_looks(first, home, s1, None, host, s1.len());
            match with_mounts(first, home, s1, None, host, s1.len()) {
                Step::Done(second) => {
                    let s2 = table.mounts;
                    lemma_mount_looks(second, home, s2, None, host, s2.len());
                    match with_mounts(second, home, s2, None, host, s2.len()) {
                        Step::Done(third) => {
                            let s3 = cli.mounts;
                            lemma_mount_looks(third, home, s3, Some(cwd), host, s3.len());
                        },
                        Step::Look(path) => {
                            assert(s2.len() > 0);
                            assert(at is Some);
                            assert(names_mount(config.projects[at->0].1.mounts, home, None, path));
                        },
                        _ => {},
                    }
                },
                _ => {},
            }
        },
        _ => {},
    }
}

} // verus!
