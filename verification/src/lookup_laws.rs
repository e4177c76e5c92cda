//! What tables and lists give for a key, and where resolving stops.
use vstd::prelude::*;
use vstd::string::*;
use vstd::utf8::*;

use crate::acceptance_laws::{is_table, lemma_all_done, lemma_table};
use crate::config::{
    mount_for, project_guest, resolved, resolved_image, table_for, with_mounts, ConfigView, MountView, Step, VmView,
};
use crate::config_error::Fault;
use crate::config_laws::{
    is_for, law_one_table_per_project, lemma_table_looks, lemma_table_stays, looked_at,
};
use crate::disk::{block_of, in_hole, law_holes_are_zero_blocks, whole_blocks};
use crate::host::{found_at, Found};
use crate::mount_spec::{mount_of_text, MountFault, MountSpecView};
use crate::paths::expanded;
use crate::settings::SettingsView;
use crate::table::{lemma_put_at, put, value_of};
use crate::text_laws::{joined, law_split};

verus! {

// ---------------------------------------------------------------------------
// Tables
// ---------------------------------------------------------------------------

/// What a table gives for a name is what its first entry for it has; without
/// an entry it gives nothing.
pub proof fn law_values<V>(es: Seq<(Seq<char>, V)>, name: Seq<char>, i: int)
    ensures
        0 <= i < es.len() && es[i].0 == name && (forall|j: int|
            0 <= j < i ==> (#[trigger] es[j]).0 != name) ==> value_of(es, name) == Some(es[i].1),
        (forall|j: int| 0 <= j < es.len() ==> (#[trigger] es[j]).0 != name) ==> value_of(es, name)
            is None,
    decreases es.len(),
{
    if es.len() > 0 {
        let rest = es.skip(1);
        law_values(rest, name, i - 1);
        if 0 < i < es.len() && es[i].0 == name && (forall|j: int|
            0 <= j < i ==> (#[trigger] es[j]).0 != name) {
            assert(es[0].0 != name);
            assert(rest[i - 1] == es[i]);
            assert forall|j: int| 0 <= j < i - 1 implies (#[trigger] rest[j]).0 != name by {
                assert(rest[j] == es[j + 1]);
            }
        }
        if forall|j: int| 0 <= j < es.len() ==> (#[trigger] es[j]).0 != name {
            assert(es[0].0 != name);
            assert forall|j: int| 0 <= j < rest.len() implies (#[trigger] rest[j]).0 != name by {
                assert(rest[j] == es[j + 1]);
            }
        }
    }
}

/// What was found at a path is what was noted there first; where nothing was
/// noted, nothing is known.
pub proof fn law_found(seen: Seq<(Seq<u8>, Found)>, path: Seq<u8>, i: int)
    ensures
        0 <= i < seen.len() && seen[i].0 == path && (forall|j: int|
            0 <= j < i ==> (#[trigger] seen[j]).0 != path) ==> found_at(seen, path) == Some(
            seen[i].1,
        ),
        (forall|j: int| 0 <= j < seen.len() ==> (#[trigger] seen[j]).0 != path) ==> found_at(
            seen,
            path,
        ) is None,
    decreases seen.len(),
{
    if seen.len() > 0 {
        let rest = seen.skip(1);
        law_found(rest, path, i - 1);
        if 0 < i < seen.len() && seen[i].0 == path && (forall|j: int|
            0 <= j < i ==> (#[trigger] seen[j]).0 != path) {
            assert(seen[0].0 != path);
            assert(rest[i - 1] == seen[i]);
            assert forall|j: int| 0 <= j < i - 1 implies (#[trigger] rest[j]).0 != path by {
                assert(rest[j] == seen[j + 1]);
            }
        }
        if forall|j: int| 0 <= j < seen.len() ==> (#[trigger] seen[j]).0 != path {
            assert(seen[0].0 != path);
            assert forall|j: int| 0 <= j < rest.len() implies (#[trigger] rest[j]).0 != path by {
                assert(rest[j] == seen[j + 1]);
            }
        }
    }
}

// ---------------------------------------------------------------------------
// Mounts as written
// ---------------------------------------------------------------------------

/// Whether a part reads `ro` or `rw`.
pub open spec fn names_mode(part: Seq<char>) -> bool {
    part =~= seq!['r', 'o'] || part =~= seq!['r', 'w']
}

/// What is written between colons is a mount if, but for a mode at its end,
/// it has one or two parts, the first of which is not empty: host, guest and
/// mode as they are written.
pub proof fn law_mount_parts(parts: Seq<Seq<char>>)
    requires
        parts.len() > 0,
        forall|i: int| 0 <= i < parts.len() ==> !(#[trigger] parts[i]).contains(':'),
    ensures
        ({
            let read = mount_of_text(joined(parts, ':'));
            let n = if names_mode(parts.last()) {
                parts.len() - 1
            } else {
                parts.len() as int
            };
            &&& n < 1 || n > 2 ==> read == Err::<MountSpecView, MountFault>(MountFault::Form)
            &&& 1 <= n <= 2 && parts[0].len() == 0 ==> read == Err::<MountSpecView, MountFault>(
                MountFault::EmptyHost,
            )
            &&& 1 <= n <= 2 && parts[0].len() > 0 ==> read == Ok::<MountSpecView, MountFault>(
                MountSpecView {
                    host: encode_utf8(parts[0]),
                    guest: if n == 2 {
                        Some(encode_utf8(parts[1]))
                    } else {
                        None
                    },
                    read_only: parts.last() =~= seq!['r', 'o'],
                },
            )
        }),
{
    law_split(parts, ':');
    reveal_strlit("ro");
    reveal_strlit("rw");
    assert("ro"@ =~= seq!['r', 'o']);
    assert("rw"@ =~= seq!['r', 'w']);
    assert(seq!['r', 'o'][1] != seq!['r', 'w'][1]);
}

// ---------------------------------------------------------------------------
// Where resolving stops
// ---------------------------------------------------------------------------

/// What is asked for or refused.
pub open spec fn stopped<A, B>(step: Step<A>) -> Step<B> {
    match step {
        Step::Look(path) => Step::Look(path),
        Step::Fail(fault) => Step::Fail(fault),
        Step::Done(_) => arbitrary(),
    }
}

proof fn lemma_stops(
    start: Seq<MountView>,
    home: Seq<u8>,
    specs: Seq<MountSpecView>,
    base: Option<Seq<u8>>,
    host: Seq<(Seq<u8>, Found)>,
    all: Seq<MountView>,
    k: nat,
    n: nat,
)
    requires
        k < n <= specs.len(),
        all.len() >= k,
        forall|i: int|
            0 <= i < k ==> mount_for(home, #[trigger] specs[i], base, host) == Step::Done(all[i]),
        mount_for(home, specs[k as int], base, host) !is Done,
    ensures
        with_mounts(start, home, specs, base, host, n) == stopped::<MountView, Seq<MountView>>(
            mount_for(home, specs[k as int], base, host),
        ),
    decreases n,
{
    if n == k + 1 {
        lemma_all_done(start, home, specs, base, host, all, k);
    } else {
        lemma_stops(start, home, specs, base, host, all, k, (n - 1) as nat);
    }
}

/// Resolving stops at the first mount on the command line that is refused or
/// has to be looked at, those of the config file being in order; at the first
/// one of the project's table, those of the top level being in order; or at
/// the first one of the top level.
pub proof fn law_first_bad_mount(
    config: ConfigView,
    home: Seq<u8>,
    root: Seq<u8>,
    cli: SettingsView,
    cwd: Seq<u8>,
    made_from: Option<Seq<char>>,
    host: Seq<(Seq<u8>, Found)>,
    host_cpus: u32,
    table: SettingsView,
    m1: Seq<MountView>,
    m2: Seq<MountView>,
    m3: Seq<MountView>,
    layer: int,
    k: nat,
)
    requires
        is_table(config, home, root, host, table),
        0 <= layer < 3,
        m1.len() == (if layer == 0 {
            k
        } else {
            config.defaults.mounts.len()
        }),
        m1.len() <= config.defaults.mounts.len(),
        forall|i: int|
            0 <= i < m1.len() ==> mount_for(
                home,
                #[trigger] config.defaults.mounts[i],
                None,
                host,
            ) == Step::Done(m1[i]),
        layer == 0 ==> k < config.defaults.mounts.len() && mount_for(
            home,
            config.defaults.mounts[k as int],
            None,
            host,
        ) !is Done,
        layer > 0 ==> m2.len() == (if layer == 1 {
            k
        } else {
            table.mounts.len()
        }),
        layer > 0 ==> m2.len() <= table.mounts.len(),
        layer > 0 ==> forall|i: int|
            0 <= i < m2.len() ==> mount_for(home, #[trigger] table.mounts[i], None, host)
                == Step::Done(m2[i]),
        layer == 1 ==> k < table.mounts.len() && mount_for(
            home,
            table.mounts[k as int],
            None,
            host,
        ) !is Done,
        layer == 2 ==> m3.len() == k && k < cli.mounts.len() && mount_for(
            home,
            cli.mounts[k as int],
            Some(cwd),
            host,
        ) !is Done,
        layer == 2 ==> forall|i: int|
            0 <= i < k ==> mount_for(home, #[trigger] cli.mounts[i], Some(cwd), host) == Step::Done(
                m3[i],
            ),
    ensures
        resolved(config, home, root, cli, cwd, made_from, host, host_cpus) == stopped::<
            MountView,
            VmView,
        >(
            if layer == 0 {
                mount_for(home, config.defaults.mounts[k as int], None, host)
            } else if layer == 1 {
                mount_for(home, table.mounts[k as int], None, host)
            } else {
                mount_for(home, cli.mounts[k as int], Some(cwd), host)
            },
        ),
{
    lemma_table(config, home, root, host, table);
    let project = MountView { host: root, guest: project_guest(root), read_only: false };
    let first = seq![project];
    let s1 = config.defaults.mounts;
    let s2 = table.mounts;
    let s3 = cli.mounts;
    if layer == 0 {
        lemma_stops(first, home, s1, None, host, m1, k, s1.len());
    } else {
        lemma_all_done(first, home, s1, None, host, m1, s1.len());
        let second = first + m1.take(s1.len() as int);
        if layer == 1 {
            lemma_stops(second, home, s2, None, host, m2, k, s2.len());
        } else {
            lemma_all_done(second, home, s2, None, host, m2, s2.len());
            let third = second + m2.take(s2.len() as int);
            lemma_stops(third, home, s3, Some(cwd), host, m3, k, s3.len());
        }
    }
}

/// Two project tables for one project are refused, and both are named.
pub proof fn law_tables_stop(
    config: ConfigView,
    home: Seq<u8>,
    root: Seq<u8>,
    cli: SettingsView,
    cwd: Seq<u8>,
    made_from: Option<Seq<char>>,
    host: Seq<(Seq<u8>, Found)>,
    host_cpus: u32,
    i: int,
    j: int,
)
    requires
        0 <= i < j < config.projects.len(),
        forall|k: int|
            0 <= k < config.projects.len() ==> #[trigger] looked_at(config.projects, home, host, k),
        is_for(config.projects, home, root, host, i),
        is_for(config.projects, home, root, host, j),
        forall|k: int|
            0 <= k < config.projects.len() && k != i && k != j ==> !#[trigger] is_for(
                config.projects,
                home,
                root,
                host,
                k,
            ),
    ensures
        resolved(config, home, root, cli, cwd, made_from, host, host_cpus) == Step::<VmView>::Fail(
            Fault::Ambiguous {
                first: config.projects[i].0,
                second: config.projects[j].0,
                root,
            },
        ),
        resolved_image(config, home, root, host) == Step::<Option<Seq<char>>>::Fail(
            Fault::Ambiguous {
                first: config.projects[i].0,
                second: config.projects[j].0,
                root,
            },
        ),
{
    let es = config.projects;
    law_one_table_per_project(es, home, root, host);
    lemma_table_looks(es, home, root, host, 0, None);
    lemma_table_stays(es, home, root, host, host, 0, None);
    match table_for(es, home, root, host, 0, None) {
        Step::Look(path) => {
            let k = choose|k: int| 0 <= k < es.len() && path == expanded(home, (#[trigger] es[k]).0);
            assert(looked_at(es, home, host, k));
        },
        Step::Done(at) => {
            assert(is_for(es, home, root, host, i));
            assert(is_for(es, home, root, host, j));
        },
        Step::Fail(fault) => {
            let (a, b) = choose|a: int, b: int|
                {
                    &&& 0 <= a < b < es.len()
                    &&& #[trigger] is_for(es, home, root, host, a)
                    &&& #[trigger] is_for(es, home, root, host, b)
                    &&& fault == Fault::Ambiguous { first: es[a].0, second: es[b].0, root }
                };
            assert(a == i && b == j);
        },
    }
}

// ---------------------------------------------------------------------------
// Holes
// ---------------------------------------------------------------------------

/// A block of 64 KiB that is zero throughout is given back as a whole, and
/// none of one that has another byte in it, nor of a shorter one at the end of
/// the file.
pub proof fn law_zero_blocks_are_given_back(data: Seq<u8>, k: nat, i: int)
    requires
        data.len() <= u64::MAX,
        k * 65536 <= i < (k + 1) * 65536,
        i < data.len(),
    ensures
        (k + 1) * 65536 <= data.len() && (forall|j: int|
            k * 65536 <= j < (k + 1) * 65536 ==> #[trigger] data[j] == 0) ==> in_hole(
            data,
            whole_blocks(data) + 1,
            i,
        ),
        (k + 1) * 65536 > data.len() ==> !in_hole(data, whole_blocks(data) + 1, i),
        (exists|j: int|
            k * 65536 <= j < (k + 1) * 65536 && j < data.len() && #[trigger] data[j] != 0)
            ==> !in_hole(data, whole_blocks(data) + 1, i),
{
    law_holes_are_zero_blocks(data, i);
    assert(i / 65536 == k);
    let block = block_of(data, k);
    if (k + 1) * 65536 <= data.len() {
        assert(block == data.subrange((k * 65536) as int, ((k + 1) * 65536) as int));
        if forall|j: int| k * 65536 <= j < (k + 1) * 65536 ==> #[trigger] data[j] == 0 {
            assert forall|j: int| 0 <= j < block.len() implies block[j] == 0 by {
                assert(block[j] == data[k * 65536 + j]);
            }
        }
        if exists|j: int|
            k * 65536 <= j < (k + 1) * 65536 && j < data.len() && #[trigger] data[j] != 0 {
            let j = choose|j: int|
                k * 65536 <= j < (k + 1) * 65536 && j < data.len() && #[trigger] data[j] != 0;
            assert(block[j - k * 65536] == data[j]);
        }
    } else {
        assert(block.len() < 65536);
    }
}

// ---------------------------------------------------------------------------
// Putting entries into tables
// ---------------------------------------------------------------------------

/// An entry goes behind all whose keys come before its own. One for the same
/// key is replaced there, keeping the key as it was; else it is put in. All
/// other entries stay.
pub proof fn law_put<K, V>(
    es: Seq<(K, V)>,
    k: K,
    v: V,
    less: spec_fn(K, K) -> bool,
    at: int,
    i: int,
)
    requires
        0 <= at <= es.len(),
        forall|j: int| 0 <= j < at ==> less(#[trigger] es[j].0, k),
        at < es.len() ==> !less(es[at].0, k),
    ensures
        ({
            let new = put(es, k, v, less);
            if at < es.len() && !less(k, es[at].0) {
                &&& new.len() == es.len()
                &&& new[at] == (es[at].0, v)
                &&& 0 <= i < es.len() && i != at ==> new[i] == es[i]
            } else {
                &&& new.len() == es.len() + 1
                &&& new[at] == (k, v)
                &&& 0 <= i < at ==> new[i] == es[i]
                &&& at <= i < es.len() ==> new[i + 1] == es[i]
            }
        }),
{
    lemma_put_at(es, k, v, less, at);
}

// ---------------------------------------------------------------------------
// Looking at the host for tables
// ---------------------------------------------------------------------------

proof fn lemma_first_unknown(
    es: Seq<(Seq<u8>, SettingsView)>,
    home: Seq<u8>,
    root: Seq<u8>,
    host: Seq<(Seq<u8>, Found)>,
    k: int,
    from: int,
    first: Option<int>,
)
    requires
        0 <= from <= k < es.len(),
        forall|i: int| from <= i < k ==> #[trigger] looked_at(es, home, host, i),
        !looked_at(es, home, host, k),
        forall|i: int, j: int|
            from <= i < j < k ==> !(#[trigger] is_for(es, home, root, host, i)
                && #[trigger] is_for(es, home, root, host, j)),
        first is Some ==> forall|i: int|
            from <= i < k ==> !#[trigger] is_for(es, home, root, host, i),
    ensures
        table_for(es, home, root, host, from, first) == Step::<Option<int>>::Look(
            expanded(home, es[k].0),
        ),
    decreases k - from,
{
    if from < k {
        let path = expanded(home, es[from].0);
        assert(looked_at(es, home, host, from));
        if is_for(es, home, root, host, from) {
            assert(first is None);
            assert forall|i: int| from + 1 <= i < k implies !#[trigger] is_for(
                es,
                home,
                root,
                host,
                i,
            ) by {
                assert(is_for(es, home, root, host, from));
            }
            lemma_first_unknown(es, home, root, host, k, from + 1, Some(from));
        } else {
            lemma_first_unknown(es, home, root, host, k, from + 1, first);
        }
    }
}

/// The first project table whose path was not looked at yet has to be looked
/// at before anything can be said, for the settings as for the image.
pub proof fn law_first_unknown_table(
    config: ConfigView,
    home: Seq<u8>,
    root: Seq<u8>,
    cli: SettingsView,
    cwd: Seq<u8>,
    made_from: Option<Seq<char>>,
    host: Seq<(Seq<u8>, Found)>,
    host_cpus: u32,
    k: int,
)
    requires
        0 <= k < config.projects.len(),
        forall|i: int| 0 <= i < k ==> #[trigger] looked_at(config.projects, home, host, i),
        !looked_at(config.projects, home, host, k),
        forall|i: int, j: int|
            0 <= i < j < k ==> !(#[trigger] is_for(config.projects, home, root, host, i)
                && #[trigger] is_for(config.projects, home, root, host, j)),
    ensures
        resolved(config, home, root, cli, cwd, made_from, host, host_cpus) == Step::<VmView>::Look(
            expanded(home, config.projects[k].0),
        ),
        resolved_image(config, home, root, host) == Step::<Option<Seq<char>>>::Look(
            expanded(home, config.projects[k].0),
        ),
{
    lemma_first_unknown(config.projects, home, root, host, k, 0, None);
}

} // verus!
