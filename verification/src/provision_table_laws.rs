//! What the `[provision]` table and the names of images come to.
use vstd::prelude::*;
use vstd::string::*;

use crate::acceptance_laws::{is_table, lemma_table, lemma_topmost_four, topmost};
use crate::config::{image_of, resolved_image, ConfigView, Step};
use crate::host::Found;
use crate::paths::valid_image_name;
use crate::provision_table::{
    named_images, provision_resources, table_images, with_entries, ProvisionFault, ProvisionValue,
    ProvisionView,
};
use crate::settings::{Resources, SettingsView};
use crate::size::ByteSize;
use crate::table::value_of;

verus! {

/// An image is built with the CPUs and memory of the first of these that says:
/// the flags, the image's own table, the `[provision]` table, the top-level
/// keys; else with 2 CPUs and 4 GiB.
pub proof fn law_provision_layers(
    config: ConfigView,
    image: Seq<char>,
    cli: Resources,
    own: Resources,
)
    requires
        own == (match value_of(config.provision_images, image) {
            Some(r) => r,
            None => Resources { cpus: None, memory: None },
        }),
    ensures
        provision_resources(config, image, cli).cpus == topmost(
            seq![cli.cpus, own.cpus, config.provision.cpus, config.defaults.cpus],
            2u32,
        ),
        provision_resources(config, image, cli).memory == topmost(
            seq![cli.memory, own.memory, config.provision.memory, config.defaults.memory],
            ByteSize(4294967296),
        ),
{
    lemma_topmost_four(
        cli.cpus,
        own.cpus,
        config.provision.cpus,
        config.defaults.cpus,
        2u32,
    );
    lemma_topmost_four(
        cli.memory,
        own.memory,
        config.provision.memory,
        config.defaults.memory,
        ByteSize(4294967296),
    );
}

/// What is wrong with an entry of the table, if anything.
pub open spec fn entry_fault(key: Seq<char>, value: ProvisionValue) -> Option<ProvisionFault> {
    if key == seq!['c', 'p', 'u', 's'] {
        if value.cpus is Ok {
            None
        } else {
            Some(ProvisionFault::Cpus(value.cpus->Err_0@))
        }
    } else if key == seq!['m', 'e', 'm', 'o', 'r', 'y'] {
        if value.memory is Ok {
            None
        } else {
            Some(ProvisionFault::Memory(value.memory->Err_0@))
        }
    } else if !value.table {
        Some(ProvisionFault::UnknownKey(key))
    } else if !valid_image_name(key) {
        Some(ProvisionFault::Name(key))
    } else if value.resources is Err {
        Some(ProvisionFault::Image { key, reason: value.resources->Err_0@ })
    } else {
        None
    }
}

/// A `[provision]` table is read if and only if nothing is wrong with any of
/// its entries; else the first entry that something is wrong with is named.
pub proof fn law_provision_table_errors(
    entries: Seq<(String, ProvisionValue)>,
    n: nat,
    i: int,
)
    requires
        n <= entries.len(),
    ensures
        with_entries(entries, n) is Ok <==> forall|k: int|
            0 <= k < n ==> entry_fault((#[trigger] entries[k]).0@, entries[k].1) is None,
        0 <= i < n && entry_fault(entries[i].0@, entries[i].1) is Some && (forall|k: int|
            0 <= k < i ==> entry_fault((#[trigger] entries[k]).0@, entries[k].1) is None)
            ==> with_entries(entries, n) == Err::<ProvisionView, ProvisionFault>(
            entry_fault(entries[i].0@, entries[i].1)->0,
        ),
    decreases n,
{
    reveal_strlit("cpus");
    reveal_strlit("memory");
    assert("cpus"@ == seq!['c', 'p', 'u', 's']);
    assert("memory"@ == seq!['m', 'e', 'm', 'o', 'r', 'y']);
    if n > 0 {
        law_provision_table_errors(entries, (n - 1) as nat, i);
        assert(entry_fault(entries[n - 1].0@, entries[n - 1].1) is Some ==> !(forall|k: int|
            0 <= k < n ==> entry_fault((#[trigger] entries[k]).0@, entries[k].1) is None));
    }
}

// ---------------------------------------------------------------------------
// Images
// ---------------------------------------------------------------------------

/// The image of a VM is the chosen one, else the one that it was made from,
/// else the default one.
pub proof fn law_image_of(chosen: Seq<char>, made_from: Seq<char>, any: Option<Seq<char>>)
    ensures
        image_of(Some(chosen), any) == chosen,
        image_of(None, Some(made_from)) == made_from,
        image_of(None, None) == "default"@,
{
}

/// The config file chooses the image of a project's table, else the one of the
/// top level.
pub proof fn law_chosen_image(
    config: ConfigView,
    home: Seq<u8>,
    root: Seq<u8>,
    host: Seq<(Seq<u8>, Found)>,
    table: SettingsView,
)
    requires
        is_table(config, home, root, host, table),
    ensures
        resolved_image(config, home, root, host) == Step::Done(
            if table.image is Some {
                table.image
            } else {
                config.defaults.image
            },
        ),
{
    lemma_table(config, home, root, host, table);
}

proof fn lemma_table_images(config: ConfigView, n: nat, name: Seq<char>)
    requires
        n <= config.projects.len(),
    ensures
        table_images(config, n).contains(name) <==> exists|i: int|
            0 <= i < n && (#[trigger] config.projects[i]).1.image == Some(name),
    decreases n,
{
    if n > 0 {
        lemma_table_images(config, (n - 1) as nat, name);
        let before = table_images(config, (n - 1) as nat);
        let all = table_images(config, n);
        match config.projects[n - 1].1.image {
            Some(last) => {
                if all.contains(name) {
                    let k = choose|k: int| 0 <= k < all.len() && all[k] == name;
                    if k < before.len() {
                        assert(before[k] == name);
                    }
                }
                if before.contains(name) {
                    let k = choose|k: int| 0 <= k < before.len() && before[k] == name;
                    assert(all[k] == name);
                }
                if last == name {
                    assert(all[before.len() as int] == name);
                }
            },
            None => {},
        }
    }
}

/// The config file names an image if and only if it has a table of its own, a
/// provisioning table, or is chosen, at the top level or for a project.
pub proof fn law_named_images(config: ConfigView, name: Seq<char>)
    ensures
        named_images(config).contains(name) <==> {
            ||| exists|i: int| 0 <= i < config.images.len() && (#[trigger] config.images[i]).0
                == name
            ||| exists|i: int|
                0 <= i < config.provision_images.len() && (#[trigger] config.provision_images[i]).0
                    == name
            ||| config.defaults.image == Some(name)
            ||| exists|i: int|
                0 <= i < config.projects.len() && (#[trigger] config.projects[i]).1.image == Some(
                    name,
                )
        },
{
    let all = named_images(config);
    let a = config.images.len() as int;
    let b = config.provision_images.len() as int;
    let top = crate::provision_table::name_list(config.defaults.image);
    let c = top.len() as int;
    let tables = table_images(config, config.projects.len());
    lemma_table_images(config, config.projects.len(), name);
    if all.contains(name) {
        let k = choose|k: int| 0 <= k < all.len() && all[k] == name;
        if k < a {
            assert(config.images[k].0 == name);
        } else if k < a + b {
            assert(config.provision_images[k - a].0 == name);
        } else if k < a + b + c {
            assert(top[k - a - b] == name);
        } else {
            assert(tables[k - a - b - c] == name);
        }
    }
    if exists|i: int| 0 <= i < config.images.len() && (#[trigger] config.images[i]).0 == name {
        let i = choose|i: int|
            0 <= i < config.images.len() && (#[trigger] config.images[i]).0 == name;
        assert(all[i] == name);
    }
    if exists|i: int|
        0 <= i < config.provision_images.len() && (#[trigger] config.provision_images[i]).0
            == name {
        let i = choose|i: int|
            0 <= i < config.provision_images.len() && (#[trigger] config.provision_images[i]).0
                == name;
        assert(all[a + i] == name);
    }
    if config.defaults.image == Some(name) {
        assert(all[a + b] == name);
    }
    if tables.contains(name) {
        let k = choose|k: int| 0 <= k < tables.len() && tables[k] == name;
        assert(all[a + b + c + k] == name);
    }
}

} // verus!
