//! The `[provision]` table of the configuration file, and the resources that
//! base images are built with.
use vstd::prelude::*;
use vstd::string::*;

use crate::config::{
    pick, resources_fault, validate_resources, Config, ConfigView, Provision, ProvisionSettings,
    DEFAULT_CPUS, DEFAULT_MEMORY,
};
use crate::config_error::ConfigError;
use crate::foreign::quoted_text;
use crate::paths::{valid_image_name, ImageName, ImageNameError};
use crate::settings::Resources;
use crate::size::ByteSize;
use crate::table::{by_name, law_table_put_get, put, value_of, NameTable};
use crate::text::same_str;

verus! {

/// A value of the `[provision]` table, read in each way that it may be meant.
#[derive(Debug)]
pub struct ProvisionValue {
    /// Whether it is a table.
    pub table: bool,
    /// Read as a number of CPUs, or why it is none.
    pub cpus: Result<u32, String>,
    /// Read as a memory size, or why it is none.
    pub memory: Result<ByteSize, String>,
    /// Read as the resources of one image, or why they are none.
    pub resources: Result<Resources, String>,
}

/// What is wrong with a `[provision]` table.
#[derive(Debug)]
pub enum ProvisionError {
    Cpus(String),
    Memory(String),
    Name(ImageNameError),
    Image { key: String, reason: String },
    UnknownKey(String),
}

/// What is wrong with a `[provision]` table, as a mathematical value.
pub enum ProvisionFault {
    Cpus(Seq<char>),
    Memory(Seq<char>),
    Name(Seq<char>),
    Image { key: Seq<char>, reason: Seq<char> },
    UnknownKey(Seq<char>),
}

impl View for ProvisionError {
    type V = ProvisionFault;

    open spec fn view(&self) -> ProvisionFault {
        match self {
            ProvisionError::Cpus(reason) => ProvisionFault::Cpus(reason@),
            ProvisionError::Memory(reason) => ProvisionFault::Memory(reason@),
            ProvisionError::Name(error) => ProvisionFault::Name(error.name@),
            ProvisionError::Image { key, reason } => ProvisionFault::Image {
                key: key@,
                reason: reason@,
            },
            ProvisionError::UnknownKey(key) => ProvisionFault::UnknownKey(key@),
        }
    }
}

/// The words for a fault.
pub open spec fn provision_fault_text(f: ProvisionFault) -> Seq<char> {
    match f {
        ProvisionFault::Cpus(reason) => "cpus: "@ + reason,
        ProvisionFault::Memory(reason) => "memory: "@ + reason,
        ProvisionFault::Name(name) => "invalid image name "@ + quoted_text(name)
            + ": expected lower-case letters, digits, - and _"@,
        ProvisionFault::Image { key, reason } => "in [provision."@ + key + "]: "@ + reason,
        ProvisionFault::UnknownKey(key) => "unknown field `"@ + key
            + "`, expected `cpus`, `memory` or an image's table"@,
    }
}

impl ProvisionError {
    /// What went wrong, for people.
    pub fn message(&self) -> (s: String)
        ensures
            s@ == provision_fault_text(self@),
    {
        match self {
            ProvisionError::Cpus(reason) => "cpus: ".to_owned().concat(reason.as_str()),
            ProvisionError::Memory(reason) => "memory: ".to_owned().concat(reason.as_str()),
            ProvisionError::Name(error) => error.message(),
            ProvisionError::Image { key, reason } => "in [provision.".to_owned().concat(
                key.as_str(),
            ).concat("]: ").concat(reason.as_str()),
            ProvisionError::UnknownKey(key) => "unknown field `".to_owned().concat(
                key.as_str(),
            ).concat("`, expected `cpus`, `memory` or an image's table"),
        }
    }
}

/// A `[provision]` table as a mathematical value.
pub struct ProvisionView {
    pub resources: Resources,
    pub images: Seq<(Seq<char>, Resources)>,
}

impl View for Provision {
    type V = ProvisionView;

    open spec fn view(&self) -> ProvisionView {
        ProvisionView { resources: self.resources, images: self.images@ }
    }
}

/// A `[provision]` table without anything in it.
pub open spec fn no_provision() -> ProvisionView {
    ProvisionView { resources: Resources { cpus: None, memory: None }, images: Seq::empty() }
}

/// `p` with one more entry of the table.
pub open spec fn with_entry(p: ProvisionView, key: Seq<char>, value: ProvisionValue) -> Result<
    ProvisionView,
    ProvisionFault,
> {
    if key == "cpus"@ {
        match value.cpus {
            Ok(n) => Ok(
                ProvisionView {
                    resources: Resources { cpus: Some(n), memory: p.resources.memory },
                    images: p.images,
                },
            ),
            Err(reason) => Err(ProvisionFault::Cpus(reason@)),
        }
    } else if key == "memory"@ {
        match value.memory {
            Ok(n) => Ok(
                ProvisionView {
                    resources: Resources { cpus: p.resources.cpus, memory: Some(n) },
                    images: p.images,
                },
            ),
            Err(reason) => Err(ProvisionFault::Memory(reason@)),
        }
    } else if !value.table {
        Err(ProvisionFault::UnknownKey(key))
    } else if !valid_image_name(key) {
        Err(ProvisionFault::Name(key))
    } else {
        match value.resources {
            Ok(resources) => Ok(
                ProvisionView {
                    resources: p.resources,
                    images: put(p.images, key, resources, by_name()),
                },
            ),
            Err(reason) => Err(ProvisionFault::Image { key, reason: reason@ }),
        }
    }
}

/// The table that the first `n` of `entries` make, or what is wrong with the
/// first of them that something is wrong with.
pub open spec fn with_entries(entries: Seq<(String, ProvisionValue)>, n: nat) -> Result<
    ProvisionView,
    ProvisionFault,
>
    decreases n,
{
    if n == 0 {
        Ok(no_provision())
    } else {
        match with_entries(entries, (n - 1) as nat) {
            Ok(p) => with_entry(p, entries[n - 1].0@, entries[n - 1].1),
            Err(fault) => Err(fault),
        }
    }
}

proof fn lemma_fault_stays(entries: Seq<(String, ProvisionValue)>, n: nat, m: nat)
    requires
        n <= m,
        with_entries(entries, n) is Err,
    ensures
        with_entries(entries, m) == with_entries(entries, n),
    decreases m - n,
{
    if n < m {
        lemma_fault_stays(entries, n, (m - 1) as nat);
    }
}

/// The outcome's value.
pub open spec fn provision_result(r: Result<Provision, ProvisionError>) -> Result<
    ProvisionView,
    ProvisionFault,
> {
    match r {
        Ok(p) => Ok(p@),
        Err(error) => Err(error@),
    }
}

impl Default for Provision {
    fn default() -> (p: Self)
        ensures
            p@ == no_provision(),
    {
        Provision { resources: Resources::default(), images: NameTable::new() }
    }
}

impl Provision {
    /// This table with one more entry.
    fn with(self, key: String, value: ProvisionValue) -> (r: Result<Self, ProvisionError>)
        ensures
            provision_result(r) == with_entry(self@, key@, value),
    {
        let Provision { resources, images } = self;
        if same_str(key.as_str(), "cpus") {
            match value.cpus {
                Ok(n) => Ok(
                    Provision {
                        resources: Resources { cpus: Some(n), memory: resources.memory },
                        images,
                    },
                ),
                Err(reason) => Err(ProvisionError::Cpus(reason)),
            }
        } else if same_str(key.as_str(), "memory") {
            match value.memory {
                Ok(n) => Ok(
                    Provision {
                        resources: Resources { cpus: resources.cpus, memory: Some(n) },
                        images,
                    },
                ),
                Err(reason) => Err(ProvisionError::Memory(reason)),
            }
        } else if !value.table {
            Err(ProvisionError::UnknownKey(key))
        } else {
            match ImageName::parse(key.as_str()) {
                Err(error) => Err(ProvisionError::Name(error)),
                Ok(image) => match value.resources {
                    Err(reason) => Err(ProvisionError::Image { key, reason }),
                    Ok(table) => Ok(Provision { resources, images: images.with(image, table) }),
                },
            }
        }
    }

    /// The table with these entries, in the order of their keys. Read by hand
    /// so that a bad key in `[provision.<name>]` is reported as that.
    pub fn try_from(entries: Vec<(String, ProvisionValue)>) -> (r: Result<Self, ProvisionError>)
        ensures
            provision_result(r) == with_entries(entries@, entries@.len()),
    {
        let ghost all = entries@;
        let mut rest = entries;
        let mut p = Provision::default();
        let ghost mut n: nat = 0;
        while rest.len() > 0
            invariant
                n + rest@.len() == all.len(),
                rest@ == all.skip(n as int),
                with_entries(all, n) == Ok::<ProvisionView, ProvisionFault>(p@),
                all == entries@,
            decreases rest.len(),
        {
            let (key, value) = rest.remove(0);
            assert(all.skip(n as int)[0] == all[n as int]);
            match p.with(key, value) {
                Ok(next) => {
                    p = next;
                },
                Err(error) => {
                    proof {
                        lemma_fault_stays(all, n + 1, all.len());
                    }
                    return Err(error);
                },
            }
            proof {
                n = n + 1;
            }
            assert(rest@ == all.skip(n as int));
        }
        Ok(p)
    }
}

// ---------------------------------------------------------------------------
// Resources for building images
// ---------------------------------------------------------------------------

/// The CPUs and memory for provisioning `image`, before they are checked:
/// from the flags, else the image's own table, else the `[provision]` table,
/// else the top-level keys, else the defaults.
pub open spec fn provision_resources(
    config: ConfigView,
    image: Seq<char>,
    cli: Resources,
) -> ProvisionSettings {
    let own = pick(
        value_of(config.provision_images, image),
        Resources { cpus: None, memory: None },
    );
    ProvisionSettings {
        cpus: pick(
            cli.cpus,
            pick(
                own.cpus,
                pick(config.provision.cpus, pick(config.defaults.cpus, DEFAULT_CPUS)),
            ),
        ),
        memory: pick(
            cli.memory,
            pick(
                own.memory,
                pick(
                    config.provision.memory,
                    pick(config.defaults.memory, ByteSize(DEFAULT_MEMORY)),
                ),
            ),
        ),
    }
}

/// The images that the first `n` project tables choose.
pub open spec fn table_images(
    config: ConfigView,
    n: nat,
) -> Seq<Seq<char>>
    decreases n,
{
    if n == 0 {
        Seq::empty()
    } else {
        match config.projects[n - 1].1.image {
            Some(name) => table_images(config, (n - 1) as nat).push(name),
            None => table_images(config, (n - 1) as nat),
        }
    }
}

/// The names of a table's entries.
pub open spec fn entry_names(es: Seq<(Seq<char>, Resources)>) -> Seq<Seq<char>> {
    Seq::new(es.len(), |i: int| es[i].0)
}

/// An optional name as a list.
pub open spec fn name_list(name: Option<Seq<char>>) -> Seq<Seq<char>> {
    match name {
        Some(name) => seq![name],
        None => Seq::empty(),
    }
}

/// Every image the config file names: with a table of its own, with a
/// provisioning table, chosen at the top level, chosen for a project.
pub open spec fn named_images(config: ConfigView) -> Seq<Seq<char>> {
    entry_names(config.images) + entry_names(config.provision_images) + name_list(
        config.defaults.image,
    ) + table_images(config, config.projects.len())
}

/// The names' values.
pub open spec fn image_names(v: Seq<ImageName>) -> Seq<Seq<char>> {
    Seq::new(v.len(), |i: int| v[i]@)
}

/// Appends the names of a table's entries.
fn push_names(v: &mut Vec<ImageName>, table: &NameTable<Resources>)
    ensures
        image_names(final(v)@) == image_names(old(v)@) + entry_names(table@),
{
    let ghost start = image_names(v@);
    let ghost es = table@;
    let mut i: usize = 0;
    while i < table.len()
        invariant
            i <= es.len(),
            es == table@,
            image_names(v@) == start + entry_names(es).take(i as int),
        decreases es.len() - i,
    {
        let ghost before = v@;
        v.push(table.name(i).clone());
        assert(image_names(v@) == image_names(before).push(es[i as int].0));
        assert(entry_names(es).take(i + 1) == entry_names(es).take(i as int).push(es[i as int].0));
        i += 1;
    }
    assert(entry_names(es).take(i as int) == entry_names(es));
}

impl Config {
    /// Every image the config file names.
    pub fn images(&self) -> (v: Vec<ImageName>)
        ensures
            image_names(v@) == named_images(self@),
    {
        let mut v: Vec<ImageName> = Vec::new();
        push_names(&mut v, &self.images);
        push_names(&mut v, &self.provision.images);
        let ghost start = image_names(v@);
        if let Some(name) = &self.defaults.image {
            v.push(name.clone());
        }
        assert(image_names(v@) == start + name_list(self@.defaults.image));
        let ghost lead = image_names(v@);
        let mut i: usize = 0;
        while i < self.projects.len()
            invariant
                i <= self@.projects.len(),
                image_names(v@) == lead + table_images(self@, i as nat),
            decreases self@.projects.len() - i,
        {
            let ghost before = image_names(v@);
            if let Some(name) = &self.projects.settings(i).image {
                v.push(name.clone());
                assert(image_names(v@) == before.push(name@));
            }
            assert(image_names(v@) == lead + table_images(self@, (i + 1) as nat));
            i += 1;
        }
        v
    }

    /// Merges the layers that apply to provisioning `image` with the CLI
    /// flags, on a host with `host_cpus` CPUs.
    pub fn resolve_provision(&self, image: &ImageName, cli: &Resources, host_cpus: u32) -> (r:
        Result<ProvisionSettings, ConfigError>)
        ensures
            match resources_fault(
                provision_resources(self@, image@, *cli).cpus,
                provision_resources(self@, image@, *cli).memory,
                host_cpus,
            ) {
                None => r is Ok && r->Ok_0 == provision_resources(self@, image@, *cli),
                Some(fault) => r is Err && r->Err_0@ == fault,
            },
    {
        let own = match self.provision.images.get(image) {
            Some(resources) => *resources,
            None => Resources::default(),
        };
        let table = self.provision.resources;
        let cpus = cli.cpus.unwrap_or(
            own.cpus.unwrap_or(
                table.cpus.unwrap_or(self.defaults.cpus.unwrap_or(DEFAULT_CPUS)),
            ),
        );
        let memory = cli.memory.unwrap_or(
            own.memory.unwrap_or(
                table.memory.unwrap_or(self.defaults.memory.unwrap_or(ByteSize(DEFAULT_MEMORY))),
            ),
        );
        match validate_resources(cpus, memory, host_cpus) {
            Ok(()) => Ok(ProvisionSettings { cpus, memory }),
            Err(error) => Err(error),
        }
    }
}

/// Provisioning an image goes by the image's own table, the `[provision]`
/// table, the top-level keys and the flags: the tables of other images and
/// the resources for running VMs don't matter.
pub proof fn law_provision_uses_own_table(
    a: ConfigView,
    b: ConfigView,
    image: Seq<char>,
    cli: Resources,
)
    requires
        a.defaults.cpus == b.defaults.cpus,
        a.defaults.memory == b.defaults.memory,
        a.provision == b.provision,
        value_of(a.provision_images, image) == value_of(b.provision_images, image),
    ensures
        provision_resources(a, image, cli) == provision_resources(b, image, cli),
{
}

/// Whether no two of the entries have the same key.
pub open spec fn distinct_keys(entries: Seq<(String, ProvisionValue)>) -> bool {
    forall|i: int, j: int|
        0 <= i < j < entries.len() ==> (#[trigger] entries[i]).0@ != (#[trigger] entries[j]).0@
}

/// A `[provision]` table that is read without error gives every entry the
/// value that it has: the CPUs and memory for all images, and the resources of
/// single images.
pub proof fn law_provision_reads_every_entry(
    entries: Seq<(String, ProvisionValue)>,
    n: nat,
    i: int,
)
    requires
        distinct_keys(entries),
        0 <= i < n <= entries.len(),
        with_entries(entries, n) is Ok,
    ensures
        ({
            let p = with_entries(entries, n)->Ok_0;
            let key = entries[i].0@;
            let value = entries[i].1;
            if key == "cpus"@ {
                value.cpus is Ok && p.resources.cpus == Some(value.cpus->Ok_0)
            } else if key == "memory"@ {
                value.memory is Ok && p.resources.memory == Some(value.memory->Ok_0)
            } else {
                value.table && value.resources is Ok && value_of(p.images, key) == Some(
                    value.resources->Ok_0,
                )
            }
        }),
    decreases n,
{
    let last = entries[n - 1];
    let before = with_entries(entries, (n - 1) as nat)->Ok_0;
    reveal_strlit("cpus");
    reveal_strlit("memory");
    assert("cpus"@ != "memory"@) by {
        assert("cpus"@.len() != "memory"@.len());
    }
    if i < n - 1 {
        law_provision_reads_every_entry(entries, (n - 1) as nat, i);
        assert(entries[i].0@ != entries[n - 1].0@);
        if last.0@ != "cpus"@ && last.0@ != "memory"@ {
            law_table_put_get(before.images, last.0@, last.1.resources->Ok_0, entries[i].0@);
        }
    } else if last.0@ != "cpus"@ && last.0@ != "memory"@ {
        law_table_put_get(before.images, last.0@, last.1.resources->Ok_0, last.0@);
    }
}

} // verus!
