//! User configuration (`~/.config/sendit/config.toml`) and resolution of the
//! effective VM settings for a project.
//!
//! Layers, lowest to highest precedence: built-in defaults, top-level keys of
//! the config file, the `[images.<name>]` table of the VM's image, the
//! matching `[projects."<path>"]` table, CLI flags. Scalars are overridden by
//! higher layers; mounts accumulate across layers.
//! Provisioning a base image takes its CPUs and memory from the top-level
//! keys, then the `[provision]` table, then the image's `[provision.<name>]`
//! table, then the flags of `sendit provision`.
use vstd::prelude::*;
use vstd::string::*;
use vstd::utf8::*;

use crate::config_error::{ConfigError, Fault};
use crate::foreign::utf8_text;
use crate::host::{found_at, Found, HostPaths, Lookup};
use crate::mount_spec::{MountSpec, MountSpecView};
use crate::path::{components, file_name, join, normal, rooted, same_path, Component, UnixPath};
use crate::paths::{expanded, ImageName, Paths, Project};
use crate::settings::{
    clone_name, mount_specs, name_view, ProjectTable, Resources, Settings, SettingsView,
};
use crate::size::{ByteSize, MIB};
use crate::table::{value_of, NameTable};
use crate::text::{chars_of, contains_control, has_control, same_chars, trim, trimmed};

verus! {

pub const DEFAULT_CPUS: u32 = 2;

/// 4 GiB
pub const DEFAULT_MEMORY: u64 = 0x1_0000_0000;

/// 64 GiB
pub const DEFAULT_DISK_SIZE: u64 = 0x10_0000_0000;

/// 512 MiB
pub const MIN_MEMORY: u64 = 0x2000_0000;

/// 8 GiB
pub const MIN_DISK_SIZE: u64 = 0x2_0000_0000;

/// The guest's login user.
pub const GUEST_USER: &'static str = "dev";

/// The guest user's home directory. The project directory is mounted below
/// it under its own name, e.g. `~/Code/app` at `/home/dev/app`.
pub const GUEST_HOME: &'static str = "/home/dev";

// ---------------------------------------------------------------------------
// Types
// ---------------------------------------------------------------------------

/// The `[provision]` table: resources for building all base images, and
/// `[provision.<name>]` tables for single images.
#[derive(Debug)]
pub struct Provision {
    pub resources: Resources,
    pub images: NameTable<Resources>,
}

#[derive(Debug)]
pub struct Config {
    pub defaults: Settings,
    pub provision: Provision,
    /// Resources for the VMs made from single images.
    pub images: NameTable<Resources>,
    pub projects: ProjectTable,
}

/// A configuration as a mathematical value.
pub struct ConfigView {
    pub defaults: SettingsView,
    pub provision: Resources,
    pub provision_images: Seq<(Seq<char>, Resources)>,
    pub images: Seq<(Seq<char>, Resources)>,
    pub projects: Seq<(Seq<u8>, SettingsView)>,
}

impl View for Config {
    type V = ConfigView;

    open spec fn view(&self) -> ConfigView {
        ConfigView {
            defaults: self.defaults@,
            provision: self.provision.resources,
            provision_images: self.provision.images@,
            images: self.images@,
            projects: self.projects@,
        }
    }
}

/// Fully resolved CPUs and memory for provisioning the base image.
#[derive(Clone, Copy, Debug, PartialEq, Eq, Structural)]
pub struct ProvisionSettings {
    pub cpus: u32,
    pub memory: ByteSize,
}

/// A host directory shared into the guest.
#[derive(Debug)]
pub struct Mount {
    pub host: UnixPath,
    pub guest: UnixPath,
    pub read_only: bool,
}

/// A host directory shared into the guest, as a mathematical value.
pub struct MountView {
    pub host: Seq<u8>,
    pub guest: Seq<u8>,
    pub read_only: bool,
}

impl View for Mount {
    type V = MountView;

    open spec fn view(&self) -> MountView {
        MountView { host: self.host@, guest: self.guest@, read_only: self.read_only }
    }
}

impl Mount {
    /// `ro` or `rw`, as in mount options.
    pub fn mode(&self) -> (s: &'static str)
        ensures
            s@ == (if self.read_only {
                "ro"@
            } else {
                "rw"@
            }),
    {
        if self.read_only {
            "ro"
        } else {
            "rw"
        }
    }
}

/// The mounts' values.
pub open spec fn mount_views(v: Seq<Mount>) -> Seq<MountView> {
    Seq::new(v.len(), |i: int| v[i]@)
}

/// Fully resolved settings for one VM run.
#[derive(Debug)]
pub struct VmSettings {
    pub cpus: u32,
    pub memory: ByteSize,
    pub disk_size: ByteSize,
    /// The project mount first, then extra mounts in precedence order.
    /// Guest paths are normalized absolute UTF-8 paths without control
    /// characters or surrounding spaces.
    pub mounts: Vec<Mount>,
    pub expose_git: bool,
    /// `None` unless a layer chooses one: the VM keeps its image, and a new
    /// one is created from `default`.
    pub image: Option<ImageName>,
}

/// Fully resolved settings for one VM run, as a mathematical value.
pub struct VmView {
    pub cpus: u32,
    pub memory: ByteSize,
    pub disk_size: ByteSize,
    pub mounts: Seq<MountView>,
    pub expose_git: bool,
    pub image: Option<Seq<char>>,
}

impl View for VmSettings {
    type V = VmView;

    open spec fn view(&self) -> VmView {
        VmView {
            cpus: self.cpus,
            memory: self.memory,
            disk_size: self.disk_size,
            mounts: mount_views(self.mounts@),
            expose_git: self.expose_git,
            image: name_view(self.image),
        }
    }
}

/// The outcome of resolving something that depends on the host's files.
#[derive(Debug)]
pub enum Answer<T> {
    /// This path must be looked at first.
    Look(UnixPath),
    Fail(ConfigError),
    Done(T),
}

/// The outcome of resolving something, as a mathematical value.
pub enum Step<T> {
    Look(Seq<u8>),
    Fail(Fault),
    Done(T),
}

// ---------------------------------------------------------------------------
// What resolving means
// ---------------------------------------------------------------------------

/// The first value if there is one, else the second.
pub open spec fn pick<T>(first: Option<T>, second: T) -> T {
    match first {
        Some(v) => v,
        None => second,
    }
}

/// The first of two optional values that is there.
pub open spec fn either<T>(first: Option<T>, second: Option<T>) -> Option<T> {
    if first is Some {
        first
    } else {
        second
    }
}

/// The canonical form of a path, or the path itself if it has none.
pub open spec fn canonical(found: Found, path: Seq<u8>) -> Seq<u8> {
    match found {
        Found::Directory(p) => p,
        Found::Other(p) => p,
        Found::Failed(_) => path,
    }
}

/// The index of the project table for `root` among the tables from `from` on,
/// given the one found before, if any.
pub open spec fn table_for(
    es: Seq<(Seq<u8>, SettingsView)>,
    home: Seq<u8>,
    root: Seq<u8>,
    host: Seq<(Seq<u8>, Found)>,
    from: int,
    first: Option<int>,
) -> Step<Option<int>>
    decreases es.len() - from,
{
    if from >= es.len() {
        Step::Done(first)
    } else {
        let path = expanded(home, es[from].0);
        match found_at(host, path) {
            None => Step::Look(path),
            Some(found) => if same_path(canonical(found, path), root) {
                match first {
                    Some(a) => Step::Fail(
                        Fault::Ambiguous { first: es[a].0, second: es[from].0, root },
                    ),
                    None => table_for(es, home, root, host, from + 1, Some(from)),
                }
            } else {
                table_for(es, home, root, host, from + 1, first)
            },
        }
    }
}

/// Where the host path of `spec` leads, a relative one from `base`.
pub open spec fn host_path(home: Seq<u8>, spec: MountSpecView, base: Option<Seq<u8>>) -> Seq<u8> {
    let wanted = expanded(home, spec.host);
    if rooted(wanted) {
        wanted
    } else {
        join(base->0, wanted)
    }
}

/// The mount that `spec` describes. Relative host paths are resolved against
/// `base`, and refused without one. Without a guest path, the directory is
/// mounted below `/mnt` under the name that the host path ends in, or, where
/// it ends in `..`, under the directory's own name.
pub open spec fn mount_for(
    home: Seq<u8>,
    spec: MountSpecView,
    base: Option<Seq<u8>>,
    host: Seq<(Seq<u8>, Found)>,
) -> Step<MountView> {
    if !rooted(expanded(home, spec.host)) && base is None {
        Step::Fail(Fault::RelativeMount { host: spec.host })
    } else {
        let path = host_path(home, spec, base);
        match found_at(host, path) {
            None => Step::Look(path),
            Some(Found::Failed(reason)) => Step::Fail(
                Fault::MountUnresolved { host: path, reason },
            ),
            Some(Found::Other(found)) => Step::Fail(Fault::MountNotDirectory { host: found }),
            Some(Found::Directory(dir)) => match spec.guest {
                Some(guest) => Step::Done(
                    MountView { host: dir, guest: normal(guest), read_only: spec.read_only },
                ),
                None => match either(file_name(path), file_name(dir)) {
                    None => Step::Fail(Fault::MountNoName { host: dir }),
                    Some(name) => Step::Done(
                        MountView {
                            host: dir,
                            guest: join(encode_utf8("/mnt"@), name),
                            read_only: spec.read_only,
                        },
                    ),
                },
            },
        }
    }
}

/// The mounts `start` with those of the first `n` of `specs` behind them.
pub open spec fn with_mounts(
    start: Seq<MountView>,
    home: Seq<u8>,
    specs: Seq<MountSpecView>,
    base: Option<Seq<u8>>,
    host: Seq<(Seq<u8>, Found)>,
    n: nat,
) -> Step<Seq<MountView>>
    decreases n,
{
    if n == 0 {
        Step::Done(start)
    } else {
        match with_mounts(start, home, specs, base, host, (n - 1) as nat) {
            Step::Done(mounts) => match mount_for(home, specs[n - 1], base, host) {
                Step::Done(mount) => Step::Done(mounts.push(mount)),
                Step::Look(path) => Step::Look(path),
                Step::Fail(fault) => Step::Fail(fault),
            },
            other => other,
        }
    }
}

/// `mounts` with those of one more layer behind them.
pub open spec fn add_layer(
    mounts: Step<Seq<MountView>>,
    home: Seq<u8>,
    specs: Seq<MountSpecView>,
    base: Option<Seq<u8>>,
    host: Seq<(Seq<u8>, Found)>,
) -> Step<Seq<MountView>> {
    match mounts {
        Step::Done(start) => with_mounts(start, home, specs, base, host, specs.len()),
        other => other,
    }
}

/// Where the project directory appears in the guest.
pub open spec fn project_guest(root: Seq<u8>) -> Seq<u8> {
    join(encode_utf8(GUEST_HOME@), pick(file_name(root), encode_utf8("project"@)))
}

/// What is wrong with CPUs and memory on a host with `host_cpus` CPUs.
pub open spec fn resources_fault(cpus: u32, memory: ByteSize, host_cpus: u32) -> Option<Fault> {
    if !(1 <= cpus <= host_cpus) {
        Some(Fault::Cpus { host_cpus, cpus })
    } else if memory.0 < MIN_MEMORY {
        Some(Fault::MemoryTooSmall { memory })
    } else if memory.0 % MIB != 0 {
        Some(Fault::MemoryNotWhole { memory })
    } else {
        None
    }
}

/// A path below the root directory, with nothing but names behind the root.
pub open spec fn below_root(guest: Seq<u8>) -> bool {
    &&& rooted(guest)
    &&& components(guest).len() > 1
    &&& forall|i: int|
        0 <= i < components(guest).len() ==> (#[trigger] components(guest)[i] is Root
            || components(guest)[i] is Normal)
}

/// The first of the first `n` mounts that has the guest path `guest`.
pub open spec fn taken(mounts: Seq<MountView>, guest: Seq<u8>, n: nat) -> Option<int>
    decreases n,
{
    if n == 0 {
        None
    } else {
        match taken(mounts, guest, (n - 1) as nat) {
            Some(i) => Some(i),
            None => if same_path(mounts[n - 1].guest, guest) {
                Some(n - 1)
            } else {
                None
            },
        }
    }
}

/// What is wrong with mount `i`.
pub open spec fn mount_fault(mounts: Seq<MountView>, i: int) -> Option<Fault> {
    let host = mounts[i].host;
    let guest = mounts[i].guest;
    if !below_root(guest) {
        Some(Fault::GuestNotAbsolute { host, guest })
    } else if !valid_utf8(guest) {
        Some(Fault::GuestNotUtf8 { host, guest })
    } else if has_control(decode_utf8(guest)) || trim(decode_utf8(guest)) != decode_utf8(guest) {
        Some(Fault::GuestText { host, text: decode_utf8(guest) })
    } else {
        match taken(mounts, guest, i as nat) {
            Some(j) => Some(Fault::GuestTaken { first: mounts[j].host, second: host, guest }),
            None => None,
        }
    }
}

/// What is wrong with the first mount from `from` on that something is wrong
/// with.
pub open spec fn mounts_fault(mounts: Seq<MountView>, from: int) -> Option<Fault>
    decreases mounts.len() - from,
{
    if from >= mounts.len() {
        None
    } else {
        match mount_fault(mounts, from) {
            Some(fault) => Some(fault),
            None => mounts_fault(mounts, from + 1),
        }
    }
}

/// What is wrong with resolved settings.
pub open spec fn settings_fault(vm: VmView, host_cpus: u32) -> Option<Fault> {
    match resources_fault(vm.cpus, vm.memory, host_cpus) {
        Some(fault) => Some(fault),
        None => if vm.disk_size.0 < MIN_DISK_SIZE {
            Some(Fault::DiskTooSmall { disk_size: vm.disk_size })
        } else {
            mounts_fault(vm.mounts, 0)
        },
    }
}

/// The settings of project table `at`, or none.
pub open spec fn table_at(config: ConfigView, at: Option<int>) -> SettingsView {
    match at {
        Some(i) => config.projects[i].1,
        None => crate::settings::no_settings(),
    }
}

/// The image that the layers choose.
pub open spec fn chosen_image(
    config: ConfigView,
    table: SettingsView,
    cli: Option<Seq<char>>,
) -> Option<Seq<char>> {
    either(cli, either(table.image, config.defaults.image))
}

/// The image of a VM: the chosen one, else the one it was made from, else the
/// default one.
pub open spec fn image_of(chosen: Option<Seq<char>>, made_from: Option<Seq<char>>) -> Seq<char> {
    pick(either(chosen, made_from), "default"@)
}

/// The settings that the layers give, before they are checked.
pub open spec fn merged(
    config: ConfigView,
    table: SettingsView,
    cli: SettingsView,
    made_from: Option<Seq<char>>,
    mounts: Seq<MountView>,
) -> VmView {
    let image = chosen_image(config, table, cli.image);
    let resources = pick(
        value_of(config.images, image_of(image, made_from)),
        Resources { cpus: None, memory: None },
    );
    VmView {
        cpus: pick(
            cli.cpus,
            pick(table.cpus, pick(resources.cpus, pick(config.defaults.cpus, DEFAULT_CPUS))),
        ),
        memory: pick(
            cli.memory,
            pick(
                table.memory,
                pick(resources.memory, pick(config.defaults.memory, ByteSize(DEFAULT_MEMORY))),
            ),
        ),
        disk_size: pick(
            cli.disk_size,
            pick(table.disk_size, pick(config.defaults.disk_size, ByteSize(DEFAULT_DISK_SIZE))),
        ),
        mounts,
        expose_git: pick(
            cli.expose_git,
            pick(table.expose_git, pick(config.defaults.expose_git, false)),
        ),
        image,
    }
}

/// The mounts that the layers give: the project's, then those of the config
/// file, the project's table and the command line.
pub open spec fn merged_mounts(
    config: ConfigView,
    table: SettingsView,
    cli: SettingsView,
    home: Seq<u8>,
    root: Seq<u8>,
    cwd: Seq<u8>,
    host: Seq<(Seq<u8>, Found)>,
) -> Step<Seq<MountView>> {
    let project = MountView { host: root, guest: project_guest(root), read_only: false };
    let defaults = add_layer(
        Step::Done(seq![project]),
        home,
        config.defaults.mounts,
        None,
        host,
    );
    add_layer(
        add_layer(defaults, home, table.mounts, None, host),
        home,
        cli.mounts,
        Some(cwd),
        host,
    )
}

/// The effective settings for the project at `root`.
pub open spec fn resolved(
    config: ConfigView,
    home: Seq<u8>,
    root: Seq<u8>,
    cli: SettingsView,
    cwd: Seq<u8>,
    made_from: Option<Seq<char>>,
    host: Seq<(Seq<u8>, Found)>,
    host_cpus: u32,
) -> Step<VmView> {
    match table_for(config.projects, home, root, host, 0, None) {
        Step::Look(path) => Step::Look(path),
        Step::Fail(fault) => Step::Fail(fault),
        Step::Done(at) => {
            let table = table_at(config, at);
            match merged_mounts(config, table, cli, home, root, cwd, host) {
                Step::Look(path) => Step::Look(path),
                Step::Fail(fault) => Step::Fail(fault),
                Step::Done(mounts) => {
                    let vm = merged(config, table, cli, made_from, mounts);
                    match settings_fault(vm, host_cpus) {
                        Some(fault) => Step::Fail(fault),
                        None => Step::Done(vm),
                    }
                },
            }
        },
    }
}

// ---------------------------------------------------------------------------
// Resolving
// ---------------------------------------------------------------------------

/// The outcome's value, where the result is an index.
pub open spec fn index_step(a: Answer<Option<usize>>) -> Step<Option<int>> {
    match a {
        Answer::Look(path) => Step::Look(path@),
        Answer::Fail(error) => Step::Fail(error@),
        Answer::Done(Some(i)) => Step::Done(Some(i as int)),
        Answer::Done(None) => Step::Done(None),
    }
}

/// The outcome's value, where the result is a mount.
pub open spec fn mount_step(a: Answer<Mount>) -> Step<MountView> {
    match a {
        Answer::Look(path) => Step::Look(path@),
        Answer::Fail(error) => Step::Fail(error@),
        Answer::Done(mount) => Step::Done(mount@),
    }
}

/// The outcome's value, where the result is a list of mounts.
pub open spec fn mounts_step(a: Answer<Vec<Mount>>) -> Step<Seq<MountView>> {
    match a {
        Answer::Look(path) => Step::Look(path@),
        Answer::Fail(error) => Step::Fail(error@),
        Answer::Done(mounts) => Step::Done(mount_views(mounts@)),
    }
}

/// The outcome's value, where the result is the settings of a VM.
pub open spec fn vm_step(a: Answer<VmSettings>) -> Step<VmView> {
    match a {
        Answer::Look(path) => Step::Look(path@),
        Answer::Fail(error) => Step::Fail(error@),
        Answer::Done(vm) => Step::Done(vm@),
    }
}

/// The outcome's value, where the result is the name of an image, if any.
pub open spec fn name_step(a: Answer<Option<ImageName>>) -> Step<Option<Seq<char>>> {
    match a {
        Answer::Look(path) => Step::Look(path@),
        Answer::Fail(error) => Step::Fail(error@),
        Answer::Done(name) => Step::Done(name_view(name)),
    }
}

/// The path that is given, if any.
pub open spec fn path_view(path: Option<&UnixPath>) -> Option<Seq<u8>> {
    match path {
        Some(path) => Some(path@),
        None => None,
    }
}

/// The name that is given, if any.
pub open spec fn name_ref_view(name: Option<&ImageName>) -> Option<Seq<char>> {
    match name {
        Some(name) => Some(name@),
        None => None,
    }
}

/// The mount that `spec` describes, given what the host found.
pub fn resolve_mount(
    paths: &Paths,
    spec: &MountSpec,
    base: Option<&UnixPath>,
    host: &HostPaths,
) -> (r: Answer<Mount>)
    ensures
        mount_step(r) == mount_for(paths@, spec@, path_view(base), host@),
{
    let wanted = paths.expand_tilde(&spec.host);
    let path = if wanted.is_absolute() {
        wanted
    } else {
        match base {
            Some(base) => base.join(&wanted),
            None => {
                return Answer::Fail(ConfigError::RelativeMount { host: spec.host.clone() });
            },
        }
    };
    let found = match host.get(&path) {
        None => {
            return Answer::Look(path);
        },
        Some(found) => found,
    };
    match found {
        Lookup::Failed(reason) => Answer::Fail(
            ConfigError::MountUnresolved { host: path, reason: reason.clone() },
        ),
        Lookup::Other(found) => Answer::Fail(
            ConfigError::MountNotDirectory { host: found.clone() },
        ),
        Lookup::Directory(dir) => match &spec.guest {
            // Normalized, e.g. without a trailing slash, which would hide a
            // symlink from the guest's check for them (`[ -L dir/ ]`).
            Some(guest) => Answer::Done(
                Mount { host: dir.clone(), guest: guest.normalized(), read_only: spec.read_only },
            ),
            None => {
                // The name as written: that of a symlink, not of its target.
                let name = match path.file_name() {
                    Some(name) => Some(name),
                    None => dir.file_name(),
                };
                match name {
                    None => Answer::Fail(ConfigError::MountNoName { host: dir.clone() }),
                    Some(name) => {
                        let guest = UnixPath::from_text("/mnt").join(&UnixPath { bytes: name });
                        Answer::Done(Mount { host: dir.clone(), guest, read_only: spec.read_only })
                    },
                }
            },
        },
    }
}

/// The mounts `start` with those of one more layer behind them.
fn add_mounts(
    start: Vec<Mount>,
    paths: &Paths,
    specs: &Vec<MountSpec>,
    base: Option<&UnixPath>,
    host: &HostPaths,
) -> (r: Answer<Vec<Mount>>)
    ensures
        mounts_step(r) == add_layer(
            Step::Done(mount_views(start@)),
            paths@,
            mount_specs(specs@),
            path_view(base),
            host@,
        ),
{
    let ghost first = mount_views(start@);
    let ghost list = mount_specs(specs@);
    let mut mounts = start;
    let mut i: usize = 0;
    while i < specs.len()
        invariant
            i <= specs@.len(),
            list == mount_specs(specs@),
            first == mount_views(start@),
            with_mounts(first, paths@, list, path_view(base), host@, i as nat) == Step::Done(
                mount_views(mounts@),
            ),
        decreases specs.len() - i,
    {
        let ghost before = mount_views(mounts@);
        assert(list[i as int] == specs@[i as int]@);
        match resolve_mount(paths, &specs[i], base, host) {
            Answer::Done(mount) => {
                mounts.push(mount);
                assert(mount_views(mounts@) == before.push(mount@));
            },
            Answer::Look(path) => {
                proof {
                    lemma_stopped(first, paths@, list, path_view(base), host@, (i + 1) as nat, list.len());
                }
                return Answer::Look(path);
            },
            Answer::Fail(error) => {
                proof {
                    lemma_stopped(first, paths@, list, path_view(base), host@, (i + 1) as nat, list.len());
                }
                return Answer::Fail(error);
            },
        }
        i += 1;
    }
    Answer::Done(mounts)
}

/// Once a mount is missing something, later ones change nothing.
proof fn lemma_stopped(
    start: Seq<MountView>,
    home: Seq<u8>,
    specs: Seq<MountSpecView>,
    base: Option<Seq<u8>>,
    host: Seq<(Seq<u8>, Found)>,
    n: nat,
    m: nat,
)
    requires
        n <= m,
        with_mounts(start, home, specs, base, host, n) !is Done,
    ensures
        with_mounts(start, home, specs, base, host, m) == with_mounts(
            start,
            home,
            specs,
            base,
            host,
            n,
        ),
    decreases m - n,
{
    if n < m {
        lemma_stopped(start, home, specs, base, host, n, (m - 1) as nat);
    }
}

/// Where the project directory appears in the guest.
pub fn project_guest_path(project: &Project) -> (p: UnixPath)
    ensures
        p@ == project_guest(project.root@),
{
    let name = match project.root.file_name() {
        Some(name) => UnixPath { bytes: name },
        None => UnixPath::from_text("project"),
    };
    UnixPath::from_text(GUEST_HOME).join(&name)
}

/// Checks CPUs and memory on a host with `host_cpus` CPUs.
pub fn validate_resources(cpus: u32, memory: ByteSize, host_cpus: u32) -> (r: Result<
    (),
    ConfigError,
>)
    ensures
        match resources_fault(cpus, memory, host_cpus) {
            None => r is Ok,
            Some(fault) => r is Err && r->Err_0@ == fault,
        },
{
    if cpus < 1 || cpus > host_cpus {
        Err(ConfigError::Cpus { host_cpus, cpus })
    } else if memory.0 < MIN_MEMORY {
        Err(ConfigError::MemoryTooSmall { memory })
    } else if memory.0 % MIB != 0 {
        Err(ConfigError::MemoryNotWhole { memory })
    } else {
        Ok(())
    }
}

/// Whether `guest` is a path below the root directory.
fn is_below_root(guest: &UnixPath) -> (r: bool)
    ensures
        r == below_root(guest@),
{
    let v = guest.components();
    if !guest.is_absolute() || v.len() <= 1 {
        return false;
    }
    let ghost c = components(guest@);
    let mut i: usize = 0;
    while i < v.len()
        invariant
            i <= v@.len(),
            c == crate::path::parts(v@),
            c == components(guest@),
            forall|j: int| 0 <= j < i ==> (#[trigger] c[j] is Root || c[j] is Normal),
        decreases v.len() - i,
    {
        assert(c[i as int] == v@[i as int]@);
        match &v[i] {
            Component::RootDir => {},
            Component::Normal(_) => {},
            _ => {
                assert(!(c[i as int] is Root || c[i as int] is Normal));
                return false;
            },
        }
        i += 1;
    }
    true
}

/// The first of the first `n` mounts that has the guest path `guest`.
fn first_taken(mounts: &Vec<Mount>, guest: &UnixPath, n: usize) -> (r: Option<usize>)
    requires
        n <= mounts@.len(),
    ensures
        match taken(mount_views(mounts@), guest@, n as nat) {
            Some(i) => r is Some && r->0 == i && 0 <= i < n,
            None => r is None,
        },
{
    let ghost all = mount_views(mounts@);
    let mut i: usize = 0;
    while i < n
        invariant
            i <= n <= mounts@.len(),
            all == mount_views(mounts@),
            taken(all, guest@, i as nat) is None,
        decreases n - i,
    {
        assert(all[i as int].guest == mounts@[i as int].guest@);
        if mounts[i].guest.same(guest) {
            proof {
                lemma_taken_stays(all, guest@, (i + 1) as nat, n as nat);
            }
            return Some(i);
        }
        i += 1;
    }
    None
}

/// A mount that is found stays the first one found.
proof fn lemma_taken_stays(mounts: Seq<MountView>, guest: Seq<u8>, n: nat, m: nat)
    requires
        n <= m,
        taken(mounts, guest, n) is Some,
    ensures
        taken(mounts, guest, m) == taken(mounts, guest, n),
    decreases m - n,
{
    if n < m {
        lemma_taken_stays(mounts, guest, n, (m - 1) as nat);
    }
}

impl VmSettings {
    /// The project directory's mount.
    pub fn project(&self) -> (m: &Mount)
        requires
            self@.mounts.len() > 0,
        ensures
            m@ == self@.mounts[0],
    {
        &self.mounts[0]
    }

    /// Checks mount `i` against the rules for guest paths and the mounts
    /// before it.
    fn validate_mount(&self, i: usize) -> (r: Result<(), ConfigError>)
        requires
            i < self@.mounts.len(),
        ensures
            match mount_fault(self@.mounts, i as int) {
                None => r is Ok,
                Some(fault) => r is Err && r->Err_0@ == fault,
            },
    {
        let mount = &self.mounts[i];
        let ghost all = self@.mounts;
        assert(all[i as int] == mount@);
        if !is_below_root(&mount.guest) {
            return Err(
                ConfigError::GuestNotAbsolute {
                    host: mount.host.clone(),
                    guest: mount.guest.clone(),
                },
            );
        }
        // The guest reads guest paths from a line-based manifest.
        let text = match utf8_text(mount.guest.bytes.as_slice()) {
            None => {
                return Err(
                    ConfigError::GuestNotUtf8 {
                        host: mount.host.clone(),
                        guest: mount.guest.clone(),
                    },
                );
            },
            Some(text) => text,
        };
        let chars = chars_of(text.as_str());
        if contains_control(chars.as_slice()) || !same_chars(
            trimmed(chars.as_slice()).as_slice(),
            chars.as_slice(),
        ) {
            return Err(ConfigError::GuestText { host: mount.host.clone(), text });
        }
        match first_taken(&self.mounts, &mount.guest, i) {
            Some(j) => {
                assert(all[j as int] == self.mounts@[j as int]@);
                Err(
                    ConfigError::GuestTaken {
                        first: self.mounts[j].host.clone(),
                        second: mount.host.clone(),
                        guest: mount.guest.clone(),
                    },
                )
            },
            None => Ok(()),
        }
    }

    /// Checks the settings on a host with `host_cpus` CPUs.
    pub fn validate(&self, host_cpus: u32) -> (r: Result<(), ConfigError>)
        ensures
            match settings_fault(self@, host_cpus) {
                None => r is Ok,
                Some(fault) => r is Err && r->Err_0@ == fault,
            },
    {
        match validate_resources(self.cpus, self.memory, host_cpus) {
            Err(error) => {
                return Err(error);
            },
            Ok(()) => {},
        }
        if self.disk_size.0 < MIN_DISK_SIZE {
            return Err(ConfigError::DiskTooSmall { disk_size: self.disk_size });
        }
        let ghost all = self@.mounts;
        let mut i: usize = 0;
        while i < self.mounts.len()
            invariant
                i <= self.mounts@.len(),
                all == self@.mounts,
                settings_fault(self@, host_cpus) == mounts_fault(all, i as int),
            decreases self.mounts.len() - i,
        {
            match self.validate_mount(i) {
                Err(error) => {
                    return Err(error);
                },
                Ok(()) => {},
            }
            i += 1;
        }
        Ok(())
    }
}

/// The image of a VM: the chosen one, else the one it was made from, else the
/// default one.
pub fn vm_image(chosen: Option<&ImageName>, made_from: Option<&ImageName>) -> (name: ImageName)
    ensures
        name@ == image_of(name_ref_view(chosen), name_ref_view(made_from)),
{
    match chosen {
        Some(name) => name.clone(),
        None => match made_from {
            Some(name) => name.clone(),
            None => ImageName::default(),
        },
    }
}

impl Default for Config {
    fn default() -> (c: Self)
        ensures
            c@ == (ConfigView {
                defaults: crate::settings::no_settings(),
                provision: Resources { cpus: None, memory: None },
                provision_images: Seq::empty(),
                images: Seq::empty(),
                projects: Seq::empty(),
            }),
    {
        Config {
            defaults: Settings::default(),
            provision: Provision { resources: Resources::default(), images: NameTable::new() },
            images: NameTable::new(),
            projects: ProjectTable::new(),
        }
    }
}

impl Config {
    /// The config file's contents, or the empty config if it doesn't exist.
    pub fn load(file: Option<Config>) -> (c: Self)
        ensures
            file is Some ==> c == file->0,
            file is None ==> c@ == (ConfigView {
                defaults: crate::settings::no_settings(),
                provision: Resources { cpus: None, memory: None },
                provision_images: Seq::empty(),
                images: Seq::empty(),
                projects: Seq::empty(),
            }),
    {
        match file {
            Some(config) => config,
            None => Config::default(),
        }
    }

    /// The index of the `[projects."<path>"]` table matching `project`, if
    /// any. It is an error for several tables to match, e.g. `~/app` and
    /// `/Users/me/app`.
    pub fn project_settings(&self, paths: &Paths, project: &Project, host: &HostPaths) -> (r: Answer<
        Option<usize>,
    >)
        ensures
            index_step(r) == table_for(self@.projects, paths@, project.root@, host@, 0, None),
            r is Done && r->Done_0 is Some ==> r->Done_0->0 < self@.projects.len(),
    {
        let ghost es = self@.projects;
        let mut first: Option<usize> = None;
        let mut i: usize = 0;
        let ghost mut seen: Option<int> = None;
        while i < self.projects.len()
            invariant
                i <= es.len(),
                es == self@.projects,
                first is Some <==> seen is Some,
                first is Some ==> first->0 == seen->0 && first->0 < es.len(),
                table_for(es, paths@, project.root@, host@, 0, None) == table_for(
                    es,
                    paths@,
                    project.root@,
                    host@,
                    i as int,
                    seen,
                ),
            decreases es.len() - i,
        {
            let path = paths.expand_tilde(self.projects.path(i));
            let found = match host.get(&path) {
                None => {
                    return Answer::Look(path);
                },
                Some(found) => found,
            };
            let same = match found {
                Lookup::Directory(p) => p.same(&project.root),
                Lookup::Other(p) => p.same(&project.root),
                Lookup::Failed(_) => path.same(&project.root),
            };
            if same {
                match first {
                    Some(a) => {
                        return Answer::Fail(
                            ConfigError::Ambiguous {
                                first: self.projects.path(a).clone(),
                                second: self.projects.path(i).clone(),
                                root: project.root.clone(),
                            },
                        );
                    },
                    None => {
                        first = Some(i);
                        proof {
                            seen = Some(i as int);
                        }
                    },
                }
            }
            i += 1;
        }
        Answer::Done(first)
    }

    /// The image that the layers choose: the flag's, else the project's, else
    /// the top-level one.
    fn choose_image(&self, at: Option<usize>, cli: Option<&ImageName>) -> (r: Option<ImageName>)
        requires
            at is Some ==> at->0 < self@.projects.len(),
        ensures
            name_view(r) == chosen_image(
                self@,
                table_at(
                    self@,
                    match at {
                        Some(i) => Some(i as int),
                        None => None,
                    },
                ),
                name_ref_view(cli),
            ),
    {
        match cli {
            Some(name) => {
                return Some(name.clone());
            },
            None => {},
        }
        match at {
            Some(i) => match &self.projects.settings(i).image {
                Some(name) => {
                    return Some(name.clone());
                },
                None => {},
            },
            None => {},
        }
        clone_name(&self.defaults.image)
    }

    /// Merges all layers for `project`, given what the host found. Relative
    /// mount paths given on the command line are resolved against `cwd`; in
    /// the config file they must be absolute or start with `~`. `made_from` is
    /// the image that the project's VM was made from, if it has one.
    pub fn resolve(
        &self,
        paths: &Paths,
        project: &Project,
        cli: &Settings,
        cwd: &UnixPath,
        made_from: Option<&ImageName>,
        host: &HostPaths,
        host_cpus: u32,
    ) -> (r: Answer<VmSettings>)
        ensures
            vm_step(r) == resolved(
                self@,
                paths@,
                project.root@,
                cli@,
                cwd@,
                name_ref_view(made_from),
                host@,
                host_cpus,
            ),
    {
        let at = match self.project_settings(paths, project, host) {
            Answer::Look(path) => {
                return Answer::Look(path);
            },
            Answer::Fail(error) => {
                return Answer::Fail(error);
            },
            Answer::Done(at) => at,
        };
        let none = Settings::default();
        let table: &Settings = match at {
            Some(i) => self.projects.settings(i),
            None => &none,
        };
        let ghost tv = table_at(
            self@,
            match at {
                Some(i) => Some(i as int),
                None => None,
            },
        );
        assert(table@ == tv);
        let chosen = self.choose_image(at, cli.image.as_ref());
        // The chosen image, else the one the VM was made from. `run` refuses
        // to start a VM when the two differ.
        let image = vm_image(chosen.as_ref(), made_from);
        let resources = match self.images.get(&image) {
            Some(resources) => *resources,
            None => Resources::default(),
        };

        let mut start: Vec<Mount> = Vec::new();
        start.push(
            Mount {
                host: project.root.clone(),
                guest: project_guest_path(project),
                read_only: false,
            },
        );
        assert(mount_views(start@) == seq![
            MountView {
                host: project.root@,
                guest: project_guest(project.root@),
                read_only: false,
            },
        ]);
        let first = match add_mounts(start, paths, &self.defaults.mounts, None, host) {
            Answer::Look(path) => {
                return Answer::Look(path);
            },
            Answer::Fail(error) => {
                return Answer::Fail(error);
            },
            Answer::Done(mounts) => mounts,
        };
        let second = match add_mounts(first, paths, &table.mounts, None, host) {
            Answer::Look(path) => {
                return Answer::Look(path);
            },
            Answer::Fail(error) => {
                return Answer::Fail(error);
            },
            Answer::Done(mounts) => mounts,
        };
        let mounts = match add_mounts(second, paths, &cli.mounts, Some(cwd), host) {
            Answer::Look(path) => {
                return Answer::Look(path);
            },
            Answer::Fail(error) => {
                return Answer::Fail(error);
            },
            Answer::Done(mounts) => mounts,
        };

        let cpus = cli.cpus.unwrap_or(
            table.cpus.unwrap_or(
                resources.cpus.unwrap_or(self.defaults.cpus.unwrap_or(DEFAULT_CPUS)),
            ),
        );
        let memory = cli.memory.unwrap_or(
            table.memory.unwrap_or(
                resources.memory.unwrap_or(self.defaults.memory.unwrap_or(ByteSize(DEFAULT_MEMORY))),
            ),
        );
        let disk_size = cli.disk_size.unwrap_or(
            table.disk_size.unwrap_or(
                self.defaults.disk_size.unwrap_or(ByteSize(DEFAULT_DISK_SIZE)),
            ),
        );
        let expose_git = cli.expose_git.unwrap_or(
            table.expose_git.unwrap_or(self.defaults.expose_git.unwrap_or(false)),
        );
        let settings = VmSettings { cpus, memory, disk_size, mounts, expose_git, image: chosen };
        assert(settings@ == merged(
            self@,
            tv,
            cli@,
            name_ref_view(made_from),
            mount_views(settings.mounts@),
        ));
        match settings.validate(host_cpus) {
            Ok(()) => Answer::Done(settings),
            Err(error) => Answer::Fail(error),
        }
    }

    /// The image the config file chooses for `project`, if any, without
    /// resolving (and validating) the other settings.
    pub fn resolve_image(&self, paths: &Paths, project: &Project, host: &HostPaths) -> (r: Answer<
        Option<ImageName>,
    >)
        ensures
            name_step(r) == resolved_image(self@, paths@, project.root@, host@),
    {
        match self.project_settings(paths, project, host) {
            Answer::Look(path) => Answer::Look(path),
            Answer::Fail(error) => Answer::Fail(error),
            Answer::Done(at) => Answer::Done(self.choose_image(at, None)),
        }
    }
}

/// The image that the config file chooses for the project at `root`.
pub open spec fn resolved_image(
    config: ConfigView,
    home: Seq<u8>,
    root: Seq<u8>,
    host: Seq<(Seq<u8>, Found)>,
) -> Step<Option<Seq<char>>> {
    match table_for(config.projects, home, root, host, 0, None) {
        Step::Look(path) => Step::Look(path),
        Step::Fail(fault) => Step::Fail(fault),
        Step::Done(at) => Step::Done(chosen_image(config, table_at(config, at), None)),
    }
}

} // verus!
