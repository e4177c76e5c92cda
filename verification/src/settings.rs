//! Layers of settings, and the tables of the configuration file.
use vstd::prelude::*;

use crate::mount_spec::{MountSpec, MountSpecView};
use crate::order::Rank;
use crate::path::{part_less, path_less, UnixPath};
use crate::paths::ImageName;
use crate::size::ByteSize;
use crate::table::{increasing, lemma_put_at, lemma_put_increasing, put, slot};

verus! {

/// One layer of optional settings (config file section or CLI flags).
#[derive(Debug)]
pub struct Settings {
    pub cpus: Option<u32>,
    pub memory: Option<ByteSize>,
    pub disk_size: Option<ByteSize>,
    pub mounts: Vec<MountSpec>,
    pub expose_git: Option<bool>,
    /// The base image a new VM is created from, and the one an existing VM
    /// must have been created from.
    pub image: Option<ImageName>,
}

/// One layer of optional settings, as a mathematical value.
pub struct SettingsView {
    pub cpus: Option<u32>,
    pub memory: Option<ByteSize>,
    pub disk_size: Option<ByteSize>,
    pub mounts: Seq<MountSpecView>,
    pub expose_git: Option<bool>,
    pub image: Option<Seq<char>>,
}

/// The mounts' values.
pub open spec fn mount_specs(v: Seq<MountSpec>) -> Seq<MountSpecView> {
    Seq::new(v.len(), |i: int| v[i]@)
}

/// The name that is given, if any.
pub open spec fn name_view(name: Option<ImageName>) -> Option<Seq<char>> {
    match name {
        Some(name) => Some(name@),
        None => None,
    }
}

impl View for Settings {
    type V = SettingsView;

    open spec fn view(&self) -> SettingsView {
        SettingsView {
            cpus: self.cpus,
            memory: self.memory,
            disk_size: self.disk_size,
            mounts: mount_specs(self.mounts@),
            expose_git: self.expose_git,
            image: name_view(self.image),
        }
    }
}

/// A layer that sets nothing.
pub open spec fn no_settings() -> SettingsView {
    SettingsView {
        cpus: None,
        memory: None,
        disk_size: None,
        mounts: Seq::empty(),
        expose_git: None,
        image: None,
    }
}

impl Default for Settings {
    fn default() -> (r: Self)
        ensures
            r@ == no_settings(),
    {
        let mounts: Vec<MountSpec> = Vec::new();
        assert(mount_specs(mounts@) == Seq::<MountSpecView>::empty());
        Settings { cpus: None, memory: None, disk_size: None, mounts, expose_git: None, image: None }
    }
}

/// A copy of the name that is given, if any.
pub fn clone_name(name: &Option<ImageName>) -> (r: Option<ImageName>)
    ensures
        name_view(r) == name_view(*name),
{
    match name {
        Some(name) => Some(name.clone()),
        None => None,
    }
}

/// A copy of the mounts.
pub fn clone_mounts(mounts: &Vec<MountSpec>) -> (r: Vec<MountSpec>)
    ensures
        mount_specs(r@) == mount_specs(mounts@),
{
    let mut r: Vec<MountSpec> = Vec::new();
    let mut i: usize = 0;
    while i < mounts.len()
        invariant
            i <= mounts@.len(),
            mount_specs(r@) == mount_specs(mounts@).take(i as int),
        decreases mounts.len() - i,
    {
        let ghost before = mount_specs(r@);
        r.push(mounts[i].clone());
        assert(mount_specs(r@) == before.push(mounts@[i as int]@));
        assert(mount_specs(mounts@).take(i + 1) == mount_specs(mounts@).take(i as int).push(
            mounts@[i as int]@,
        ));
        i += 1;
    }
    assert(mount_specs(mounts@).take(i as int) == mount_specs(mounts@));
    r
}

impl Clone for Settings {
    fn clone(&self) -> (r: Self)
        ensures
            r@ == self@,
    {
        Settings {
            cpus: self.cpus,
            memory: self.memory,
            disk_size: self.disk_size,
            mounts: clone_mounts(&self.mounts),
            expose_git: self.expose_git,
            image: clone_name(&self.image),
        }
    }
}

/// Optional CPUs and memory: the `[images.<name>]` and `[provision.<name>]`
/// tables, or the flags that `run` and `provision` share.
#[derive(Clone, Copy, Debug, PartialEq, Eq, Structural)]
pub struct Resources {
    /// Number of virtual CPUs
    pub cpus: Option<u32>,
    /// Memory size, e.g. 4G or 512M
    pub memory: Option<ByteSize>,
}

impl Default for Resources {
    fn default() -> (r: Self)
        ensures
            r == (Resources { cpus: None, memory: None }),
    {
        Resources { cpus: None, memory: None }
    }
}

// ---------------------------------------------------------------------------
// Tables by project directory
// ---------------------------------------------------------------------------

/// The `[projects."<path>"]` tables, in path order.
#[derive(Debug)]
pub struct ProjectTable {
    entries: Vec<(UnixPath, Settings)>,
}

/// The order of paths.
pub open spec fn by_path() -> spec_fn(Seq<u8>, Seq<u8>) -> bool {
    |a: Seq<u8>, b: Seq<u8>| path_less(a, b)
}

/// The entries of a table by path.
pub open spec fn path_entries(es: Seq<(UnixPath, Settings)>) -> Seq<(Seq<u8>, SettingsView)> {
    Seq::new(es.len(), |i: int| (es[i].0@, es[i].1@))
}

impl View for ProjectTable {
    type V = Seq<(Seq<u8>, SettingsView)>;

    /// The entries in order.
    closed spec fn view(&self) -> Seq<(Seq<u8>, SettingsView)> {
        path_entries(self.entries@)
    }
}

proof fn lemma_path_order()
    ensures
        forall|x: Seq<u8>, y: Seq<u8>, z: Seq<u8>| #[trigger]
            by_path()(x, y) && #[trigger] by_path()(y, z) ==> by_path()(x, z),
        forall|x: Seq<u8>, y: Seq<u8>| #[trigger] by_path()(x, y) ==> !by_path()(y, x),
{
    crate::path::lemma_part_order();
    let less = by_path();
    assert forall|x: Seq<u8>, y: Seq<u8>, z: Seq<u8>| #[trigger]
        less(x, y) && #[trigger] less(y, z) implies less(x, z) by {
        crate::order::lemma_lex_transitive(
            crate::path::components(x),
            crate::path::components(y),
            crate::path::components(z),
            part_less(),
        );
    }
    assert forall|x: Seq<u8>, y: Seq<u8>| #[trigger] less(x, y) implies !less(y, x) by {
        crate::order::lemma_lex_total(
            crate::path::components(x),
            crate::path::components(y),
            part_less(),
        );
    }
}

/// The slot of `path`, and whether it is taken.
fn place(entries: &Vec<(UnixPath, Settings)>, path: &UnixPath) -> (r: (usize, bool))
    ensures
        slot(path_entries(entries@), path@, by_path(), r.0 as int),
        r.1 ==> r.0 < entries@.len() && !path_less(path@, entries@[r.0 as int].0@),
        !r.1 && r.0 < entries@.len() ==> path_less(path@, entries@[r.0 as int].0@),
{
    let ghost es = path_entries(entries@);
    let ghost less = by_path();
    let mut at: usize = 0;
    while at < entries.len()
        invariant
            at <= entries@.len(),
            es == path_entries(entries@),
            less == by_path(),
            forall|i: int| 0 <= i < at ==> less(#[trigger] es[i].0, path@),
        decreases entries.len() - at,
    {
        match entries[at].0.rank(path) {
            Rank::Before => {
                assert(less(es[at as int].0, path@));
            },
            Rank::Same => {
                proof {
                    crate::path::lemma_part_order();
                    crate::order::lemma_lex_total(
                        crate::path::components(es[at as int].0),
                        crate::path::components(path@),
                        part_less(),
                    );
                    crate::order::lemma_lex_total(
                        crate::path::components(path@),
                        crate::path::components(es[at as int].0),
                        part_less(),
                    );
                }
                return (at, true);
            },
            Rank::After => {
                proof {
                    lemma_path_order();
                    assert(less(path@, es[at as int].0));
                }
                return (at, false);
            },
        }
        at += 1;
    }
    (at, false)
}

impl ProjectTable {
    #[verifier::type_invariant]
    spec fn ordered(&self) -> bool {
        increasing(path_entries(self.entries@), by_path())
    }

    /// A table without entries.
    pub fn new() -> (t: Self)
        ensures
            t@ == Seq::<(Seq<u8>, SettingsView)>::empty(),
    {
        let t = ProjectTable { entries: Vec::new() };
        assert(path_entries(t.entries@) == Seq::<(Seq<u8>, SettingsView)>::empty());
        t
    }

    /// The number of entries. They are in order, each path once.
    pub fn len(&self) -> (n: usize)
        ensures
            n == self@.len(),
            increasing(self@, by_path()),
    {
        proof {
            use_type_invariant(self);
        }
        self.entries.len()
    }

    /// The path of entry `i`.
    pub fn path(&self, i: usize) -> (p: &UnixPath)
        requires
            i < self@.len(),
        ensures
            p@ == self@[i as int].0,
    {
        &self.entries[i].0
    }

    /// The settings of entry `i`.
    pub fn settings(&self, i: usize) -> (s: &Settings)
        requires
            i < self@.len(),
        ensures
            s@ == self@[i as int].1,
    {
        &self.entries[i].1
    }

    /// The table with the settings for `path` set to `settings`. A path that
    /// is written differently but has the same components keeps its place
    /// and spelling.
    pub fn with(self, path: UnixPath, settings: Settings) -> (t: Self)
        ensures
            t@ == put(self@, path@, settings@, by_path()),
    {
        proof {
            use_type_invariant(&self);
            lemma_path_order();
        }
        let ghost es = self@;
        let ghost less = by_path();
        let mut entries = self.entries;
        let (at, found) = place(&entries, &path);
        proof {
            lemma_put_at(es, path@, settings@, less, at as int);
            lemma_put_increasing(es, path@, settings@, less, at as int);
        }
        let ghost key = path@;
        let ghost value = settings@;
        if found {
            let (kept, _) = entries.remove(at);
            entries.insert(at, (kept, settings));
            assert(path_entries(entries@) == es.update(at as int, (es[at as int].0, value)));
        } else {
            entries.insert(at, (path, settings));
            assert(path_entries(entries@) == es.insert(at as int, (key, value)));
        }
        ProjectTable { entries }
    }
}

} // verus!
