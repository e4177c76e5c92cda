//! Per-project VMs, created from a base image on first `run`.
//!
//! A project VM's disk and EFI variables are clones of the base image's. The
//! machine identifier and MAC address are not copied: new ones are generated
//! on first boot and saved, so every VM has its own. The VM is built in
//! `.<id>.partial/` and only renamed into place once complete.
use vstd::prelude::*;
use vstd::string::*;
use vstd::utf8::*;

use crate::config::VmSettings;
use crate::foreign::text_of;
use crate::mounts::Share;
use crate::number::{dec, decimal};
use crate::path::{components, join, same_path, Part, UnixPath};
use crate::path_laws::lemma_join_one;
use crate::paths::{
    below, id_char, lemma_id_is_name, lemma_vms_dir, safe_id, shown, vms_dir_of, ImageName, Paths,
    Project,
};
use crate::provision::{revision_of, BASE_REVISION};
use crate::size::{size_text, ByteSize};
use crate::vm::{VmDir, VmSpec};

verus! {

/// Whether a VM is running.
#[derive(Clone, Copy, Debug, PartialEq, Eq, Structural)]
pub enum State {
    Stopped,
    /// In the process with this ID.
    Running(u32),
}

/// What is recorded of a project VM when it is created.
#[derive(Debug)]
pub struct Metadata {
    pub project_path: UnixPath,
    /// The revision of the base image that it was cloned from.
    pub base_revision: Option<u32>,
    /// The image that it was made from.
    pub image: ImageName,
}

/// What is recorded of a project VM, as a mathematical value.
pub struct MetadataView {
    pub project_path: Seq<u8>,
    pub base_revision: Option<u32>,
    pub image: Seq<char>,
}

impl View for Metadata {
    type V = MetadataView;

    open spec fn view(&self) -> MetadataView {
        MetadataView {
            project_path: self.project_path@,
            base_revision: self.base_revision,
            image: self.image@,
        }
    }
}

/// The value of what is recorded, if anything is.
pub open spec fn metadata_view(m: Option<Metadata>) -> Option<MetadataView> {
    match m {
        Some(m) => Some(m@),
        None => None,
    }
}

/// Whether a VM was made from a base image that is too old to run.
pub open spec fn is_outdated(m: MetadataView) -> bool {
    revision_of(m.base_revision) < BASE_REVISION
}

impl Metadata {
    /// What is recorded of a new VM.
    pub fn new(project: &Project, image: &ImageName) -> (m: Self)
        ensures
            m@ == (MetadataView {
                project_path: project.root@,
                base_revision: Some(BASE_REVISION),
                image: image@,
            }),
            !is_outdated(m@),
    {
        Metadata {
            project_path: project.root.clone(),
            base_revision: Some(BASE_REVISION),
            image: image.clone(),
        }
    }

    /// Whether the VM was made from a base image that is too old to run.
    pub fn outdated(&self) -> (r: bool)
        ensures
            r == is_outdated(self@),
    {
        crate::provision::base_revision(self.base_revision) < BASE_REVISION
    }
}

/// What is written down of a project VM when it is created.
#[derive(Debug)]
pub struct Record {
    pub metadata: Metadata,
    /// The version that created it.
    pub send_it_version: String,
    pub created_at_unix: u64,
}

impl Record {
    /// The record of a new VM of `project`, made from `image` at the time
    /// `now`, by the given version.
    pub fn new(project: &Project, image: &ImageName, version: &str, now: u64) -> (r: Self)
        ensures
            r.metadata@ == (MetadataView {
                project_path: project.root@,
                base_revision: Some(BASE_REVISION),
                image: image@,
            }),
            !is_outdated(r.metadata@),
            r.send_it_version@ == version@,
            r.created_at_unix == now,
    {
        Record {
            metadata: Metadata::new(project, image),
            send_it_version: version.to_owned(),
            created_at_unix: now,
        }
    }
}

/// The directory of a project's VM.
pub open spec fn vm_dir_of(home: Seq<u8>, id: Seq<char>) -> Seq<u8> {
    join(vms_dir_of(home), encode_utf8(id))
}

/// The directory where a project's VM is built.
pub open spec fn partial_dir_of(home: Seq<u8>, id: Seq<char>) -> Seq<u8> {
    join(vms_dir_of(home), encode_utf8("."@ + id + ".partial"@))
}

/// The files of a project's VM.
pub fn dir(paths: &Paths, project: &Project) -> (d: VmDir)
    ensures
        d@ == vm_dir_of(paths@, project.id@),
{
    VmDir::new(paths.vm_dir(project))
}

/// Where a project's VM is built.
pub fn partial(paths: &Paths, project: &Project) -> (d: VmDir)
    ensures
        d@ == partial_dir_of(paths@, project.id@),
{
    let name = ".".to_owned().concat(project.id.as_str()).concat(".partial");
    VmDir::new(paths.vms_dir().join_text(name.as_str()))
}

/// The file with what is recorded of a VM.
pub fn metadata_file(dir: &VmDir) -> (p: UnixPath)
    ensures
        p@ == below(dir@, "project.toml"),
{
    dir.path().join_text("project.toml")
}

/// The file that is locked while a VM runs.
pub fn lock_file(dir: &VmDir) -> (p: UnixPath)
    ensures
        p@ == below(below(dir@, "run"), "lock"),
{
    dir.path().join_text("run").join_text("lock")
}

/// The directory with the manifest of the mounts.
pub fn meta_dir(dir: &VmDir) -> (p: UnixPath)
    ensures
        p@ == below(dir@, "run/meta"),
{
    dir.path().join_text("run/meta")
}

// ---------------------------------------------------------------------------
// Running
// ---------------------------------------------------------------------------

/// What is to be done next to run a VM.
#[derive(Clone, Copy, Debug, PartialEq, Eq, Structural)]
pub enum Want {
    /// Look whether the VM is there.
    Look,
    /// Look at the base image's marker.
    Base,
    /// Make an empty directory to build the VM in.
    Clear,
    /// Clone the base image's disk.
    CloneDisk,
    /// Clone the base image's EFI variables.
    CloneEfi,
    /// Write down what is recorded of the VM.
    Record,
    /// Put the VM in its place.
    Rename,
    /// Read what is recorded of the VM.
    Metadata,
    /// Lock the VM.
    Lock,
    /// Grow its disk, prepare the mounts, and boot it.
    Boot,
}

/// How locking a VM went.
#[derive(Clone, Copy, Debug, PartialEq, Eq, Structural)]
pub enum Locked {
    Yes,
    /// Another process has the lock.
    Busy,
}

/// What became of it.
#[derive(Debug)]
pub enum Told {
    /// Whether the VM is there.
    Looked(bool),
    /// Whether the base image is there, and the revision recorded of it.
    Base(bool, Option<u32>),
    Cleared,
    DiskCloned,
    EfiCloned,
    Recorded,
    Renamed,
    Metadata(Metadata),
    Locked(Locked),
    Stopped,
}

/// Why a VM can't be run.
#[derive(Clone, Copy, Debug, PartialEq, Eq, Structural)]
pub enum RunFault {
    /// There is no base image yet.
    NoBase,
    /// The base image is outdated.
    OldBase,
    /// The VM was created from an older base image.
    OldVm,
    /// The VM was made from another image than the chosen one.
    OtherImage,
    /// The VM is running already.
    Busy,
}

/// Where running a VM stands.
#[derive(Clone, Copy, Debug, PartialEq, Eq, Structural)]
pub enum Progress {
    Next(Want),
    Done,
    Failed(RunFault),
}

/// The name of the chosen image, if any.
pub open spec fn chosen_view(chosen: Option<ImageName>) -> Option<Seq<char>> {
    crate::settings::name_view(chosen)
}

/// Where running a VM stands after `told`, `chosen` being the image that the
/// settings choose, if any. News that was not asked for changes nothing.
pub open spec fn after(want: Want, chosen: Option<Seq<char>>, told: Told) -> Progress {
    match (want, told) {
        (Want::Look, Told::Looked(there)) => Progress::Next(
            if there {
                Want::Metadata
            } else {
                Want::Base
            },
        ),
        (Want::Base, Told::Base(there, revision)) => if !there {
            Progress::Failed(RunFault::NoBase)
        } else if revision_of(revision) < BASE_REVISION {
            Progress::Failed(RunFault::OldBase)
        } else {
            Progress::Next(Want::Clear)
        },
        (Want::Clear, Told::Cleared) => Progress::Next(Want::CloneDisk),
        (Want::CloneDisk, Told::DiskCloned) => Progress::Next(Want::CloneEfi),
        (Want::CloneEfi, Told::EfiCloned) => Progress::Next(Want::Record),
        (Want::Record, Told::Recorded) => Progress::Next(Want::Rename),
        (Want::Rename, Told::Renamed) => Progress::Next(Want::Metadata),
        (Want::Metadata, Told::Metadata(m)) => if is_outdated(m@) {
            Progress::Failed(RunFault::OldVm)
        } else if chosen is Some && chosen->0 != m@.image {
            Progress::Failed(RunFault::OtherImage)
        } else {
            Progress::Next(Want::Lock)
        },
        (Want::Lock, Told::Locked(Locked::Yes)) => Progress::Next(Want::Boot),
        (Want::Lock, Told::Locked(Locked::Busy)) => Progress::Failed(RunFault::Busy),
        (Want::Boot, Told::Stopped) => Progress::Done,
        _ => Progress::Next(want),
    }
}

/// Where running a VM, creating it first if needed, stands after `told`. It
/// starts with `Want::Look`.
pub fn run(want: Want, chosen: &Option<ImageName>, told: &Told) -> (p: Progress)
    ensures
        p == after(want, chosen_view(*chosen), *told),
{
    match (want, told) {
        (Want::Look, Told::Looked(there)) => Progress::Next(
            if *there {
                Want::Metadata
            } else {
                Want::Base
            },
        ),
        (Want::Base, Told::Base(there, revision)) => if !*there {
            Progress::Failed(RunFault::NoBase)
        } else if crate::provision::base_revision(*revision) < BASE_REVISION {
            Progress::Failed(RunFault::OldBase)
        } else {
            Progress::Next(Want::Clear)
        },
        (Want::Clear, Told::Cleared) => Progress::Next(Want::CloneDisk),
        (Want::CloneDisk, Told::DiskCloned) => Progress::Next(Want::CloneEfi),
        (Want::CloneEfi, Told::EfiCloned) => Progress::Next(Want::Record),
        (Want::Record, Told::Recorded) => Progress::Next(Want::Rename),
        (Want::Rename, Told::Renamed) => Progress::Next(Want::Metadata),
        (Want::Metadata, Told::Metadata(m)) => {
            if m.outdated() {
                return Progress::Failed(RunFault::OldVm);
            }
            match chosen {
                Some(name) => if *name == m.image {
                    Progress::Next(Want::Lock)
                } else {
                    Progress::Failed(RunFault::OtherImage)
                },
                None => Progress::Next(Want::Lock),
            }
        },
        (Want::Lock, Told::Locked(Locked::Yes)) => Progress::Next(Want::Boot),
        (Want::Lock, Told::Locked(Locked::Busy)) => Progress::Failed(RunFault::Busy),
        (Want::Boot, Told::Stopped) => Progress::Done,
        _ => Progress::Next(want),
    }
}

/// The words for a fault of running the VM in `dir`.
pub open spec fn run_fault_text(fault: RunFault, home: Seq<u8>, dir: Seq<u8>) -> Seq<char> {
    match fault {
        RunFault::NoBase => "there is no base image yet; run `send_it provision` first"@,
        RunFault::OldBase =>
            "the base image is outdated; rebuild it with `send_it provision --force`"@,
        RunFault::OldVm => text_of(shown(home, dir))
            + " was created from an older base image that this version of send_it can't run; delete it to start over from the current base image"@,
        RunFault::OtherImage => text_of(shown(home, dir))
            + " was made from another image; `sendit reset` recreates it"@,
        RunFault::Busy => "this project's VM is already running"@,
    }
}

impl RunFault {
    /// What went wrong with running the VM in `dir`, for people.
    pub fn message(&self, paths: &Paths, dir: &VmDir) -> (s: String)
        ensures
            s@ == run_fault_text(*self, paths@, dir@),
    {
        match self {
            RunFault::NoBase =>
                "there is no base image yet; run `send_it provision` first".to_owned(),
            RunFault::OldBase =>
                "the base image is outdated; rebuild it with `send_it provision --force`".to_owned(),
            RunFault::OldVm => paths.display(dir.path()).concat(
                " was created from an older base image that this version of send_it can't run; delete it to start over from the current base image",
            ),
            RunFault::OtherImage => paths.display(dir.path()).concat(
                " was made from another image; `sendit reset` recreates it",
            ),
            RunFault::Busy => "this project's VM is already running".to_owned(),
        }
    }
}

/// What a project's VM is run with.
pub fn vm_spec(settings: &VmSettings, shares: Vec<Share>) -> (s: VmSpec)
    ensures
        s.cpus == settings.cpus,
        s.memory == settings.memory,
        s.shares == shares,
        s.seed is None,
        s.provision_log is None,
{
    VmSpec {
        cpus: settings.cpus,
        memory: settings.memory,
        shares,
        seed: None,
        provision_log: None,
    }
}

// ---------------------------------------------------------------------------
// What people are told
// ---------------------------------------------------------------------------

pub fn creating(paths: &Paths, dir: &VmDir) -> (s: String)
    ensures
        s@ == "Creating "@ + text_of(shown(paths@, dir@)) + " from the base image"@,
{
    "Creating ".to_owned().concat(paths.display(dir.path()).as_str()).concat(
        " from the base image",
    )
}

pub fn starting(paths: &Paths, dir: &VmDir, settings: &VmSettings) -> (s: String)
    ensures
        s@ == "Starting "@ + text_of(shown(paths@, dir@)) + " ("@ + dec(settings.cpus as nat)
            + " CPUs, "@ + size_text(settings.memory.0 as nat) + " memory, "@ + size_text(
            settings.disk_size.0 as nat,
        ) + " disk)"@,
{
    "Starting ".to_owned().concat(paths.display(dir.path()).as_str()).concat(" (").concat(
        decimal(settings.cpus as u64).as_str(),
    ).concat(" CPUs, ").concat(settings.memory.to_string().as_str()).concat(" memory, ").concat(
        settings.disk_size.to_string().as_str(),
    ).concat(" disk)")
}

/// A warning if the disk, which has `current` bytes, is larger than the
/// configured size: disks never shrink.
pub fn resize_warning(paths: &Paths, dir: &VmDir, current: u64, disk_size: ByteSize) -> (s: Option<
    String,
>)
    ensures
        s is Some <==> current > disk_size.0,
        s is Some ==> s->0@ == "warning: the disk of "@ + text_of(shown(paths@, dir@))
            + " is already "@ + size_text(current as nat) + " and can't shrink to "@ + size_text(
            disk_size.0 as nat,
        ) + "; `send_it reset` recreates it"@,
{
    if current > disk_size.0 {
        Some(
            "warning: the disk of ".to_owned().concat(paths.display(dir.path()).as_str()).concat(
                " is already ",
            ).concat(ByteSize(current).to_string().as_str()).concat(" and can't shrink to ").concat(
                disk_size.to_string().as_str(),
            ).concat("; `send_it reset` recreates it"),
        )
    } else {
        None
    }
}

// ---------------------------------------------------------------------------
// Laws
// ---------------------------------------------------------------------------

/// Where running a VM stands after the first `n` of `news`.
pub open spec fn stand(chosen: Option<Seq<char>>, news: Seq<Told>, n: nat) -> Progress
    decreases n,
{
    if n == 0 {
        Progress::Next(Want::Look)
    } else {
        match stand(chosen, news, (n - 1) as nat) {
            Progress::Next(want) => after(want, chosen, news[n - 1]),
            other => other,
        }
    }
}

/// Whether something told among the first `n` news reads `what`.
pub open spec fn told(news: Seq<Told>, n: nat, what: Told) -> bool {
    exists|i: int| 0 <= i < n && #[trigger] news[i] == what
}

/// Whether a current base image was seen among the first `n` news.
pub open spec fn base_seen(news: Seq<Told>, n: nat) -> bool {
    exists|i: int|
        0 <= i < n && (#[trigger] news[i]) is Base && news[i]->Base_0 && revision_of(
            news[i]->Base_1,
        ) >= BASE_REVISION
}

/// Whether a VM that can be run as chosen was seen among the first `n` news.
pub open spec fn vm_seen(chosen: Option<Seq<char>>, news: Seq<Told>, n: nat) -> bool {
    exists|i: int|
        {
            &&& 0 <= i < n
            &&& (#[trigger] news[i]) is Metadata
            &&& !is_outdated(news[i]->Metadata_0@)
            &&& chosen is Some ==> chosen->0 == news[i]->Metadata_0@.image
        }
}

spec fn known(chosen: Option<Seq<char>>, news: Seq<Told>, n: nat, p: Progress) -> bool {
    match p {
        Progress::Next(want) => {
            let building = want is Clear || want is CloneDisk || want is CloneEfi || want is Record
                || want is Rename;
            let has_disk = want is CloneEfi || want is Record || want is Rename;
            let has_efi = want is Record || want is Rename;
            &&& building ==> base_seen(news, n)
            &&& has_disk ==> told(news, n, Told::DiskCloned)
            &&& has_efi ==> told(news, n, Told::EfiCloned)
            &&& want is Rename ==> told(news, n, Told::Recorded)
            &&& want is Lock || want is Boot ==> vm_seen(chosen, news, n)
            &&& want is Boot ==> told(news, n, Told::Locked(Locked::Yes))
        },
        _ => true,
    }
}

proof fn lemma_known(chosen: Option<Seq<char>>, news: Seq<Told>, n: nat)
    requires
        n <= news.len(),
    ensures
        known(chosen, news, n, stand(chosen, news, n)),
    decreases n,
{
    if n > 0 {
        let m = (n - 1) as nat;
        lemma_known(chosen, news, m);
        let last = news[n - 1];
        assert(told(news, n, last));
        assert forall|what: Told| told(news, m, what) implies told(news, n, what) by {
            let i = choose|i: int| 0 <= i < m && #[trigger] news[i] == what;
            assert(news[i] == what);
        }
        assert(base_seen(news, m) ==> base_seen(news, n));
        assert(vm_seen(chosen, news, m) ==> vm_seen(chosen, news, n));
    }
}

/// A VM is put in its place only once it is complete: with a disk and EFI
/// variables cloned from a current base image, and with its record.
pub proof fn law_renamed_only_when_complete(chosen: Option<Seq<char>>, news: Seq<Told>, n: nat)
    requires
        n <= news.len(),
        stand(chosen, news, n) == Progress::Next(Want::Rename),
    ensures
        base_seen(news, n),
        told(news, n, Told::DiskCloned),
        told(news, n, Told::EfiCloned),
        told(news, n, Told::Recorded),
{
    lemma_known(chosen, news, n);
}

/// A VM is booted only while it is locked, and only if it was made from a
/// current base image, of the chosen name if one is chosen.
pub proof fn law_booted_only_when_locked(chosen: Option<Seq<char>>, news: Seq<Told>, n: nat)
    requires
        n <= news.len(),
        stand(chosen, news, n) == Progress::Next(Want::Boot),
    ensures
        told(news, n, Told::Locked(Locked::Yes)),
        vm_seen(chosen, news, n),
{
    lemma_known(chosen, news, n);
}

/// A VM that is there is never created anew.
pub proof fn law_existing_vm_is_kept(chosen: Option<Seq<char>>, news: Seq<Told>, n: nat)
    requires
        0 < n <= news.len(),
        news[0] == Told::Looked(true),
    ensures
        match stand(chosen, news, n) {
            Progress::Next(want) => want is Metadata || want is Lock || want is Boot,
            Progress::Failed(fault) => fault !is NoBase && fault !is OldBase,
            Progress::Done => true,
        },
    decreases n,
{
    if n > 1 {
        law_existing_vm_is_kept(chosen, news, (n - 1) as nat);
    } else {
        assert(stand(chosen, news, 0) == Progress::Next(Want::Look));
    }
}

/// Where a VM is built is not the directory of any VM, and different VMs are
/// built in different directories.
pub proof fn law_partial_is_no_vm(home: Seq<u8>, id: Seq<char>, other: Seq<char>)
    requires
        safe_id(id),
        safe_id(other),
    ensures
        !same_path(partial_dir_of(home, id), vm_dir_of(home, other)),
        id != other ==> !same_path(partial_dir_of(home, id), partial_dir_of(home, other)),
{
    reveal_strlit(".");
    reveal_strlit(".partial");
    let a = "."@ + id + ".partial"@;
    let b = "."@ + other + ".partial"@;
    assert forall|i: int| 0 <= i < a.len() implies id_char(#[trigger] a[i]) by {
        if 1 <= i <= id.len() {
            assert(a[i] == id[i - 1]);
        }
    }
    assert forall|i: int| 0 <= i < b.len() implies id_char(#[trigger] b[i]) by {
        if 1 <= i <= other.len() {
            assert(b[i] == other[i - 1]);
        }
    }
    lemma_id_is_name(a);
    lemma_id_is_name(b);
    lemma_id_is_name(other);
    lemma_vms_dir(home);
    let vms = vms_dir_of(home);
    lemma_join_one(vms, encode_utf8(a));
    lemma_join_one(vms, encode_utf8(b));
    lemma_join_one(vms, encode_utf8(other));
    encode_utf8_decode_utf8(a);
    encode_utf8_decode_utf8(b);
    encode_utf8_decode_utf8(other);
    let c = components(vms);
    assert(c.push(Part::Normal(encode_utf8(a))).last() == Part::Normal(encode_utf8(a)));
    assert(c.push(Part::Normal(encode_utf8(b))).last() == Part::Normal(encode_utf8(b)));
    assert(c.push(Part::Normal(encode_utf8(other))).last() == Part::Normal(encode_utf8(other)));
    assert(a.last() == 'l');
    assert(a != other);
    if a == b {
        assert(a.len() == id.len() + 9 && b.len() == other.len() + 9);
        assert forall|i: int| 0 <= i < id.len() implies id[i] == other[i] by {
            assert(a[i + 1] == id[i]);
            assert(b[i + 1] == other[i]);
        }
        assert(id == other);
    }
}

} // verus!
