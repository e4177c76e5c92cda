//! What values stand for: all of their fields, and every item in its place.
use vstd::prelude::*;
use vstd::std_specs::cmp::PartialEqSpec;
use vstd::string::*;

use crate::commands::{
    orphan_views, recorded_path, texts, Orphan, ProjectDir, ProjectDirView, Verdict, VerdictView,
};
use crate::config::{
    mount_step, mount_views, name_ref_view, name_step, path_view, vm_step, Answer, Config, Mount, Provision, Step,
    VmSettings,
};
use crate::config_error::{ConfigError, Fault};
use crate::host::{Found, HostPaths, Lookup};
use crate::image::{
    DebianImage, ImageError, ImageFault, Phase, PhaseView, Progress, ProgressView, Told, ToldView,
};
use crate::listing::{facts_views, row_views, ImageRow, VmFacts};
use crate::mount_spec::MountSpec;
use crate::mounts::{share_views, Share};
use crate::path::{components, names, parts, Component, Part, UnixPath};
use crate::paths::{ImageName, ImageNameError, Paths, Project};
use crate::project_vm::{chosen_view, metadata_view, Metadata};
use crate::provision::{script_views, stamp_views, CustomScript, ScriptStamp};
use crate::provision_table::{
    image_names, provision_result, ProvisionError, ProvisionFault, ProvisionView,
};
use crate::seed::{file_views, SeedFile};
use crate::settings::{mount_specs, name_view, no_settings, Settings};
use crate::size::ByteSize;
use crate::status::{status_view, VmStatus};
use crate::text::{pieces, text_view};
use crate::vm::config::{disk_views, Disk};
use crate::vm::console::{chunk_views, Chunk};
use crate::vm::VmDir;

verus! {

/// Optional values stand for optional values.
pub proof fn law_options(
    s: String,
    name: ImageName,
    m: Metadata,
    vm: VmStatus,
    path: UnixPath,
)
    ensures
        text_view(Some(s)) == Some(s@),
        text_view(None) is None,
        name_view(Some(name)) == Some(name@),
        name_view(None) is None,
        chosen_view(Some(name)) == Some(name@),
        chosen_view(None) is None,
        metadata_view(Some(m)) == Some(m@),
        metadata_view(None) is None,
        status_view(Some(vm)) == Some(vm@),
        status_view(None) is None,
        recorded_path(Some(m)) == Some(m.project_path.bytes@),
        recorded_path(None) is None,
        path_view(Some(&path)) == Some(path.bytes@),
        path_view(None) is None,
        name_ref_view(Some(&name)) == Some(name@),
        name_ref_view(None) is None,
{
}

/// Paths stand for their bytes, and directories for their paths.
pub proof fn law_paths(path: UnixPath, paths: Paths, dir: VmDir, project: Project)
    ensures
        path@ == path.bytes@,
        paths@ == paths.home.bytes@,
        dir@ == dir.dir.bytes@,
        project@.root == project.root.bytes@,
        project@.id == project.id@,
{
}

/// Components stand for what they are.
pub proof fn law_component_values(name: Vec<u8>, list: Seq<Component>, v: Seq<Vec<u8>>, i: int)
    ensures
        Component::RootDir@ == Part::Root,
        Component::CurDir@ == Part::Current,
        Component::ParentDir@ == Part::Parent,
        Component::Normal(name)@ == Part::Normal(name@),
        parts(list).len() == list.len(),
        0 <= i < list.len() ==> parts(list)[i] == list[i]@,
        names(v).len() == v.len(),
        0 <= i < v.len() ==> names(v)[i] == v[i]@,
{
}

/// Settings stand for all that they set, and no settings set nothing.
pub proof fn law_settings_values(s: Settings, spec: MountSpec, specs: Seq<MountSpec>, i: int)
    ensures
        s@.cpus == s.cpus,
        s@.memory == s.memory,
        s@.disk_size == s.disk_size,
        s@.expose_git == s.expose_git,
        s.image is Some ==> s@.image == Some(s.image->0@),
        s.image is None ==> s@.image is None,
        s@.mounts == mount_specs(s.mounts@),
        mount_specs(specs).len() == specs.len(),
        0 <= i < specs.len() ==> mount_specs(specs)[i] == specs[i]@,
        spec@.host == spec.host.bytes@,
        spec.guest is Some ==> spec@.guest == Some(spec.guest->0.bytes@),
        spec.guest is None ==> spec@.guest is None,
        spec@.read_only == spec.read_only,
        no_settings().cpus is None,
        no_settings().memory is None,
        no_settings().disk_size is None,
        no_settings().expose_git is None,
        no_settings().image is None,
        no_settings().mounts.len() == 0,
{
}

/// A configuration stands for all its layers.
pub proof fn law_config_values(c: Config)
    ensures
        c@.defaults == c.defaults@,
        c@.provision == c.provision.resources,
        c@.provision_images == c.provision.images@,
        c@.images == c.images@,
        c@.projects == c.projects@,
        c.provision@.resources == c.provision.resources,
        c.provision@.images == c.provision.images@,
{
}

/// Resolved settings stand for all that a VM is run with.
pub proof fn law_vm_values(vm: VmSettings, mount: Mount, mounts: Seq<Mount>, i: int)
    ensures
        vm@.cpus == vm.cpus,
        vm@.memory == vm.memory,
        vm@.disk_size == vm.disk_size,
        vm@.expose_git == vm.expose_git,
        vm.image is Some ==> vm@.image == Some(vm.image->0@),
        vm.image is None ==> vm@.image is None,
        vm@.mounts == mount_views(vm.mounts@),
        mount_views(mounts).len() == mounts.len(),
        0 <= i < mounts.len() ==> mount_views(mounts)[i] == mounts[i]@,
        mount@.host == mount.host.bytes@,
        mount@.guest == mount.guest.bytes@,
        mount@.read_only == mount.read_only,
{
}

/// Answers stand for what is asked for, refused or given.
pub proof fn law_answers(
    path: UnixPath,
    error: ConfigError,
    mount: Mount,
    vm: VmSettings,
    name: ImageName,
)
    ensures
        mount_step(Answer::Look(path)) == Step::<crate::config::MountView>::Look(path.bytes@),
        mount_step(Answer::Fail(error)) == Step::<crate::config::MountView>::Fail(error@),
        mount_step(Answer::Done(mount)) == Step::Done(mount@),
        vm_step(Answer::Look(path)) == Step::<crate::config::VmView>::Look(path.bytes@),
        vm_step(Answer::Fail(error)) == Step::<crate::config::VmView>::Fail(error@),
        vm_step(Answer::Done(vm)) == Step::Done(vm@),
        name_step(Answer::Look(path)) == Step::<Option<Seq<char>>>::Look(path.bytes@),
        name_step(Answer::Fail(error)) == Step::<Option<Seq<char>>>::Fail(error@),
        name_step(Answer::Done(Some(name))) == Step::Done(Some(name@)),
        name_step(Answer::Done(None)) == Step::Done(None::<Seq<char>>),
{
}

/// What the host found stands for itself.
pub proof fn law_found_values(path: UnixPath, reason: String, host: HostPaths, i: int)
    ensures
        Lookup::Directory(path)@ == Found::Directory(path.bytes@),
        Lookup::Other(path)@ == Found::Other(path.bytes@),
        Lookup::Failed(reason)@ == Found::Failed(reason@),
        host@.len() == host.seen@.len(),
        0 <= i < host.seen@.len() ==> host@[i] == (host.seen@[i].0.bytes@, host.seen@[i].1@),
{
}

/// What is known of VMs and images stands for itself.
pub proof fn law_fact_values(
    m: Metadata,
    vm: VmFacts,
    vms: Seq<VmFacts>,
    status: VmStatus,
    row: ImageRow,
    rows: Seq<ImageRow>,
    i: int,
)
    ensures
        m@.project_path == m.project_path.bytes@,
        m@.base_revision == m.base_revision,
        m@.image == m.image@,
        vm@.dir == vm.dir.bytes@,
        vm@.metadata == metadata_view(vm.metadata),
        vm@.state == vm.state,
        vm@.project == vm.project@,
        vm@.disk == vm.disk,
        facts_views(vms).len() == vms.len(),
        0 <= i < vms.len() ==> facts_views(vms)[i] == vms[i]@,
        status@.metadata == metadata_view(status.metadata),
        status@.state == status.state,
        status@.ip == status.ip,
        row@.name == row.name@,
        row@.state == row.state,
        row@.disk == row.disk,
        row@.vms == row.vms,
        row_views(rows).len() == rows.len(),
        0 <= i < rows.len() ==> row_views(rows)[i] == rows[i]@,
{
}

/// What pruning looks at and decides stands for itself.
pub proof fn law_prune_values(
    reason: String,
    orphan: Orphan,
    orphans: Seq<Orphan>,
    strings: Seq<String>,
    i: int,
)
    ensures
        ProjectDir::Present@ is Present,
        ProjectDir::Missing@ is Missing,
        ProjectDir::Unmounted@ is Unmounted,
        ProjectDir::Inaccessible(reason)@ == ProjectDirView::Inaccessible(reason@),
        Verdict::Keep@ is Keep,
        Verdict::NeedState@ is NeedState,
        Verdict::Orphan@ is Orphan,
        Verdict::Skip(reason)@ == VerdictView::Skip(reason@),
        orphan@.dir == orphan.dir.bytes@,
        orphan@.project == orphan.project.bytes@,
        orphan_views(orphans).len() == orphans.len(),
        0 <= i < orphans.len() ==> orphan_views(orphans)[i] == orphans[i]@,
        texts(strings).len() == strings.len(),
        0 <= i < strings.len() ==> texts(strings)[i] == strings[i]@,
{
}

/// Scripts, stamps, files, shares, disks and keystrokes stand for themselves.
pub proof fn law_item_values(
    script: CustomScript,
    scripts: Seq<CustomScript>,
    stamp: ScriptStamp,
    stamps: Seq<ScriptStamp>,
    file: SeedFile,
    files: Seq<SeedFile>,
    share: Share,
    shares: Seq<Share>,
    disk: Disk,
    disks: Seq<Disk>,
    chunk: Chunk,
    chunks: Seq<Chunk>,
    i: int,
)
    ensures
        script@.name == script.name@,
        script@.content == script.content@,
        script_views(scripts).len() == scripts.len(),
        0 <= i < scripts.len() ==> script_views(scripts)[i] == scripts[i]@,
        stamp@.name == stamp.name@,
        stamp@.sha256 == stamp.sha256@,
        stamp_views(stamps).len() == stamps.len(),
        0 <= i < stamps.len() ==> stamp_views(stamps)[i] == stamps[i]@,
        file@.name == file.name@,
        file@.content == file.content@,
        file_views(files).len() == files.len(),
        0 <= i < files.len() ==> file_views(files)[i] == files[i]@,
        share@.tag == share.tag@,
        share@.host == share.host.bytes@,
        share@.read_only == share.read_only,
        share_views(shares).len() == shares.len(),
        0 <= i < shares.len() ==> share_views(shares)[i] == shares[i]@,
        disk@.image == disk.image.bytes@,
        disk@.read_only == disk.read_only,
        disk_views(disks).len() == disks.len(),
        0 <= i < disks.len() ==> disk_views(disks)[i] == disks[i]@,
        chunk@.data == chunk.data@,
        chunk@.escaped == chunk.escaped,
        chunk_views(chunks).len() == chunks.len(),
        0 <= i < chunks.len() ==> chunk_views(chunks)[i] == chunks[i]@,
{
}

/// Names and pieces of text stand for themselves.
pub proof fn law_text_values(list: Seq<ImageName>, parts: Seq<Vec<char>>, i: int)
    ensures
        image_names(list).len() == list.len(),
        0 <= i < list.len() ==> image_names(list)[i] == list[i]@,
        pieces(parts).len() == parts.len(),
        0 <= i < parts.len() ==> pieces(parts)[i] == parts[i]@,
{
}

/// News about the Debian image stands for itself.
pub proof fn law_image_news(
    bytes: Vec<u8>,
    s: String,
    t: String,
    flag: bool,
    image: DebianImage,
    error: ImageError,
    phase: Phase,
)
    ensures
        Told::Sums(Ok(bytes))@ == ToldView::Sums(Ok(bytes@)),
        Told::Sums(Err(s))@ == ToldView::Sums(Err(s@)),
        Told::Cache(Some(s), flag)@ == ToldView::Cache(Some(s@), flag),
        Told::Cache(None, flag)@ == ToldView::Cache(None, flag),
        Told::Hash(Some(s))@ == ToldView::Hash(Some(s@)),
        Told::Hash(None)@ == ToldView::Hash(None),
        Told::Downloaded@ is Downloaded,
        Told::Removed@ is Removed,
        Told::Unpacked(flag)@ == ToldView::Unpacked(flag),
        Told::Installed@ is Installed,
        Phase::Sums@ is Sums,
        Phase::Cache(Ok(s))@ == PhaseView::Cache(Ok(s@)),
        Phase::Cache(Err(error))@ == PhaseView::Cache(Err(error@)),
        Phase::Check(s)@ == PhaseView::Check(s@),
        Phase::Download(s)@ == PhaseView::Download(s@),
        Phase::Recheck(s)@ == PhaseView::Recheck(s@),
        (Phase::Remove { expected: s, actual: t })@ == (PhaseView::Remove {
            expected: s@,
            actual: t@,
        }),
        Phase::Unpack(s)@ == PhaseView::Unpack(s@),
        Phase::Install(s)@ == PhaseView::Install(s@),
        Progress::Next(phase)@ == ProgressView::Next(phase@),
        Progress::Ready(image)@ == ProgressView::Ready(image@),
        Progress::Unchecked(image)@ == ProgressView::Unchecked(image@),
        Progress::Failed(error)@ == ProgressView::Failed(error@),
        image@.path == image.path.bytes@,
        image@.sha512 == image.sha512@,
        ImageError::Unreachable(s)@ == ImageFault::Unreachable(s@),
        ImageError::NotListed@ is NotListed,
        (ImageError::Mismatch { expected: s, actual: t })@ == (ImageFault::Mismatch {
            expected: s@,
            actual: t@,
        }),
        ImageError::NoDisk@ is NoDisk,
{
}

/// Errors of the configuration stand for what they name.
pub proof fn law_config_errors(
    a: UnixPath,
    b: UnixPath,
    c: UnixPath,
    s: String,
    n: u32,
    m: u32,
    size: ByteSize,
)
    ensures
        (ConfigError::Ambiguous { first: a, second: b, root: c })@ == (Fault::Ambiguous {
            first: a.bytes@,
            second: b.bytes@,
            root: c.bytes@,
        }),
        (ConfigError::RelativeMount { host: a })@ == (Fault::RelativeMount { host: a.bytes@ }),
        (ConfigError::MountUnresolved { host: a, reason: s })@ == (Fault::MountUnresolved {
            host: a.bytes@,
            reason: s@,
        }),
        (ConfigError::MountNotDirectory { host: a })@ == (Fault::MountNotDirectory {
            host: a.bytes@,
        }),
        (ConfigError::MountNoName { host: a })@ == (Fault::MountNoName { host: a.bytes@ }),
        (ConfigError::Cpus { host_cpus: n, cpus: m })@ == (Fault::Cpus { host_cpus: n, cpus: m }),
        (ConfigError::MemoryTooSmall { memory: size })@ == (Fault::MemoryTooSmall {
            memory: size,
        }),
        (ConfigError::MemoryNotWhole { memory: size })@ == (Fault::MemoryNotWhole {
            memory: size,
        }),
        (ConfigError::DiskTooSmall { disk_size: size })@ == (Fault::DiskTooSmall {
            disk_size: size,
        }),
        (ConfigError::GuestNotAbsolute { host: a, guest: b })@ == (Fault::GuestNotAbsolute {
            host: a.bytes@,
            guest: b.bytes@,
        }),
        (ConfigError::GuestNotUtf8 { host: a, guest: b })@ == (Fault::GuestNotUtf8 {
            host: a.bytes@,
            guest: b.bytes@,
        }),
        (ConfigError::GuestText { host: a, text: s })@ == (Fault::GuestText {
            host: a.bytes@,
            text: s@,
        }),
        (ConfigError::GuestTaken { first: a, second: b, guest: c })@ == (Fault::GuestTaken {
            first: a.bytes@,
            second: b.bytes@,
            guest: c.bytes@,
        }),
{
}

/// Errors of the `[provision]` table stand for what they name.
pub proof fn law_provision_errors(s: String, t: String, error: ImageNameError, p: Provision)
    ensures
        ProvisionError::Cpus(s)@ == ProvisionFault::Cpus(s@),
        ProvisionError::Memory(s)@ == ProvisionFault::Memory(s@),
        ProvisionError::Name(error)@ == ProvisionFault::Name(error.name@),
        (ProvisionError::Image { key: s, reason: t })@ == (ProvisionFault::Image {
            key: s@,
            reason: t@,
        }),
        ProvisionError::UnknownKey(s)@ == ProvisionFault::UnknownKey(s@),
        provision_result(Ok(p)) == Ok::<ProvisionView, ProvisionFault>(p@),
        provision_result(Err(ProvisionError::Cpus(s))) == Err::<ProvisionView, ProvisionFault>(
            ProvisionFault::Cpus(s@),
        ),
{
}

/// Paths are the same if their components are, and names if they read the
/// same.
pub proof fn law_equality(a: UnixPath, b: UnixPath, x: ImageName, y: ImageName)
    ensures
        a.eq_spec(&b) <==> components(a.bytes@) == components(b.bytes@),
        x.eq_spec(&y) <==> x@ == y@,
{
}

} // verus!
