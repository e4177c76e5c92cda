//! What `status` prints.
use vstd::prelude::*;
use vstd::string::*;

use crate::commands::texts;
use crate::config::{MountView, VmSettings, VmView};
use crate::foreign::text_of;
use crate::number::{dec, decimal, pad_right, padded_right};
use crate::paths::{shown, ImageName, Paths, Project};
use crate::project_vm::{is_outdated, metadata_view, vm_dir_of, Metadata, MetadataView, State};
use crate::provision::{command, command_text, image_dir_of, BaseState};
use crate::size::size_text;
use crate::vm::net::Ipv4;

verus! {

/// The state of a base image in words.
pub open spec fn base_text(image: Seq<char>, state: BaseState) -> Seq<char> {
    match state {
        BaseState::Missing => "run `"@ + command_text(image, false) + "`"@,
        BaseState::Outdated => "outdated; `"@ + command_text(image, true) + "` rebuilds it"@,
        BaseState::ScriptsChanged => "custom scripts changed; `"@ + command_text(image, true)
            + "` rebuilds it"@,
        BaseState::Current => "provisioned"@,
    }
}

/// The state of a base image in words.
pub fn base_status(image: &ImageName, state: BaseState) -> (s: String)
    ensures
        s@ == base_text(image@, state),
{
    match state {
        BaseState::Missing => "run `".to_owned().concat(command(image, false).as_str()).concat(
            "`",
        ),
        BaseState::Outdated => "outdated; `".to_owned().concat(
            command(image, true).as_str(),
        ).concat("` rebuilds it"),
        BaseState::ScriptsChanged => "custom scripts changed; `".to_owned().concat(
            command(image, true).as_str(),
        ).concat("` rebuilds it"),
        BaseState::Current => "provisioned".to_owned(),
    }
}

/// What is known of a project's VM.
#[derive(Debug)]
pub struct VmStatus {
    /// What is recorded of it, if that can be read.
    pub metadata: Option<Metadata>,
    pub state: State,
    /// Its address, if it is running and has one.
    pub ip: Option<Ipv4>,
}

/// What is known of a project's VM, as a mathematical value.
pub struct VmStatusView {
    pub metadata: Option<MetadataView>,
    pub state: State,
    pub ip: Option<Ipv4>,
}

impl View for VmStatus {
    type V = VmStatusView;

    open spec fn view(&self) -> VmStatusView {
        VmStatusView {
            metadata: metadata_view(self.metadata),
            state: self.state,
            ip: self.ip,
        }
    }
}

/// What is known of a project's VM, if it has one.
pub open spec fn status_view(vm: Option<VmStatus>) -> Option<VmStatusView> {
    match vm {
        Some(vm) => Some(vm@),
        None => None,
    }
}

/// The state of a VM in words, `image` being the one that the settings ask
/// for.
pub open spec fn vm_text(image: Seq<char>, vm: Option<VmStatusView>) -> Seq<char> {
    match vm {
        None => "not created"@,
        Some(vm) => match vm.state {
            State::Stopped => if vm.metadata is Some && vm.metadata->0.image != image {
                "stopped; made from the "@ + vm.metadata->0.image
                    + " image, `sendit reset` recreates it from "@ + image
            } else if vm.metadata is Some && is_outdated(vm.metadata->0) {
                "stopped; made from an outdated base image, `sendit reset` recreates it"@
            } else {
                "stopped"@
            },
            State::Running(_) => match vm.ip {
                Some(ip) => "running at "@ + ip.text(),
                None => "running"@,
            },
        },
    }
}

/// The state of a VM in words.
pub fn vm_status(image: &ImageName, vm: &Option<VmStatus>) -> (s: String)
    ensures
        s@ == vm_text(image@, status_view(*vm)),
{
    let vm = match vm {
        None => {
            return "not created".to_owned();
        },
        Some(vm) => vm,
    };
    match vm.state {
        State::Running(_) => match &vm.ip {
            Some(ip) => "running at ".to_owned().concat(ip.to_string().as_str()),
            None => "running".to_owned(),
        },
        State::Stopped => match &vm.metadata {
            None => "stopped".to_owned(),
            Some(m) => if m.image != *image {
                "stopped; made from the ".to_owned().concat(m.image.as_str()).concat(
                    " image, `sendit reset` recreates it from ",
                ).concat(image.as_str())
            } else if m.outdated() {
                "stopped; made from an outdated base image, `sendit reset` recreates it".to_owned()
            } else {
                "stopped".to_owned()
            },
        },
    }
}

/// The line for mount `i`.
pub open spec fn mount_line(home: Seq<u8>, mounts: Seq<MountView>, i: int) -> Seq<char> {
    pad_right(
        if i == 0 {
            "mounts"@
        } else {
            ""@
        },
        8,
    ) + " "@ + text_of(shown(home, mounts[i].host)) + " -> "@ + text_of(mounts[i].guest)
        + " ("@ + (if mounts[i].read_only {
        "ro"@
    } else {
        "rw"@
    }) + ")"@
}

/// The lines of the status.
pub open spec fn status_lines(
    home: Seq<u8>,
    root: Seq<u8>,
    id: Seq<char>,
    settings: VmView,
    image: Seq<char>,
    base: BaseState,
    vm: Option<VmStatusView>,
) -> Seq<Seq<char>> {
    seq![
        "image    "@ + image + " in "@ + text_of(shown(home, image_dir_of(home, image))) + " ("@
            + base_text(image, base) + ")"@,
        "project  "@ + text_of(root),
        "vm       "@ + text_of(shown(home, vm_dir_of(home, id))) + " ("@ + vm_text(image, vm)
            + ")"@,
        "cpus     "@ + dec(settings.cpus as nat),
        "memory   "@ + size_text(settings.memory.0 as nat),
        "disk     "@ + size_text(settings.disk_size.0 as nat) + " max"@,
        ".git     "@ + (if settings.expose_git {
            "visible"@
        } else {
            "hidden"@
        }),
    ] + Seq::new(settings.mounts.len(), |i: int| mount_line(home, settings.mounts, i))
}

/// What `status` prints for a project, its resolved settings, the image of its
/// VM and the state of that, and the VM if it has one.
pub fn status(
    paths: &Paths,
    project: &Project,
    settings: &VmSettings,
    image: &ImageName,
    base: BaseState,
    vm: &Option<VmStatus>,
) -> (lines: Vec<String>)
    ensures
        texts(lines@) == status_lines(
            paths@,
            project.root@,
            project.id@,
            settings@,
            image@,
            base,
            status_view(*vm),
        ),
{
    let ghost all = status_lines(
        paths@,
        project.root@,
        project.id@,
        settings@,
        image@,
        base,
        status_view(*vm),
    );
    let mut lines: Vec<String> = Vec::new();
    lines.push(
        "image    ".to_owned().concat(image.as_str()).concat(" in ").concat(
            paths.display(&paths.image_dir(image)).as_str(),
        ).concat(" (").concat(base_status(image, base).as_str()).concat(")"),
    );
    lines.push("project  ".to_owned().concat(project.root.display().as_str()));
    lines.push(
        "vm       ".to_owned().concat(paths.display(&paths.vm_dir(project)).as_str()).concat(
            " (",
        ).concat(vm_status(image, vm).as_str()).concat(")"),
    );
    lines.push("cpus     ".to_owned().concat(decimal(settings.cpus as u64).as_str()));
    lines.push("memory   ".to_owned().concat(settings.memory.to_string().as_str()));
    lines.push("disk     ".to_owned().concat(settings.disk_size.to_string().as_str()).concat(" max"));
    lines.push(
        ".git     ".to_owned().concat(
            if settings.expose_git {
                "visible"
            } else {
                "hidden"
            },
        ),
    );
    assert(texts(lines@) == all.take(7));
    let mut i: usize = 0;
    while i < settings.mounts.len()
        invariant
            i <= settings.mounts@.len(),
            all == status_lines(
                paths@,
                project.root@,
                project.id@,
                settings@,
                image@,
                base,
                status_view(*vm),
            ),
            texts(lines@) == all.take(i + 7),
        decreases settings.mounts.len() - i,
    {
        let mount = &settings.mounts[i];
        assert(settings@.mounts[i as int] == mount@);
        let label = if i == 0 {
            "mounts"
        } else {
            ""
        };
        let line = padded_right(label, 8).concat(" ").concat(
            paths.display(&mount.host).as_str(),
        ).concat(" -> ").concat(mount.guest.display().as_str()).concat(" (").concat(
            mount.mode(),
        ).concat(")");
        assert(line@ == all[i + 7]);
        let ghost before = texts(lines@);
        lines.push(line);
        assert(texts(lines@) == before.push(all[i + 7]));
        assert(all.take(i + 8) == all.take(i + 7).push(all[i + 7]));
        i += 1;
    }
    assert(all.take(i + 7) == all);
    lines
}

} // verus!
