//! The command line, as plain values.
use vstd::prelude::*;

use crate::mount_spec::MountSpec;
use crate::path::UnixPath;
use crate::paths::ImageName;
use crate::settings::{
    clone_mounts, clone_name, mount_specs, name_view, Resources, Settings, SettingsView,
};
use crate::size::ByteSize;

verus! {

/// Light and fast per-project Debian VMs on macOS.
#[derive(Debug)]
pub struct Cli {
    /// Project directory; the current directory if none is given.
    pub project: Option<UnixPath>,
    pub command: Command,
}

#[derive(Debug)]
pub enum Command {
    /// Download Debian and build base images.
    Provision {
        /// The image to build; that of the project's VM if none is given.
        image: Option<ImageName>,
        /// Build all images that are known.
        all: bool,
        /// Rebuild an image even if it already exists.
        force: bool,
        resources: Resources,
    },
    /// Boot the project's VM and attach to its console.
    Run(RunArgs),
    /// Open an SSH session to the project's running VM.
    Ssh {
        /// Log in as root.
        root: bool,
        /// Command to run instead of a login shell.
        command: Vec<String>,
    },
    /// Show the project's VM and its effective settings.
    Status,
    /// Shut down the project's running VM.
    Stop,
    /// Delete the project's VM; the next `run` starts from a fresh copy of the
    /// base image.
    Reset {
        /// Don't ask for confirmation.
        yes: bool,
    },
    /// List all project VMs.
    List,
    /// List all images.
    Images,
    /// Delete VMs whose project directory no longer exists.
    Prune {
        /// Don't ask for confirmation.
        yes: bool,
    },
}

/// The flags of `run`.
#[derive(Debug)]
pub struct RunArgs {
    /// Number of virtual CPUs.
    pub cpus: Option<u32>,
    /// Memory size, e.g. 4G or 512M.
    pub memory: Option<ByteSize>,
    /// Extra directories to share.
    pub mounts: Vec<MountSpec>,
    /// Let the VM see the project's .git directory (hidden by default).
    pub expose_git: bool,
    /// The image to create the VM from.
    pub image: Option<ImageName>,
}

impl RunArgs {
    /// The flags as the highest layer of settings.
    pub fn settings(&self) -> (s: Settings)
        ensures
            s@ == (SettingsView {
                cpus: self.cpus,
                memory: self.memory,
                disk_size: None,
                mounts: mount_specs(self.mounts@),
                expose_git: if self.expose_git {
                    Some(true)
                } else {
                    None
                },
                image: name_view(self.image),
            }),
    {
        Settings {
            cpus: self.cpus,
            memory: self.memory,
            disk_size: None,
            mounts: clone_mounts(&self.mounts),
            expose_git: if self.expose_git {
                Some(true)
            } else {
                None
            },
            image: clone_name(&self.image),
        }
    }
}

} // verus!
