//! Running a VM: its files, what it is made of, and when it is shut down.
pub mod config;
pub mod console;
pub mod console_laws;
pub mod net;
pub mod net_laws;
pub mod stop;
pub mod stop_laws;

use vstd::prelude::*;

use crate::mounts::Share;
use crate::path::UnixPath;
use crate::paths::below;
use crate::size::ByteSize;

verus! {

/// The files making up one VM (the base image or a project VM).
#[derive(Debug)]
pub struct VmDir {
    pub dir: UnixPath,
}

impl View for VmDir {
    type V = Seq<u8>;

    /// The directory.
    open spec fn view(&self) -> Seq<u8> {
        self.dir@
    }
}

impl Clone for VmDir {
    fn clone(&self) -> (r: Self)
        ensures
            r@ == self@,
    {
        VmDir { dir: self.dir.clone() }
    }
}

impl VmDir {
    pub fn new(dir: UnixPath) -> (d: Self)
        ensures
            d@ == dir@,
    {
        VmDir { dir }
    }

    pub fn path(&self) -> (p: &UnixPath)
        ensures
            p@ == self@,
    {
        &self.dir
    }

    pub fn disk(&self) -> (p: UnixPath)
        ensures
            p@ == below(self@, "disk.img"),
    {
        self.dir.join_text("disk.img")
    }

    pub fn efi_vars(&self) -> (p: UnixPath)
        ensures
            p@ == below(self@, "efi-vars"),
    {
        self.dir.join_text("efi-vars")
    }

    pub fn machine_id(&self) -> (p: UnixPath)
        ensures
            p@ == below(self@, "machine-id"),
    {
        self.dir.join_text("machine-id")
    }

    pub fn mac(&self) -> (p: UnixPath)
        ensures
            p@ == below(self@, "mac"),
    {
        self.dir.join_text("mac")
    }
}

/// What a VM is run with.
#[derive(Debug)]
pub struct VmSpec {
    pub cpus: u32,
    pub memory: ByteSize,
    /// Host directories shared with the guest over virtiofs.
    pub shares: Vec<Share>,
    /// Extra read-only disk, e.g. a cloud-init seed ISO.
    pub seed: Option<UnixPath>,
    /// Provisioning mode: show and log the guest's /dev/hvc1 to this file
    /// instead of showing the login console.
    pub provision_log: Option<UnixPath>,
}

} // verus!
