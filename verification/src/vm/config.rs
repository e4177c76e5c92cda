//! What a VM is made of: the description that a virtual machine is built from.
use vstd::prelude::*;
use vstd::string::*;

use super::{VmDir, VmSpec};
use crate::host::FileError;
use crate::number::{dec, decimal};
use crate::path::UnixPath;
use crate::paths::below;
use crate::size::{size_text, ByteSize};
use crate::text::{chars_of, string_of, trim, trimmed};

verus! {

/// What the host allows a VM to have.
#[derive(Clone, Copy, Debug, PartialEq, Eq, Structural)]
pub struct Limits {
    pub min_cpus: u64,
    pub max_cpus: u64,
    pub min_memory: u64,
    pub max_memory: u64,
}

/// More or less than the host allows.
#[derive(Debug)]
pub enum LimitError {
    Cpus { limits: Limits, cpus: u32 },
    Memory { limits: Limits, memory: ByteSize },
}

impl LimitError {
    pub open spec fn text(self) -> Seq<char> {
        match self {
            LimitError::Cpus { limits, cpus } => "cpus must be between "@ + dec(
                limits.min_cpus as nat,
            ) + " and "@ + dec(limits.max_cpus as nat) + ", got "@ + dec(cpus as nat),
            LimitError::Memory { limits, memory } => "memory must be between "@ + size_text(
                limits.min_memory as nat,
            ) + " and "@ + size_text(limits.max_memory as nat) + ", got "@ + size_text(
                memory.0 as nat,
            ),
        }
    }

    /// What went wrong, for people.
    pub fn message(&self) -> (s: String)
        ensures
            s@ == self.text(),
    {
        match self {
            LimitError::Cpus { limits, cpus } => "cpus must be between ".to_owned().concat(
                decimal(limits.min_cpus).as_str(),
            ).concat(" and ").concat(decimal(limits.max_cpus).as_str()).concat(", got ").concat(
                decimal(*cpus as u64).as_str(),
            ),
            LimitError::Memory { limits, memory } => "memory must be between ".to_owned().concat(
                ByteSize(limits.min_memory).to_string().as_str(),
            ).concat(" and ").concat(ByteSize(limits.max_memory).to_string().as_str()).concat(
                ", got ",
            ).concat(memory.to_string().as_str()),
        }
    }
}

/// A disk of a VM.
#[derive(Debug)]
pub struct Disk {
    pub image: UnixPath,
    pub read_only: bool,
}

/// A disk of a VM, as a mathematical value.
pub struct DiskView {
    pub image: Seq<u8>,
    pub read_only: bool,
}

impl View for Disk {
    type V = DiskView;

    open spec fn view(&self) -> DiskView {
        DiskView { image: self.image@, read_only: self.read_only }
    }
}

/// The disks' values.
pub open spec fn disk_views(v: Seq<Disk>) -> Seq<DiskView> {
    Seq::new(v.len(), |i: int| v[i]@)
}

/// A VM's hardware and the files behind it.
#[derive(Debug)]
pub struct Machine {
    pub cpus: u32,
    pub memory: ByteSize,
    /// The persistent machine identifier.
    pub machine_id: UnixPath,
    /// The EFI variable store.
    pub efi_vars: UnixPath,
    /// The persistent MAC address.
    pub mac: UnixPath,
    /// The disks in order: the VM's own, then the seed, if any.
    pub disks: Vec<Disk>,
}

/// The disks of a VM in `dir` with the seed disk `seed`.
pub open spec fn disks_of(dir: Seq<u8>, seed: Option<UnixPath>) -> Seq<DiskView> {
    let own = seq![DiskView { image: below(dir, "disk.img"), read_only: false }];
    match seed {
        Some(image) => own.push(DiskView { image: image@, read_only: true }),
        None => own,
    }
}

/// The machine for the VM in `dir`, if the host allows it.
pub fn build(dir: &VmDir, spec: &VmSpec, limits: &Limits) -> (r: Result<Machine, LimitError>)
    ensures
        r is Ok <==> limits.min_cpus <= spec.cpus <= limits.max_cpus && limits.min_memory
            <= spec.memory.0 <= limits.max_memory,
        match r {
            Ok(machine) => {
                &&& machine.cpus == spec.cpus
                &&& machine.memory == spec.memory
                &&& machine.machine_id@ == below(dir@, "machine-id")
                &&& machine.efi_vars@ == below(dir@, "efi-vars")
                &&& machine.mac@ == below(dir@, "mac")
                &&& disk_views(machine.disks@) == disks_of(dir@, spec.seed)
            },
            Err(error) => error == (if limits.min_cpus <= spec.cpus <= limits.max_cpus {
                LimitError::Memory { limits: *limits, memory: spec.memory }
            } else {
                LimitError::Cpus { limits: *limits, cpus: spec.cpus }
            }),
        },
{
    let cpus = spec.cpus as u64;
    if cpus < limits.min_cpus || cpus > limits.max_cpus {
        return Err(LimitError::Cpus { limits: *limits, cpus: spec.cpus });
    }
    let memory = spec.memory.0;
    if memory < limits.min_memory || memory > limits.max_memory {
        return Err(LimitError::Memory { limits: *limits, memory: spec.memory });
    }
    let mut disks: Vec<Disk> = Vec::new();
    disks.push(Disk { image: dir.disk(), read_only: false });
    match &spec.seed {
        Some(seed) => {
            disks.push(Disk { image: seed.clone(), read_only: true });
        },
        None => {},
    }
    assert(disk_views(disks@) == disks_of(dir@, spec.seed));
    Ok(
        Machine {
            cpus: spec.cpus,
            memory: spec.memory,
            machine_id: dir.machine_id(),
            efi_vars: dir.efi_vars(),
            mac: dir.mac(),
            disks,
        },
    )
}

/// Something that a VM keeps for good, made on first use.
#[derive(Debug)]
pub enum Saved<T> {
    Load(T),
    /// There is none yet.
    Create,
    /// There may be one, but it can't be read, for this reason.
    Failed(String),
}

/// Whether to load the machine identifier that was read from its file, or to
/// create one, which happens only where there is no such file.
pub fn machine_identifier(read: Result<Vec<u8>, FileError>) -> (s: Saved<Vec<u8>>)
    ensures
        s == (match read {
            Ok(bytes) => Saved::Load(bytes),
            Err(FileError::NotFound) => Saved::Create,
            Err(FileError::Other(reason)) => Saved::Failed(reason),
        }),
{
    match read {
        Ok(bytes) => Saved::Load(bytes),
        Err(FileError::NotFound) => Saved::Create,
        Err(FileError::Other(reason)) => Saved::Failed(reason),
    }
}

/// Whether to load the MAC address that was read from its file, or to create
/// a random one, which happens only where there is no such file.
pub fn mac_address(read: Result<String, FileError>) -> (s: Saved<String>)
    ensures
        match read {
            Ok(text) => s is Load && s->Load_0@ == trim(text@),
            Err(FileError::NotFound) => s is Create,
            Err(FileError::Other(reason)) => s == Saved::<String>::Failed(reason),
        },
{
    match read {
        Ok(text) => {
            let chars = chars_of(text.as_str());
            Saved::Load(string_of(trimmed(chars.as_slice()).as_slice()))
        },
        Err(FileError::NotFound) => Saved::Create,
        Err(FileError::Other(reason)) => Saved::Failed(reason),
    }
}

} // verus!
