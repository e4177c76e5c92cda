//! What can be wrong with a configuration.
use vstd::prelude::*;
use vstd::string::*;

use crate::config::{MIN_DISK_SIZE, MIN_MEMORY};
use crate::foreign::{quoted, quoted_text, text_of};
use crate::number::{dec, decimal};
use crate::path::UnixPath;
use crate::size::{size_text, ByteSize};

verus! {

/// Why the settings of a VM can't be resolved.
#[derive(Debug)]
pub enum ConfigError {
    /// Two project tables are for the same directory.
    Ambiguous { first: UnixPath, second: UnixPath, root: UnixPath },
    /// A relative host path in the config file.
    RelativeMount { host: UnixPath },
    /// A host path that can't be resolved, for this reason.
    MountUnresolved { host: UnixPath, reason: String },
    /// A host path that is no directory.
    MountNotDirectory { host: UnixPath },
    /// A host directory without a name to derive the guest path from.
    MountNoName { host: UnixPath },
    /// Too few or too many CPUs for the host.
    Cpus { host_cpus: u32, cpus: u32 },
    /// Too little memory.
    MemoryTooSmall { memory: ByteSize },
    /// Memory that is not a whole number of MiB.
    MemoryNotWhole { memory: ByteSize },
    /// Too small a disk.
    DiskTooSmall { disk_size: ByteSize },
    /// A guest path that is not an absolute path below the root directory.
    GuestNotAbsolute { host: UnixPath, guest: UnixPath },
    /// A guest path that is not UTF-8.
    GuestNotUtf8 { host: UnixPath, guest: UnixPath },
    /// A guest path with characters that the guest can't read back.
    GuestText { host: UnixPath, text: String },
    /// Two mounts at the same guest path.
    GuestTaken { first: UnixPath, second: UnixPath, guest: UnixPath },
}

/// Why the settings of a VM can't be resolved, as a mathematical value.
pub enum Fault {
    Ambiguous { first: Seq<u8>, second: Seq<u8>, root: Seq<u8> },
    RelativeMount { host: Seq<u8> },
    MountUnresolved { host: Seq<u8>, reason: Seq<char> },
    MountNotDirectory { host: Seq<u8> },
    MountNoName { host: Seq<u8> },
    Cpus { host_cpus: u32, cpus: u32 },
    MemoryTooSmall { memory: ByteSize },
    MemoryNotWhole { memory: ByteSize },
    DiskTooSmall { disk_size: ByteSize },
    GuestNotAbsolute { host: Seq<u8>, guest: Seq<u8> },
    GuestNotUtf8 { host: Seq<u8>, guest: Seq<u8> },
    GuestText { host: Seq<u8>, text: Seq<char> },
    GuestTaken { first: Seq<u8>, second: Seq<u8>, guest: Seq<u8> },
}

impl View for ConfigError {
    type V = Fault;

    open spec fn view(&self) -> Fault {
        match self {
            ConfigError::Ambiguous { first, second, root } => Fault::Ambiguous {
                first: first@,
                second: second@,
                root: root@,
            },
            ConfigError::RelativeMount { host } => Fault::RelativeMount { host: host@ },
            ConfigError::MountUnresolved { host, reason } => Fault::MountUnresolved {
                host: host@,
                reason: reason@,
            },
            ConfigError::MountNotDirectory { host } => Fault::MountNotDirectory { host: host@ },
            ConfigError::MountNoName { host } => Fault::MountNoName { host: host@ },
            ConfigError::Cpus { host_cpus, cpus } => Fault::Cpus {
                host_cpus: *host_cpus,
                cpus: *cpus,
            },
            ConfigError::MemoryTooSmall { memory } => Fault::MemoryTooSmall { memory: *memory },
            ConfigError::MemoryNotWhole { memory } => Fault::MemoryNotWhole { memory: *memory },
            ConfigError::DiskTooSmall { disk_size } => Fault::DiskTooSmall {
                disk_size: *disk_size,
            },
            ConfigError::GuestNotAbsolute { host, guest } => Fault::GuestNotAbsolute {
                host: host@,
                guest: guest@,
            },
            ConfigError::GuestNotUtf8 { host, guest } => Fault::GuestNotUtf8 {
                host: host@,
                guest: guest@,
            },
            ConfigError::GuestText { host, text } => Fault::GuestText { host: host@, text: text@ },
            ConfigError::GuestTaken { first, second, guest } => Fault::GuestTaken {
                first: first@,
                second: second@,
                guest: guest@,
            },
        }
    }
}

/// The words for a fault.
pub open spec fn fault_text(f: Fault) -> Seq<char> {
    match f {
        Fault::Ambiguous { first, second, root } => "[projects.\""@ + text_of(first)
            + "\"] and [projects.\""@ + text_of(second) + "\"] both configure "@ + text_of(
            root,
        ),
        Fault::RelativeMount { host } => "mount "@ + text_of(host)
            + ": host path in the config file must be absolute or start with ~"@,
        Fault::MountUnresolved { host, reason } => "mount "@ + text_of(host),
        Fault::MountNotDirectory { host } => "mount "@ + text_of(host) + ": not a directory"@,
        Fault::MountNoName { host } => "mount "@ + text_of(host)
            + ": give a guest path explicitly"@,
        Fault::Cpus { host_cpus, cpus } => "cpus must be between 1 and "@ + dec(host_cpus as nat)
            + ", got "@ + dec(cpus as nat),
        Fault::MemoryTooSmall { memory } => "memory must be at least "@ + size_text(
            MIN_MEMORY as nat,
        ) + ", got "@ + size_text(memory.0 as nat),
        Fault::MemoryNotWhole { memory } => "memory must be a whole number of MiB, got "@
            + size_text(memory.0 as nat),
        Fault::DiskTooSmall { disk_size } => "disk-size must be at least "@ + size_text(
            MIN_DISK_SIZE as nat,
        ) + ", got "@ + size_text(disk_size.0 as nat),
        Fault::GuestNotAbsolute { host, guest } => "mount "@ + text_of(host) + ": guest path "@
            + text_of(guest) + " must be an absolute path below /"@,
        Fault::GuestNotUtf8 { host, guest } => "mount "@ + text_of(host) + ": guest path "@
            + text_of(guest) + " is not valid UTF-8"@,
        Fault::GuestText { host, text } => "mount "@ + text_of(host) + ": guest path "@
            + quoted_text(text) + " may not contain control characters or surrounding spaces"@,
        Fault::GuestTaken { first, second, guest } => "mounts "@ + text_of(first) + " and "@
            + text_of(second) + " both use guest path "@ + text_of(guest),
    }
}

impl ConfigError {
    /// What went wrong, for people.
    pub fn message(&self) -> (s: String)
        ensures
            s@ == fault_text(self@),
    {
        match self {
            ConfigError::Ambiguous { first, second, root } => "[projects.\"".to_owned().concat(
                first.display().as_str(),
            ).concat("\"] and [projects.\"").concat(second.display().as_str()).concat(
                "\"] both configure ",
            ).concat(root.display().as_str()),
            ConfigError::RelativeMount { host } => "mount ".to_owned().concat(
                host.display().as_str(),
            ).concat(": host path in the config file must be absolute or start with ~"),
            ConfigError::MountUnresolved { host, .. } => "mount ".to_owned().concat(
                host.display().as_str(),
            ),
            ConfigError::MountNotDirectory { host } => "mount ".to_owned().concat(
                host.display().as_str(),
            ).concat(": not a directory"),
            ConfigError::MountNoName { host } => "mount ".to_owned().concat(
                host.display().as_str(),
            ).concat(": give a guest path explicitly"),
            ConfigError::Cpus { host_cpus, cpus } => "cpus must be between 1 and ".to_owned().concat(
                decimal(*host_cpus as u64).as_str(),
            ).concat(", got ").concat(decimal(*cpus as u64).as_str()),
            ConfigError::MemoryTooSmall { memory } => "memory must be at least ".to_owned().concat(
                ByteSize(MIN_MEMORY).to_string().as_str(),
            ).concat(", got ").concat(memory.to_string().as_str()),
            ConfigError::MemoryNotWhole { memory } =>
                "memory must be a whole number of MiB, got ".to_owned().concat(
                memory.to_string().as_str(),
            ),
            ConfigError::DiskTooSmall { disk_size } =>
                "disk-size must be at least ".to_owned().concat(
                ByteSize(MIN_DISK_SIZE).to_string().as_str(),
            ).concat(", got ").concat(disk_size.to_string().as_str()),
            ConfigError::GuestNotAbsolute { host, guest } => "mount ".to_owned().concat(
                host.display().as_str(),
            ).concat(": guest path ").concat(guest.display().as_str()).concat(
                " must be an absolute path below /",
            ),
            ConfigError::GuestNotUtf8 { host, guest } => "mount ".to_owned().concat(
                host.display().as_str(),
            ).concat(": guest path ").concat(guest.display().as_str()).concat(
                " is not valid UTF-8",
            ),
            ConfigError::GuestText { host, text } => "mount ".to_owned().concat(
                host.display().as_str(),
            ).concat(": guest path ").concat(quoted(text.as_str()).as_str()).concat(
                " may not contain control characters or surrounding spaces",
            ),
            ConfigError::GuestTaken { first, second, guest } => "mounts ".to_owned().concat(
                first.display().as_str(),
            ).concat(" and ").concat(second.display().as_str()).concat(
                " both use guest path ",
            ).concat(guest.display().as_str()),
        }
    }
}

} // verus!
