//! What people are told when something is wrong.
use vstd::prelude::*;
use vstd::string::*;

use crate::config_error::{fault_text, Fault};
use crate::foreign::{quoted_text, text_of};
use crate::image::{image_fault_text, ImageFault, SUMS_URL, TARBALL};
use crate::number::dec;
use crate::paths::shown;
use crate::project_vm::{run_fault_text, RunFault};
use crate::provision_table::{provision_fault_text, ProvisionFault};
use crate::size::{size_text, ByteSize, SizeError, SizeFault};

verus! {

/// What is wrong with settings is said with the paths, sizes and numbers that
/// are wrong, as they are.
pub proof fn law_settings_messages(
    a: Seq<u8>,
    b: Seq<u8>,
    c: Seq<u8>,
    text: Seq<char>,
    n: u32,
    m: u32,
    size: ByteSize,
)
    ensures
        fault_text(Fault::Ambiguous { first: a, second: b, root: c }) == "[projects.\""@ + text_of(
            a,
        ) + "\"] and [projects.\""@ + text_of(b) + "\"] both configure "@ + text_of(c),
        fault_text(Fault::RelativeMount { host: a }) == "mount "@ + text_of(a)
            + ": host path in the config file must be absolute or start with ~"@,
        fault_text(Fault::MountUnresolved { host: a, reason: text }) == "mount "@ + text_of(a),
        fault_text(Fault::MountNotDirectory { host: a }) == "mount "@ + text_of(a)
            + ": not a directory"@,
        fault_text(Fault::MountNoName { host: a }) == "mount "@ + text_of(a)
            + ": give a guest path explicitly"@,
        fault_text(Fault::Cpus { host_cpus: n, cpus: m }) == "cpus must be between 1 and "@ + dec(
            n as nat,
        ) + ", got "@ + dec(m as nat),
        fault_text(Fault::MemoryTooSmall { memory: size }) == "memory must be at least "@
            + size_text(536870912) + ", got "@ + size_text(size.0 as nat),
        fault_text(Fault::MemoryNotWhole { memory: size })
            == "memory must be a whole number of MiB, got "@ + size_text(size.0 as nat),
        fault_text(Fault::DiskTooSmall { disk_size: size }) == "disk-size must be at least "@
            + size_text(8589934592) + ", got "@ + size_text(size.0 as nat),
        fault_text(Fault::GuestNotAbsolute { host: a, guest: b }) == "mount "@ + text_of(a)
            + ": guest path "@ + text_of(b) + " must be an absolute path below /"@,
        fault_text(Fault::GuestNotUtf8 { host: a, guest: b }) == "mount "@ + text_of(a)
            + ": guest path "@ + text_of(b) + " is not valid UTF-8"@,
        fault_text(Fault::GuestText { host: a, text }) == "mount "@ + text_of(a)
            + ": guest path "@ + quoted_text(text)
            + " may not contain control characters or surrounding spaces"@,
        fault_text(Fault::GuestTaken { first: a, second: b, guest: c }) == "mounts "@ + text_of(a)
            + " and "@ + text_of(b) + " both use guest path "@ + text_of(c),
{
}

/// What is wrong with an image is said with the checksums, and with where the
/// list is.
pub proof fn law_image_messages(a: Seq<char>, b: Seq<char>)
    ensures
        image_fault_text(ImageFault::Unreachable(a)) == "fetching "@ + SUMS_URL@,
        image_fault_text(ImageFault::NotListed) == TARBALL@ + " is not listed in "@ + SUMS_URL@,
        image_fault_text(ImageFault::Mismatch { expected: a, actual: b })
            == "checksum mismatch for "@ + TARBALL@ + ": expected "@ + a + ", got "@ + b,
        image_fault_text(ImageFault::NoDisk) == "the image archive did not contain disk.raw"@,
{
}

/// What keeps a VM from being run is said with what helps.
pub proof fn law_run_messages(home: Seq<u8>, dir: Seq<u8>)
    ensures
        run_fault_text(RunFault::NoBase, home, dir)
            == "there is no base image yet; run `send_it provision` first"@,
        run_fault_text(RunFault::OldBase, home, dir)
            == "the base image is outdated; rebuild it with `send_it provision --force`"@,
        run_fault_text(RunFault::OldVm, home, dir) == text_of(shown(home, dir))
            + " was created from an older base image that this version of send_it can't run; delete it to start over from the current base image"@,
        run_fault_text(RunFault::OtherImage, home, dir) == text_of(shown(home, dir))
            + " was made from another image; `sendit reset` recreates it"@,
        run_fault_text(RunFault::Busy, home, dir) == "this project's VM is already running"@,
{
}

/// What is wrong with the `[provision]` table is said with the key.
pub proof fn law_provision_messages(key: Seq<char>, reason: Seq<char>)
    ensures
        provision_fault_text(ProvisionFault::Cpus(reason)) == "cpus: "@ + reason,
        provision_fault_text(ProvisionFault::Memory(reason)) == "memory: "@ + reason,
        provision_fault_text(ProvisionFault::Name(key)) == "invalid image name "@ + quoted_text(
            key,
        ) + ": expected lower-case letters, digits, - and _"@,
        provision_fault_text(ProvisionFault::Image { key, reason }) == "in [provision."@ + key
            + "]: "@ + reason,
        provision_fault_text(ProvisionFault::UnknownKey(key)) == "unknown field `"@ + key
            + "`, expected `cpus`, `memory` or an image's table"@,
{
}

/// What is wrong with a size is said with the text.
pub proof fn law_size_messages(error: SizeError)
    ensures
        error.fault == SizeFault::Unit ==> error.message_text() == "invalid size "@ + quoted_text(
            error.text@,
        ) + ": expected a number with a unit, e.g. 512M or 4G"@,
        error.fault == SizeFault::Number ==> error.message_text() == "invalid size "@ + quoted_text(
            error.text@,
        ),
        error.fault == SizeFault::TooLarge ==> error.message_text() == "size "@ + quoted_text(
            error.text@,
        ) + " is too large"@,
{
}

} // verus!
