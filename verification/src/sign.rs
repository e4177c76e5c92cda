//! The virtualization entitlement, which Virtualization.framework requires.
//!
//! A binary that starts without it signs a copy of itself, puts the copy in
//! its place and runs that instead.
use vstd::prelude::*;
use vstd::string::*;
use vstd::utf8::*;

use crate::foreign::text_of;
use crate::number::{dec, decimal};
use crate::path::{components, file_name, join, render, UnixPath};

verus! {

/// Set for the re-executed binary, so a signature that didn't take effect
/// fails instead of looping.
pub const SIGNED_ENV: &'static str = "SENDIT_SIGNED";

/// What to do about the entitlement.
#[derive(Clone, Copy, Debug, PartialEq, Eq, Structural)]
pub enum Entitled {
    /// The process has it: go on.
    Yes,
    /// Sign the executable and run it again.
    Sign,
    /// Signing it did not help.
    Never,
}

/// What to do, given whether this process has the entitlement and whether it
/// was run again after signing.
pub open spec fn entitled_of(entitled: bool, signed: bool) -> Entitled {
    if entitled {
        Entitled::Yes
    } else if signed {
        Entitled::Never
    } else {
        Entitled::Sign
    }
}

/// What to do, given whether this process has the entitlement and whether it
/// was run again after signing.
pub fn ensure_entitled(entitled: bool, signed: bool) -> (r: Entitled)
    ensures
        r == entitled_of(entitled, signed),
{
    if entitled {
        Entitled::Yes
    } else if signed {
        Entitled::Never
    } else {
        Entitled::Sign
    }
}

/// Signing can't go on for ever: a process that was run again after signing
/// is not signed again. Without the entitlement, nothing goes on.
pub proof fn law_signs_once(entitled: bool, signed: bool)
    ensures
        signed ==> entitled_of(entitled, signed) !is Sign,
        entitled_of(entitled, signed) is Yes <==> entitled,
{
}

pub fn still_lacks(exe: &UnixPath) -> (s: String)
    ensures
        s@ == text_of(exe@) + " is signed but still lacks the virtualization entitlement"@,
{
    exe.display().concat(" is signed but still lacks the virtualization entitlement")
}

pub fn signing(exe: &UnixPath) -> (s: String)
    ensures
        s@ == "sendit: signing "@ + text_of(exe@) + " with the virtualization entitlement"@,
{
    "sendit: signing ".to_owned().concat(exe.display().as_str()).concat(
        " with the virtualization entitlement",
    )
}

/// The name of the copy that process `pid` signs.
pub open spec fn copy_name(name: Seq<u8>, pid: u32) -> Seq<char> {
    "."@ + text_of(name) + ".signing-"@ + dec(pid as nat)
}

/// Where process `pid` puts the copy of the executable at the canonical path
/// `exe` that it signs: beside it. None if the executable has no file name.
pub fn copy_path(exe: &UnixPath, pid: u32) -> (r: Option<UnixPath>)
    ensures
        r is Some <==> file_name(exe@) is Some,
        r is Some ==> r->0@ == join(
            render(components(exe@).drop_last()),
            encode_utf8(copy_name(file_name(exe@)->0, pid)),
        ),
{
    match exe.file_name() {
        None => None,
        Some(name) => {
            let name = UnixPath { bytes: name };
            let copy = ".".to_owned().concat(name.display().as_str()).concat(".signing-").concat(
                decimal(pid as u64).as_str(),
            );
            Some(exe.parent().join_text(copy.as_str()))
        },
    }
}

/// The name of the file with the entitlements that process `pid` signs with.
pub fn entitlements_name(pid: u32) -> (s: String)
    ensures
        s@ == "sendit-entitlements-"@ + dec(pid as nat) + ".plist"@,
{
    "sendit-entitlements-".to_owned().concat(decimal(pid as u64).as_str()).concat(".plist")
}

} // verus!
