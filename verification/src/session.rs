//! SSH sessions to a running VM.
use vstd::prelude::*;
use vstd::string::*;

use crate::commands::texts;
use crate::config::GUEST_USER;
use crate::path::UnixPath;
use crate::paths::{below, cache_dir_of, Paths};
use crate::vm::net::Ipv4;

verus! {

/// The private key that VMs accept.
pub fn key_file(paths: &Paths) -> (p: UnixPath)
    ensures
        p@ == below(below(cache_dir_of(paths@), "ssh"), "id_ed25519"),
{
    paths.ssh_dir().join_text("id_ed25519")
}

/// The public key that is baked into base images.
pub fn public_key_file(paths: &Paths) -> (p: UnixPath)
    ensures
        p@ == below(below(cache_dir_of(paths@), "ssh"), "id_ed25519.pub"),
{
    paths.ssh_dir().join_text("id_ed25519.pub")
}

/// The login of a session.
pub open spec fn login(root: bool, ip: Ipv4) -> Seq<char> {
    (if root {
        "root"@
    } else {
        GUEST_USER@
    }) + "@"@ + ip.text()
}

/// The arguments of `ssh` behind those that say where the key is: the login,
/// and the command as it was given.
pub fn ssh_arguments(root: bool, ip: &Ipv4, command: &Vec<String>) -> (v: Vec<String>)
    ensures
        texts(v@) == seq![login(root, *ip)] + texts(command@),
{
    let user = if root {
        "root"
    } else {
        GUEST_USER
    };
    let mut v: Vec<String> = Vec::new();
    v.push(user.to_owned().concat("@").concat(ip.to_string().as_str()));
    let ghost all = seq![login(root, *ip)] + texts(command@);
    assert(texts(v@) == all.take(1));
    let mut i: usize = 0;
    while i < command.len()
        invariant
            i <= command@.len(),
            all == seq![login(root, *ip)] + texts(command@),
            texts(v@) == all.take(i + 1),
        decreases command.len() - i,
    {
        let ghost before = texts(v@);
        v.push(command[i].clone());
        assert(all[i + 1] == texts(command@)[i as int]);
        assert(texts(v@) == before.push(all[i + 1]));
        assert(all.take(i + 2) == all.take(i + 1).push(all[i + 1]));
        i += 1;
    }
    assert(all.take(i + 1) == all);
    v
}

} // verus!
