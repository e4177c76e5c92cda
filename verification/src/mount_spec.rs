//! Mounts as users write them.
use vstd::prelude::*;
use vstd::string::*;
use vstd::utf8::*;

use crate::foreign::{quoted, quoted_text};
use crate::path::UnixPath;
use crate::text::{
    chars_of, lemma_split_joined, lemma_split_single, pieces, reads, split, split_at_char,
    string_of,
};

verus! {

/// A mount as written by the user: `HOST[:GUEST][:ro|rw]`.
///
/// Without `GUEST`, the directory is mounted at `/mnt/<basename of HOST>`.
#[derive(Debug)]
pub struct MountSpec {
    pub host: UnixPath,
    pub guest: Option<UnixPath>,
    pub read_only: bool,
}

/// A mount as written by the user, as a mathematical value.
pub struct MountSpecView {
    pub host: Seq<u8>,
    pub guest: Option<Seq<u8>>,
    pub read_only: bool,
}

impl View for MountSpec {
    type V = MountSpecView;

    open spec fn view(&self) -> MountSpecView {
        MountSpecView {
            host: self.host@,
            guest: match self.guest {
                Some(guest) => Some(guest@),
                None => None,
            },
            read_only: self.read_only,
        }
    }
}

/// What is wrong with a text that is no mount.
#[derive(Clone, Copy, Debug, PartialEq, Eq, Structural)]
pub enum MountFault {
    /// It has too few or too many parts.
    Form,
    /// The host path is empty.
    EmptyHost,
}

/// A text that is no mount.
#[derive(Debug)]
pub struct MountSpecError {
    pub text: String,
    pub fault: MountFault,
}

impl MountSpecError {
    /// What went wrong, for people.
    pub fn message(&self) -> (s: String)
        ensures
            s@ == "invalid mount "@ + quoted_text(self.text@) + (match self.fault {
                MountFault::Form => ": expected HOST[:GUEST][:ro|rw]"@,
                MountFault::EmptyHost => ": host path is empty"@,
            }),
    {
        let s = "invalid mount ".to_owned().concat(quoted(self.text.as_str()).as_str());
        match self.fault {
            MountFault::Form => s.concat(": expected HOST[:GUEST][:ro|rw]"),
            MountFault::EmptyHost => s.concat(": host path is empty"),
        }
    }
}

/// The parts of a mount without its mode, and whether the mode is `ro`.
pub open spec fn mode_split(parts: Seq<Seq<char>>) -> (Seq<Seq<char>>, bool) {
    if parts.last() == "ro"@ {
        (parts.drop_last(), true)
    } else if parts.last() == "rw"@ {
        (parts.drop_last(), false)
    } else {
        (parts, false)
    }
}

/// The mount that `s` writes.
pub open spec fn mount_of_text(s: Seq<char>) -> Result<MountSpecView, MountFault> {
    let (parts, read_only) = mode_split(split(s, ':'));
    if parts.len() != 1 && parts.len() != 2 {
        Err(MountFault::Form)
    } else if parts[0].len() == 0 {
        Err(MountFault::EmptyHost)
    } else {
        Ok(
            MountSpecView {
                host: encode_utf8(parts[0]),
                guest: if parts.len() == 2 {
                    Some(encode_utf8(parts[1]))
                } else {
                    None
                },
                read_only,
            },
        )
    }
}

/// The path that a piece of text writes.
fn path_of(chars: &Vec<char>) -> (p: UnixPath)
    ensures
        p@ == encode_utf8(chars@),
{
    UnixPath::from_text(string_of(chars.as_slice()).as_str())
}

impl MountSpec {
    /// Reads a mount.
    pub fn parse(s: &str) -> (r: Result<Self, MountSpecError>)
        ensures
            match mount_of_text(s@) {
                Ok(m) => r is Ok && r->Ok_0@ == m,
                Err(fault) => r is Err && r->Err_0.fault == fault && r->Err_0.text@ == s@,
            },
    {
        let chars = chars_of(s);
        let mut parts = split_at_char(chars.as_slice(), ':');
        let ghost all = split(s@, ':');
        let ghost start = parts@;
        let last = parts.len() - 1;
        assert(all.last() == parts@[last as int]@);
        let mut read_only = false;
        if reads(parts[last].as_slice(), "ro") {
            read_only = true;
            let _ = parts.pop();
        } else if reads(parts[last].as_slice(), "rw") {
            let _ = parts.pop();
        }
        let ghost (kept, ro) = mode_split(all);
        assert(pieces(parts@) == kept) by {
            assert(pieces(start.drop_last()) == all.drop_last());
        }
        assert(read_only == ro) by {
            if all.last() == "rw"@ {
                reveal_strlit("ro");
                reveal_strlit("rw");
                assert("ro"@[1] == 'o' && "rw"@[1] == 'w');
            }
        }
        if parts.len() != 1 && parts.len() != 2 {
            return Err(MountSpecError { text: s.to_owned(), fault: MountFault::Form });
        }
        assert(kept[0] == parts@[0]@);
        if parts[0].len() == 0 {
            return Err(MountSpecError { text: s.to_owned(), fault: MountFault::EmptyHost });
        }
        let guest = if parts.len() == 2 {
            assert(kept[1] == parts@[1]@);
            Some(path_of(&parts[1]))
        } else {
            None
        };
        Ok(MountSpec { host: path_of(&parts[0]), guest, read_only })
    }
}

impl core::str::FromStr for MountSpec {
    type Err = MountSpecError;

    fn from_str(s: &str) -> (r: Result<Self, MountSpecError>)
        ensures
            match mount_of_text(s@) {
                Ok(m) => r is Ok && r->Ok_0@ == m,
                Err(fault) => r is Err && r->Err_0.fault == fault && r->Err_0.text@ == s@,
            },
    {
        MountSpec::parse(s)
    }
}

impl Clone for MountSpec {
    fn clone(&self) -> (r: Self)
        ensures
            r@ == self@,
    {
        let guest = match &self.guest {
            Some(guest) => Some(guest.clone()),
            None => None,
        };
        MountSpec { host: self.host.clone(), guest, read_only: self.read_only }
    }
}

// ---------------------------------------------------------------------------
// Laws
// ---------------------------------------------------------------------------

/// A mount written out: the host's directory, and the guest's and the mode
/// where they are given.
pub open spec fn mount_text(
    host: Seq<char>,
    guest: Option<Seq<char>>,
    read_only: Option<bool>,
) -> Seq<char> {
    let paths = match guest {
        Some(guest) => host.push(':') + guest,
        None => host,
    };
    match read_only {
        Some(true) => paths.push(':') + "ro"@,
        Some(false) => paths.push(':') + "rw"@,
        None => paths,
    }
}

/// Whether `s` reads like a mode.
pub open spec fn is_mode(s: Seq<char>) -> bool {
    s == "ro"@ || s == "rw"@
}

/// `HOST[:GUEST][:ro|rw]` reads as the host, guest and mode it was written
/// from; without a mode the mount is writable. The paths may not hold a colon,
/// and without a mode the last of them may not read like one.
pub proof fn law_mounts_read_back(
    host: Seq<char>,
    guest: Option<Seq<char>>,
    read_only: Option<bool>,
)
    requires
        host.len() > 0,
        !host.contains(':'),
        guest is Some ==> !guest->0.contains(':'),
        read_only is None ==> !is_mode(
            if guest is Some {
                guest->0
            } else {
                host
            },
        ),
    ensures
        mount_of_text(mount_text(host, guest, read_only)) == Ok::<MountSpecView, MountFault>(
            MountSpecView {
                host: encode_utf8(host),
                guest: match guest {
                    Some(g) => Some(encode_utf8(g)),
                    None => None,
                },
                read_only: read_only == Some(true),
            },
        ),
{
    reveal_strlit("ro");
    reveal_strlit("rw");
    let c = ':';
    lemma_split_single(host, c);
    let paths = match guest {
        Some(g) => host.push(c) + g,
        None => host,
    };
    let list = match guest {
        Some(g) => seq![host, g],
        None => seq![host],
    };
    if guest is Some {
        lemma_split_single(guest->0, c);
        lemma_split_joined(host, c, guest->0);
        assert(seq![host] + seq![guest->0] == seq![host, guest->0]);
    }
    assert(split(paths, c) == list);
    let s = mount_text(host, guest, read_only);
    match read_only {
        Some(ro) => {
            let mode = if ro {
                "ro"@
            } else {
                "rw"@
            };
            assert(!mode.contains(c));
            lemma_split_single(mode, c);
            lemma_split_joined(paths, c, mode);
            assert(split(s, c) == list + seq![mode]);
            assert((list + seq![mode]).last() == mode);
            assert((list + seq![mode]).drop_last() == list);
            assert("ro"@[1] != "rw"@[1]);
        },
        None => {
            assert(split(s, c) == list);
        },
    }
}

} // verus!
