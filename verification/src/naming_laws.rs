//! What projects, images and files are called.
use vstd::prelude::*;
use vstd::string::*;
use vstd::utf8::*;

use crate::component_laws::{law_file_names, plain};
use crate::foreign::{text_of, uuid_v5_text};
use crate::image::{downloads_dir_of, raw_of};
use crate::number::{dec, lemma_dec_value};
use crate::order::bytes_less;
use crate::path::{file_name, join};
use crate::paths::{
    cache_dir_of, file_url_of, id_of, image_char, name_less, project_id_of,
    root_uuid, sanitized, valid_image_name, NAMESPACE_URL,
};
use crate::project_vm::{partial_dir_of, vm_dir_of};
use crate::provision::{image_dir_of, image_partial_dir_of};
use crate::session::login;
use crate::sign::{copy_name, entitled_of, Entitled};
use crate::util::stderr_text;
use crate::vm::config::{disks_of, DiskView};
use crate::vm::net::Ipv4;

verus! {

// ---------------------------------------------------------------------------
// Projects
// ---------------------------------------------------------------------------

/// Whether the character with this code stays in an ID: ASCII letters and
/// digits, hyphens, dots and underscores.
pub open spec fn kept_code(c: int) -> bool {
    48 <= c < 58 || 65 <= c < 91 || 97 <= c < 123 || c == 45 || c == 46 || c == 95
}

/// A project's ID is its folder's name, each character that is no ASCII
/// letter, digit, hyphen, dot or underscore replaced by an underscore, one more
/// underscore, and the UUID.
pub proof fn law_ids(name: Seq<char>, uuid: Seq<char>, i: int)
    ensures
        id_of(name, uuid).len() == name.len() + 1 + uuid.len(),
        id_of(name, uuid).skip(name.len() as int + 1) == uuid,
        id_of(name, uuid)[name.len() as int] == '_',
        0 <= i < name.len() && kept_code(name[i] as int) ==> id_of(name, uuid)[i] == name[i],
        0 <= i < name.len() && !kept_code(name[i] as int) ==> id_of(name, uuid)[i] == '_',
{
    let id = id_of(name, uuid);
    assert(id.skip(name.len() as int + 1) =~= uuid);
    if 0 <= i < name.len() {
        assert(id[i] == sanitized(name)[i]);
    }
}

/// The ID of a project goes by the name of its directory and by all of its
/// path, as a `file://` URL; the root directory is called `root`.
pub proof fn law_project_ids(dir: Seq<u8>, name: Seq<u8>, root: Seq<u8>)
    requires
        dir.len() > 0,
        plain(name),
    ensures
        project_id_of(join(dir, name)) == id_of(text_of(name), root_uuid(join(dir, name))),
        project_id_of(seq![47u8]) == id_of("root"@, root_uuid(seq![47u8])),
        file_name(root) is None ==> project_id_of(root) == id_of("root"@, root_uuid(root)),
        root_uuid(root) == uuid_v5_text(NAMESPACE_URL, file_url_of(root)),
        file_url_of(root) == seq![102u8, 105u8, 108u8, 101u8, 58u8, 47u8, 47u8] + root,
{
    law_file_names(dir, name);
    reveal_strlit("file://");
    is_ascii_chars_encode_utf8("file://"@);
    assert(encode_utf8("file://"@) =~= seq![102u8, 105u8, 108u8, 101u8, 58u8, 47u8, 47u8]);
}

/// The VM of a project is kept in the directory of its ID below `.sendit`, and
/// built in a hidden one beside it.
pub proof fn law_vm_places(home: Seq<u8>, id: Seq<char>)
    ensures
        vm_dir_of(home, id) == join(join(home, encode_utf8(".sendit"@)), encode_utf8(id)),
        partial_dir_of(home, id) == join(
            join(home, encode_utf8(".sendit"@)),
            encode_utf8(seq!['.'] + id + seq!['.', 'p', 'a', 'r', 't', 'i', 'a', 'l']),
        ),
{
    reveal_strlit(".");
    reveal_strlit(".partial");
    assert("."@ =~= seq!['.']);
    assert(".partial"@ =~= seq!['.', 'p', 'a', 'r', 't', 'i', 'a', 'l']);
}

// ---------------------------------------------------------------------------
// Images
// ---------------------------------------------------------------------------

/// Whether the character with this code may stand in an image's name: small
/// ASCII letters, digits, hyphens and underscores.
pub open spec fn image_code(c: int) -> bool {
    48 <= c < 58 || 97 <= c < 123 || c == 45 || c == 95
}

/// An image's name is one or more small letters, digits, hyphens and
/// underscores, a letter or digit first.
pub proof fn law_image_names(s: Seq<char>)
    ensures
        valid_image_name(s) <==> s.len() > 0 && s[0] as int != 45 && s[0] as int != 95 && forall|
            i: int,
        |
            0 <= i < s.len() ==> image_code(#[trigger] s[i] as int),
{
    if valid_image_name(s) {
        assert forall|i: int| 0 <= i < s.len() implies image_code(#[trigger] s[i] as int) by {
            assert(image_char(s[i]));
        }
    }
    if s.len() > 0 && s[0] as int != 45 && s[0] as int != 95 && (forall|i: int|
        0 <= i < s.len() ==> image_code(#[trigger] s[i] as int)) {
        assert forall|i: int| 0 <= i < s.len() implies image_char(#[trigger] s[i]) by {
            assert(image_code(s[i] as int));
        }
    }
}

/// Images are ordered by the bytes of their names.
pub proof fn law_image_order(a: Seq<char>, b: Seq<char>)
    ensures
        name_less(a, b) <==> bytes_less(encode_utf8(a), encode_utf8(b)),
{
}

/// The default image is kept in `base`, and any other in a directory of its
/// name below `images`; each is built in a directory that is called the same,
/// but for `.partial` at its end.
pub proof fn law_image_places(home: Seq<u8>, image: Seq<char>)
    ensures
        image_dir_of(home, "default"@) == join(cache_dir_of(home), encode_utf8("base"@)),
        image_partial_dir_of(home, "default"@) == join(
            cache_dir_of(home),
            encode_utf8("base.partial"@),
        ),
        image != "default"@ ==> image_dir_of(home, image) == join(
            join(cache_dir_of(home), encode_utf8("images"@)),
            encode_utf8(image),
        ),
        image != "default"@ ==> image_partial_dir_of(home, image) == join(
            join(cache_dir_of(home), encode_utf8("images"@)),
            encode_utf8(image + ".partial"@),
        ),
        cache_dir_of(home) == join(home, encode_utf8(".cache/sendit"@)),
{
}

// ---------------------------------------------------------------------------
// Signing, logins and disks
// ---------------------------------------------------------------------------

/// A process goes on if it has the entitlement, signs itself if it was not
/// signed yet, and else gives up.
pub proof fn law_entitlement(signed: bool)
    ensures
        entitled_of(true, signed) == Entitled::Yes,
        entitled_of(false, false) == Entitled::Sign,
        entitled_of(false, true) == Entitled::Never,
{
}

/// The copy that is signed is hidden and has the process's ID in its name, so
/// processes that sign at the same time sign different copies.
pub proof fn law_copies_differ(name: Seq<u8>, pid: u32, other: u32)
    requires
        pid != other,
    ensures
        copy_name(name, pid) != copy_name(name, other),
        copy_name(name, pid) == seq!['.'] + text_of(name) + ".signing-"@ + dec(pid as nat),
{
    reveal_strlit(".");
    assert("."@ =~= seq!['.']);
    lemma_dec_value(pid as nat);
    lemma_dec_value(other as nat);
    let head = "."@ + text_of(name) + ".signing-"@;
    let a = head + dec(pid as nat);
    let b = head + dec(other as nat);
    if a == b {
        assert(a.skip(head.len() as int) == dec(pid as nat));
        assert(b.skip(head.len() as int) == dec(other as nat));
    }
}

/// A session is for root if that is asked for, and else for the guest's user,
/// at the VM's address.
pub proof fn law_logins(ip: Ipv4)
    ensures
        login(true, ip) == "root@"@ + ip.text(),
        login(false, ip) == "dev@"@ + ip.text(),
{
    reveal_strlit("root");
    reveal_strlit("dev");
    reveal_strlit("@");
    reveal_strlit("root@");
    reveal_strlit("dev@");
    assert("root"@ + "@"@ =~= "root@"@);
    assert("dev"@ + "@"@ =~= "dev@"@);
}

/// A VM's own disk comes first and is writable; a seed disk follows, to be
/// read only.
pub proof fn law_disks(dir: Seq<u8>, seed: crate::path::UnixPath)
    ensures
        disks_of(dir, None) == seq![
            DiskView { image: join(dir, encode_utf8("disk.img"@)), read_only: false },
        ],
        disks_of(dir, Some(seed)) == seq![
            DiskView { image: join(dir, encode_utf8("disk.img"@)), read_only: false },
            DiskView { image: seed@, read_only: true },
        ],
{
    assert(disks_of(dir, Some(seed)) =~= seq![
        DiskView { image: join(dir, encode_utf8("disk.img"@)), read_only: false },
        DiskView { image: seed@, read_only: true },
    ]);
}

/// What a command wrote to stderr is passed on without the white space around
/// it.
pub proof fn law_stderr(a: Seq<char>, text: Seq<char>, b: Seq<char>)
    requires
        crate::text_laws::all_white(a),
        crate::text_laws::snug(text),
        crate::text_laws::all_white(b),
    ensures
        stderr_text(encode_utf8(a + text + b)) == text,
{
    encode_utf8_valid_utf8(a + text + b);
    encode_utf8_decode_utf8(a + text + b);
    crate::text_laws::law_trim(a, text, b);
}

/// Downloads and the unpacked Debian image are kept in `downloads`.
pub proof fn law_download_places(home: Seq<u8>)
    ensures
        downloads_dir_of(home) == join(cache_dir_of(home), encode_utf8("downloads"@)),
        raw_of(home) == join(
            downloads_dir_of(home),
            encode_utf8("debian-13-genericcloud-arm64.raw"@),
        ),
{
}

} // verus!
