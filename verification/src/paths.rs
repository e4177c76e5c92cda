//! Where sendit keeps its state. Nothing is ever written into project folders:
//!
//! - `~/.cache/sendit/`: downloads, the provisioned base images, provisioning scratch
//! - `~/.sendit/<project>_<uuid>/`: one directory per project VM
//! - `~/.config/sendit/config.toml`: user configuration
//! - `~/.config/sendit/provision-scripts/`: custom provisioning scripts for the base image
use vstd::prelude::*;
use vstd::string::*;
use vstd::utf8::*;

use crate::foreign::{quoted, quoted_text, readable, text_of, uuid_char, uuid_v5, uuid_v5_text};
use crate::host::{Found, Lookup};
use crate::order::{rank_bytes, Rank};
use crate::path::{
    body, components, copy_bytes, file_name, join, push_bytes, remainder, render, rooted, same_path,
    strip_prefix, Part, UnixPath, DOT, SLASH,
};
use crate::path_laws::{
    lemma_join_components, lemma_join_one, lemma_join_utf8, lemma_remainder, lemma_remainder_utf8,
    lemma_render_components, proper_name,
};
use crate::project_vm::{partial_dir_of, vm_dir_of};
use crate::provision::{image_dir_of, image_partial_dir_of};
use crate::text::{chars_of, lemma_split_single, split, starts_with};

verus! {

/// The directories below one home directory.
#[derive(Debug)]
pub struct Paths {
    pub home: UnixPath,
}

impl View for Paths {
    type V = Seq<u8>;

    /// The home directory.
    open spec fn view(&self) -> Seq<u8> {
        self.home@
    }
}

/// The path written as `s` below the directory `base`.
pub open spec fn below(base: Seq<u8>, s: &str) -> Seq<u8> {
    join(base, encode_utf8(s@))
}

pub open spec fn cache_dir_of(home: Seq<u8>) -> Seq<u8> {
    below(home, ".cache/sendit")
}

pub open spec fn base_dir_of(home: Seq<u8>) -> Seq<u8> {
    below(cache_dir_of(home), "base")
}

pub open spec fn vms_dir_of(home: Seq<u8>) -> Seq<u8> {
    below(home, ".sendit")
}

pub const TILDE: u8 = 126;

/// A path with a leading `~` expanded to the home directory.
pub open spec fn expanded(home: Seq<u8>, path: Seq<u8>) -> Seq<u8> {
    match strip_prefix(path, encode_utf8("~"@)) {
        Some(rest) => join(home, rest),
        None => path,
    }
}

/// A path as shown to people: below the home directory it starts with `~`.
pub open spec fn shown(home: Seq<u8>, path: Seq<u8>) -> Seq<u8> {
    match strip_prefix(path, home) {
        Some(rest) => join(encode_utf8("~"@), rest),
        None => path,
    }
}

impl Paths {
    pub fn new(home: UnixPath) -> (p: Self)
        ensures
            p@ == home@,
    {
        Paths { home }
    }

    pub fn home(&self) -> (p: &UnixPath)
        ensures
            p@ == self@,
    {
        &self.home
    }

    pub fn cache_dir(&self) -> (p: UnixPath)
        ensures
            p@ == cache_dir_of(self@),
    {
        self.home.join_text(".cache/sendit")
    }

    /// Downloaded Debian cloud images and their checksums.
    pub fn downloads_dir(&self) -> (p: UnixPath)
        ensures
            p@ == below(cache_dir_of(self@), "downloads"),
    {
        self.cache_dir().join_text("downloads")
    }

    /// The provisioned base image that project VMs are cloned from.
    pub fn base_dir(&self) -> (p: UnixPath)
        ensures
            p@ == base_dir_of(self@),
    {
        self.cache_dir().join_text("base")
    }

    /// Where a base image is built before it replaces `base_dir`.
    pub fn base_partial_dir(&self) -> (p: UnixPath)
        ensures
            p@ == below(cache_dir_of(self@), "base.partial"),
    {
        self.cache_dir().join_text("base.partial")
    }

    /// Scratch space for provisioning runs (seed ISO, console log).
    pub fn provision_dir(&self) -> (p: UnixPath)
        ensures
            p@ == below(cache_dir_of(self@), "provision"),
    {
        self.cache_dir().join_text("provision")
    }

    /// The keypair whose public key is baked into the base image.
    pub fn ssh_dir(&self) -> (p: UnixPath)
        ensures
            p@ == below(cache_dir_of(self@), "ssh"),
    {
        self.cache_dir().join_text("ssh")
    }

    pub fn config_file(&self) -> (p: UnixPath)
        ensures
            p@ == below(self@, ".config/sendit/config.toml"),
    {
        self.home.join_text(".config/sendit/config.toml")
    }

    /// Custom provisioning scripts (`*.sh`), run in name order after the
    /// built-in provisioning of the base image.
    pub fn provision_scripts_dir(&self) -> (p: UnixPath)
        ensures
            p@ == below(self@, ".config/sendit/provision-scripts"),
    {
        self.home.join_text(".config/sendit/provision-scripts")
    }

    /// Parent of all project VM directories.
    pub fn vms_dir(&self) -> (p: UnixPath)
        ensures
            p@ == vms_dir_of(self@),
    {
        self.home.join_text(".sendit")
    }

    pub fn vm_dir(&self, project: &Project) -> (p: UnixPath)
        ensures
            p@ == join(vms_dir_of(self@), encode_utf8(project.id@)),
    {
        self.vms_dir().join_text(project.id.as_str())
    }

    /// Expands a leading `~` to the home directory.
    pub fn expand_tilde(&self, path: &UnixPath) -> (p: UnixPath)
        ensures
            p@ == expanded(self@, path@),
    {
        match path.strip_prefix(&UnixPath::from_text("~")) {
            Some(rest) => self.home.join(&rest),
            None => path.clone(),
        }
    }

    /// Shortens paths below the home directory to `~/…` for display.
    pub fn display(&self, path: &UnixPath) -> (s: String)
        ensures
            s@ == text_of(shown(self@, path@)),
    {
        match path.strip_prefix(&self.home) {
            Some(rest) => UnixPath::from_text("~").join(&rest).display(),
            None => path.display(),
        }
    }
}

/// A project directory and the stable ID of its VM.
#[derive(Debug)]
pub struct Project {
    /// Canonical absolute path of the project directory.
    pub root: UnixPath,
    /// `<sanitized folder name>_<UUIDv5 of root>`.
    pub id: String,
}

/// A project, as a mathematical value.
pub struct ProjectView {
    pub root: Seq<u8>,
    pub id: Seq<char>,
}

impl View for Project {
    type V = ProjectView;

    open spec fn view(&self) -> ProjectView {
        ProjectView { root: self.root@, id: self.id@ }
    }
}

/// The project in a directory where the host found `found`; none if that is
/// no directory.
pub open spec fn project_in(found: Found) -> Option<ProjectView> {
    match found {
        Found::Directory(root) => Some(ProjectView { root, id: project_id_of(root) }),
        _ => None,
    }
}

/// Why a directory can't be a project.
#[derive(Debug)]
pub enum ProjectError {
    /// The directory could not be resolved, for this reason.
    Unresolved { dir: UnixPath, reason: String },
    /// It is something else.
    NotADirectory { root: UnixPath },
}

impl ProjectError {
    pub open spec fn text(self) -> Seq<char> {
        match self {
            ProjectError::Unresolved { dir, .. } => "project directory "@ + text_of(dir@),
            ProjectError::NotADirectory { root } => text_of(root@) + " is not a directory"@,
        }
    }

    /// What went wrong, for people.
    pub fn message(&self) -> (s: String)
        ensures
            s@ == self.text(),
    {
        match self {
            ProjectError::Unresolved { dir, .. } => "project directory ".to_owned().concat(
                dir.display().as_str(),
            ),
            ProjectError::NotADirectory { root } => root.display().concat(" is not a directory"),
        }
    }
}

impl Project {
    /// The project in `dir`, given what the host found there.
    pub fn at(dir: &UnixPath, found: &Lookup) -> (r: Result<Self, ProjectError>)
        ensures
            r is Ok <==> project_in(found@) is Some,
            r is Ok ==> r->Ok_0@ == project_in(found@)->0,
            match found@ {
                Found::Directory(root) => uuid_form(root_uuid(root)) && safe_id(
                    project_id_of(root),
                ),
                Found::Other(path) => r is Err && r->Err_0 is NotADirectory
                    && r->Err_0->root@ == path,
                Found::Failed(reason) => r is Err && r->Err_0 is Unresolved && r->Err_0->dir@
                    == dir@ && r->Err_0->reason@ == reason,
            },
    {
        match found {
            Lookup::Failed(reason) => Err(
                ProjectError::Unresolved { dir: dir.clone(), reason: reason.clone() },
            ),
            Lookup::Other(path) => Err(ProjectError::NotADirectory { root: path.clone() }),
            Lookup::Directory(root) => {
                let id = project_id(root);
                Ok(Project { root: root.clone(), id })
            },
        }
    }
}

/// A character that a project ID keeps.
pub open spec fn id_char(c: char) -> bool {
    'a' <= c <= 'z' || 'A' <= c <= 'Z' || '0' <= c <= '9' || c == '-' || c == '_' || c == '.'
}

/// A folder name with all characters that an ID doesn't keep replaced.
pub open spec fn sanitized(name: Seq<char>) -> Seq<char> {
    Seq::new(
        name.len(),
        |i: int|
            if id_char(name[i]) {
                name[i]
            } else {
                '_'
            },
    )
}

/// The namespace of UUIDs made from URLs.
pub const NAMESPACE_URL: u128 = 0x6ba7b811_9dad_11d1_80b4_00c04fd430c8;

/// The folder name that stands in a project's ID.
pub open spec fn id_name(root: Seq<u8>) -> Seq<char> {
    match file_name(root) {
        Some(name) => text_of(name),
        None => "root"@,
    }
}

/// The `file://` URL of a path.
pub open spec fn file_url_of(path: Seq<u8>) -> Seq<u8> {
    encode_utf8("file://"@) + path
}

/// The ID made of a folder's name and a UUID.
pub open spec fn id_of(name: Seq<char>, uuid: Seq<char>) -> Seq<char> {
    sanitized(name).push('_') + uuid
}

/// The UUID of the project at `root`, as text.
pub open spec fn root_uuid(root: Seq<u8>) -> Seq<char> {
    uuid_v5_text(NAMESPACE_URL, file_url_of(root))
}

/// The form of a UUID's text.
pub open spec fn uuid_form(uuid: Seq<char>) -> bool {
    uuid.len() == 36 && forall|i: int| 0 <= i < uuid.len() ==> uuid_char(#[trigger] uuid[i])
}

/// The ID of the project at `root`.
pub open spec fn project_id_of(root: Seq<u8>) -> Seq<char> {
    id_of(id_name(root), root_uuid(root))
}

/// The ID made of a folder's name, made safe for a file name, and a UUID.
pub fn join_id(name: &str, uuid: &str) -> (id: String)
    ensures
        id@ == id_of(name@, uuid@),
{
    let chars = chars_of(name);
    let mut id = String::new();
    let mut i: usize = 0;
    while i < chars.len()
        invariant
            i <= chars@.len(),
            id@ == sanitized(chars@).take(i as int),
        decreases chars.len() - i,
    {
        let c = chars[i];
        if ('a' <= c && c <= 'z') || ('A' <= c && c <= 'Z') || ('0' <= c && c <= '9') || c == '-'
            || c == '_' || c == '.' {
            id.push(c);
        } else {
            id.push('_');
        }
        i += 1;
    }
    id.push('_');
    id.append(uuid);
    id
}

/// The ID of the project at `root`: its folder's name, made safe for a file
/// name, and a UUID of its path.
pub fn project_id(root: &UnixPath) -> (id: String)
    ensures
        id@ == project_id_of(root@),
        uuid_form(root_uuid(root@)),
        safe_id(id@),
{
    let name = match root.file_name() {
        Some(name) => readable(name.as_slice()),
        None => "root".to_owned(),
    };
    let url = file_url(root);
    let uuid = uuid_v5(NAMESPACE_URL, url.as_slice());
    let id = join_id(name.as_str(), uuid.as_str());
    proof {
        lemma_id_is_safe(name@, uuid@);
    }
    id
}

/// The ID made of a folder's name and a UUID is safe as a directory's name.
proof fn lemma_id_is_safe(name: Seq<char>, uuid: Seq<char>)
    requires
        uuid_form(uuid),
    ensures
        safe_id(id_of(name, uuid)),
{
    let lead = sanitized(name).push('_');
    let id = id_of(name, uuid);
    assert(uuid_char(uuid[35]));
    assert forall|i: int| 0 <= i < id.len() implies id_char(#[trigger] id[i]) by {
        if i >= lead.len() {
            assert(id[i] == uuid[i - lead.len()]);
            assert(uuid_char(uuid[i - lead.len()]));
        }
    }
}

/// The `file://` URL of a path.
fn file_url(path: &UnixPath) -> (url: Vec<u8>)
    ensures
        url@ == file_url_of(path@),
{
    let mut url = copy_bytes("file://".as_bytes());
    push_bytes(&mut url, path.bytes.as_slice());
    url
}

/// Text that is safe as the name of a directory: only characters that an ID
/// keeps, too many to be a dot or two, and the end of a UUID last.
pub open spec fn safe_id(id: Seq<char>) -> bool {
    &&& id.len() > 2
    &&& uuid_char(id.last())
    &&& forall|i: int| 0 <= i < id.len() ==> id_char(#[trigger] id[i])
}

// ---------------------------------------------------------------------------
// Image names
// ---------------------------------------------------------------------------

/// The name of a base image.
#[derive(Debug)]
pub struct ImageName {
    name: String,
}

/// A character of an image name.
pub open spec fn image_char(c: char) -> bool {
    'a' <= c <= 'z' || '0' <= c <= '9' || c == '-' || c == '_'
}

/// Names of images: lower-case letters, digits, hyphens and underscores, a
/// letter or digit first.
pub open spec fn valid_image_name(s: Seq<char>) -> bool {
    &&& s.len() > 0
    &&& s[0] != '-' && s[0] != '_'
    &&& forall|i: int| 0 <= i < s.len() ==> image_char(#[trigger] s[i])
}

impl View for ImageName {
    type V = Seq<char>;

    closed spec fn view(&self) -> Seq<char> {
        self.name@
    }
}

/// A text that is no name of an image.
#[derive(Debug)]
pub struct ImageNameError {
    pub name: String,
}

impl ImageNameError {
    /// What went wrong, for people.
    pub fn message(&self) -> (s: String)
        ensures
            s@ == "invalid image name "@ + quoted_text(self.name@)
                + ": expected lower-case letters, digits, - and _"@,
    {
        "invalid image name ".to_owned().concat(quoted(self.name.as_str()).as_str()).concat(
            ": expected lower-case letters, digits, - and _",
        )
    }
}

impl ImageName {
    #[verifier::type_invariant]
    spec fn valid(&self) -> bool {
        valid_image_name(self.name@)
    }

    /// The image named `s`.
    pub fn parse(s: &str) -> (r: Result<Self, ImageNameError>)
        ensures
            r is Ok <==> valid_image_name(s@),
            r is Ok ==> r->Ok_0@ == s@,
            r is Err ==> r->Err_0.name@ == s@,
    {
        let chars = chars_of(s);
        if chars.len() == 0 || chars[0] == '-' || chars[0] == '_' {
            return Err(ImageNameError { name: s.to_owned() });
        }
        let mut i: usize = 0;
        while i < chars.len()
            invariant
                i <= chars@.len(),
                chars@ == s@,
                forall|j: int| 0 <= j < i ==> image_char(#[trigger] s@[j]),
            decreases chars.len() - i,
        {
            let c = chars[i];
            if !(('a' <= c && c <= 'z') || ('0' <= c && c <= '9') || c == '-' || c == '_') {
                assert(!image_char(s@[i as int]));
                return Err(ImageNameError { name: s.to_owned() });
            }
            i += 1;
        }
        Ok(ImageName { name: s.to_owned() })
    }

    pub fn as_str(&self) -> (s: &str)
        ensures
            s@ == self@,
            valid_image_name(self@),
    {
        proof {
            use_type_invariant(self);
        }
        self.name.as_str()
    }

    /// The name for people to read.
    pub fn to_string(&self) -> (s: String)
        ensures
            s@ == self@,
    {
        self.name.clone()
    }

    /// Compares two names.
    pub fn rank(&self, other: &ImageName) -> (r: Rank)
        ensures
            r == Rank::Before <==> name_less(self@, other@),
            r == Rank::Same <==> self@ == other@,
            r == Rank::After <==> name_less(other@, self@),
    {
        proof {
            encode_utf8_decode_utf8(self@);
            encode_utf8_decode_utf8(other@);
        }
        rank_bytes(self.name.as_str().as_bytes(), other.name.as_str().as_bytes())
    }
}

/// The order of names: by their bytes.
pub open spec fn name_less(a: Seq<char>, b: Seq<char>) -> bool {
    crate::order::bytes_less(encode_utf8(a), encode_utf8(b))
}

impl core::str::FromStr for ImageName {
    type Err = ImageNameError;

    fn from_str(s: &str) -> (r: Result<Self, ImageNameError>)
        ensures
            r is Ok <==> valid_image_name(s@),
            r is Ok ==> r->Ok_0@ == s@,
            r is Err ==> r->Err_0.name@ == s@,
    {
        ImageName::parse(s)
    }
}

impl Clone for ImageName {
    fn clone(&self) -> (r: Self)
        ensures
            r@ == self@,
    {
        proof {
            use_type_invariant(self);
        }
        ImageName { name: self.name.clone() }
    }
}

impl Default for ImageName {
    /// The image that a new VM is created from unless another is chosen.
    fn default() -> (r: Self)
        ensures
            r@ == "default"@,
    {
        proof {
            reveal_strlit("default");
        }
        ImageName { name: "default".to_owned() }
    }
}

impl PartialEq for ImageName {
    fn eq(&self, other: &Self) -> (r: bool) {
        self.name == other.name
    }
}

impl vstd::std_specs::cmp::PartialEqSpecImpl for ImageName {
    open spec fn obeys_eq_spec() -> bool {
        true
    }

    open spec fn eq_spec(&self, other: &Self) -> bool {
        self@ == other@
    }
}

// ---------------------------------------------------------------------------
// Laws
// ---------------------------------------------------------------------------

/// Three or more characters that an ID keeps are a name.
pub proof fn lemma_id_is_name(id: Seq<char>)
    requires
        id.len() > 2,
        forall|i: int| 0 <= i < id.len() ==> id_char(#[trigger] id[i]),
    ensures
        proper_name(encode_utf8(id)),
{
    assert(is_ascii_chars(id));
    is_ascii_chars_encode_utf8(id);
    let b = encode_utf8(id);
    assert(b.len() > 2);
    assert forall|i: int| 0 <= i < b.len() implies b[i] != SLASH by {
        assert(id_char(id[i]));
    }
}

pub proof fn lemma_vms_dir(home: Seq<u8>)
    ensures
        vms_dir_of(home).len() > 0,
{
    reveal_strlit(".sendit");
    is_ascii_chars_encode_utf8(".sendit"@);
}

/// The VM directory of a project is its ID, directly below the directory of
/// all VMs, and projects with different IDs have different directories.
pub proof fn law_vm_dirs(home: Seq<u8>, id: Seq<char>, other: Seq<char>)
    requires
        safe_id(id),
        safe_id(other),
    ensures
        components(join(vms_dir_of(home), encode_utf8(id))) == components(vms_dir_of(home)).push(
            Part::Normal(encode_utf8(id)),
        ),
        id != other ==> !same_path(
            join(vms_dir_of(home), encode_utf8(id)),
            join(vms_dir_of(home), encode_utf8(other)),
        ),
{
    lemma_vms_dir(home);
    lemma_id_is_name(id);
    lemma_id_is_name(other);
    lemma_join_one(vms_dir_of(home), encode_utf8(id));
    lemma_join_one(vms_dir_of(home), encode_utf8(other));
    encode_utf8_decode_utf8(id);
    encode_utf8_decode_utf8(other);
    let c = components(vms_dir_of(home));
    assert(c.push(Part::Normal(encode_utf8(id))).last() == Part::Normal(encode_utf8(id)));
    assert(c.push(Part::Normal(encode_utf8(other))).last() == Part::Normal(encode_utf8(other)));
}

/// A project is found again at its root, where the host finds the root at
/// itself, as it does with canonical paths; and all spellings of one directory
/// give the same project.
pub proof fn law_project_is_found_again(
    look: spec_fn(Seq<u8>) -> Found,
    dir: Seq<u8>,
    spelling: Seq<u8>,
)
    requires
        project_in(look(dir)) is Some,
        look(project_in(look(dir))->0.root) == Found::Directory(project_in(look(dir))->0.root),
    ensures
        look(dir) == Found::Directory(project_in(look(dir))->0.root),
        project_in(look(dir))->0.id == project_id_of(project_in(look(dir))->0.root),
        project_in(look(project_in(look(dir))->0.root)) == project_in(look(dir)),
        look(spelling) == look(dir) ==> project_in(look(spelling)) == project_in(look(dir)),
{
}

/// Two projects don't use the same VM: where the UUIDs of their paths differ,
/// so do their IDs and the directories of their VMs, whatever the projects are
/// called.
pub proof fn law_projects_have_their_own_vms(home: Seq<u8>, root: Seq<u8>, other: Seq<u8>)
    ensures
        uuid_form(root_uuid(root)) && uuid_form(root_uuid(other)) && root_uuid(root) != root_uuid(
            other,
        ) ==> project_id_of(root) != project_id_of(other) && !same_path(
            join(vms_dir_of(home), encode_utf8(project_id_of(root))),
            join(vms_dir_of(home), encode_utf8(project_id_of(other))),
        ),
{
    let a = root_uuid(root);
    let b = root_uuid(other);
    if uuid_form(a) && uuid_form(b) && a != b {
        let id = project_id_of(root);
        let second = project_id_of(other);
        assert(id.skip(id.len() - 36) == a);
        assert(second.skip(second.len() - 36) == b);
        lemma_id_is_safe(id_name(root), a);
        lemma_id_is_safe(id_name(other), b);
        law_vm_dirs(home, id, second);
    }
}

/// Whether `path` is the directory `dir` or lies below it.
pub open spec fn inside(path: Seq<u8>, dir: Seq<u8>) -> bool {
    starts_with(components(path), components(dir))
}

/// A relative path below a directory lies wherever the directory does.
proof fn lemma_inside(dir: Seq<u8>, base: Seq<u8>, p: Seq<u8>)
    requires
        base.len() > 0,
        inside(base, dir),
        !rooted(p),
    ensures
        inside(join(base, p), dir),
{
    lemma_join_components(base, p);
    let n = components(dir).len() as int;
    let c = components(join(base, p));
    assert(c.take(n) == components(base).take(n));
}

/// All state is kept below the home directory: downloads, images and where
/// they are built, scratch space, keys, the VMs and where they are built, and
/// the configuration.
pub proof fn law_state_is_below_home(home: Seq<u8>, image: Seq<char>, id: Seq<char>)
    requires
        home.len() > 0,
        valid_image_name(image),
        safe_id(id),
    ensures
        inside(cache_dir_of(home), home),
        inside(below(cache_dir_of(home), "downloads"), home),
        inside(base_dir_of(home), home),
        inside(below(cache_dir_of(home), "base.partial"), home),
        inside(below(cache_dir_of(home), "provision"), home),
        inside(below(cache_dir_of(home), "ssh"), home),
        inside(below(cache_dir_of(home), "images"), home),
        inside(image_dir_of(home, image), home),
        inside(image_partial_dir_of(home, image), home),
        inside(vms_dir_of(home), home),
        inside(vm_dir_of(home, id), home),
        inside(partial_dir_of(home, id), home),
        inside(below(home, ".config/sendit/config.toml"), home),
        inside(below(home, ".config/sendit/provision-scripts"), home),
{
    assert(components(home).take(components(home).len() as int) == components(home));
    let cache = cache_dir_of(home);
    let images = below(cache, "images");
    let vms = vms_dir_of(home);
    reveal_strlit(".cache/sendit");
    is_ascii_chars_encode_utf8(".cache/sendit"@);
    lemma_inside(home, home, encode_utf8(".cache/sendit"@));
    reveal_strlit("downloads");
    is_ascii_chars_encode_utf8("downloads"@);
    lemma_inside(home, cache, encode_utf8("downloads"@));
    reveal_strlit("base");
    is_ascii_chars_encode_utf8("base"@);
    lemma_inside(home, cache, encode_utf8("base"@));
    reveal_strlit("base.partial");
    is_ascii_chars_encode_utf8("base.partial"@);
    lemma_inside(home, cache, encode_utf8("base.partial"@));
    reveal_strlit("provision");
    is_ascii_chars_encode_utf8("provision"@);
    lemma_inside(home, cache, encode_utf8("provision"@));
    reveal_strlit("ssh");
    is_ascii_chars_encode_utf8("ssh"@);
    lemma_inside(home, cache, encode_utf8("ssh"@));
    reveal_strlit("images");
    is_ascii_chars_encode_utf8("images"@);
    lemma_inside(home, cache, encode_utf8("images"@));
    reveal_strlit(".partial");
    assert(image_char(image[0]));
    assert(is_ascii_chars(image));
    is_ascii_chars_encode_utf8(image);
    lemma_inside(home, images, encode_utf8(image));
    let built = image + ".partial"@;
    assert(is_ascii_chars(built));
    is_ascii_chars_encode_utf8(built);
    assert(built[0] == image[0]);
    lemma_inside(home, images, encode_utf8(built));
    reveal_strlit(".sendit");
    is_ascii_chars_encode_utf8(".sendit"@);
    lemma_inside(home, home, encode_utf8(".sendit"@));
    lemma_id_is_name(id);
    lemma_inside(home, vms, encode_utf8(id));
    reveal_strlit(".");
    let new = "."@ + id + ".partial"@;
    assert forall|i: int| 0 <= i < new.len() implies id_char(#[trigger] new[i]) by {
        if 1 <= i <= id.len() {
            assert(new[i] == id[i - 1]);
        }
    }
    lemma_id_is_name(new);
    lemma_inside(home, vms, encode_utf8(new));
    reveal_strlit(".config/sendit/config.toml");
    is_ascii_chars_encode_utf8(".config/sendit/config.toml"@);
    lemma_inside(home, home, encode_utf8(".config/sendit/config.toml"@));
    reveal_strlit(".config/sendit/provision-scripts");
    is_ascii_chars_encode_utf8(".config/sendit/provision-scripts"@);
    lemma_inside(home, home, encode_utf8(".config/sendit/provision-scripts"@));
}

/// The path `~` has one component, a name.
pub proof fn lemma_tilde()
    ensures
        encode_utf8("~"@) == seq![TILDE],
        proper_name(seq![TILDE]),
        components(seq![TILDE]) == seq![Part::Normal(seq![TILDE])],
        split(seq![TILDE], SLASH) == seq![seq![TILDE]],
{
    reveal_strlit("~");
    is_ascii_chars_encode_utf8("~"@);
    let t = seq![TILDE];
    assert(encode_utf8("~"@) == t);
    assert(!t.contains(SLASH));
    assert(t != seq![DOT]) by {
        assert(t[0] != seq![DOT][0]);
    }
    assert(t != seq![DOT, DOT]) by {
        assert(t.len() != seq![DOT, DOT].len());
    }
    lemma_split_single(t, SLASH);
    assert(split(t, SLASH)[0] == t);
    lemma_render_components(seq![Part::Normal(t)]);
    assert(seq![Part::Normal(t)].drop_last() == Seq::<Part>::empty());
    assert(render(Seq::<Part>::empty()) == Seq::<u8>::empty());
    assert(!rooted(t));
    assert(render(seq![Part::Normal(t)]) == Seq::<u8>::empty() + t);
    assert(Seq::<u8>::empty() + t == t);
}

/// A path that is text is shown as text: nothing in it has to be replaced.
pub proof fn law_shown_text(home: Seq<u8>, path: Seq<u8>)
    requires
        valid_utf8(path),
    ensures
        valid_utf8(shown(home, path)),
        encode_utf8(text_of(shown(home, path))) == shown(home, path),
{
    match strip_prefix(path, home) {
        Some(rest) => {
            let k = components(home).len();
            lemma_remainder_utf8(path, k);
            encode_utf8_valid_utf8("~"@);
            lemma_join_utf8(encode_utf8("~"@), rest);
        },
        None => {},
    }
    decode_utf8_encode_utf8(shown(home, path));
}

/// Expanding the `~` of a path as people see it gives the path back: whatever
/// lies below the home directory, and every absolute path.
pub proof fn law_expand_undoes_shown_text(home: Seq<u8>, path: Seq<u8>)
    requires
        valid_utf8(path),
        components(home).len() > 0,
        strip_prefix(path, home) is Some || rooted(path),
    ensures
        same_path(expanded(home, encode_utf8(text_of(shown(home, path)))), path),
{
    law_shown_text(home, path);
    law_expand_undoes_display(home, path);
}

/// Expanding the `~` of a shown path gives the path back: whatever lies below
/// the home directory, and every absolute path.
pub proof fn law_expand_undoes_display(home: Seq<u8>, path: Seq<u8>)
    requires
        components(home).len() > 0,
        strip_prefix(path, home) is Some || rooted(path),
    ensures
        same_path(expanded(home, shown(home, path)), path),
{
    lemma_tilde();
    let t = seq![TILDE];
    match strip_prefix(path, home) {
        Some(rest) => {
            lemma_remainder(path, components(home).len());
            let d = join(t, rest);
            lemma_join_components(t, rest);
            assert(components(d) == components(t) + body(split(rest, SLASH)));
            assert(components(d).take(1) == components(t));
            lemma_remainder(d, 1);
            let back = remainder(d, 1);
            assert(components(d).skip(1) == body(split(rest, SLASH)));
            if home.len() == 0 {
                lemma_split_single(Seq::<u8>::empty(), SLASH);
                assert(home == Seq::<u8>::empty());
                lemma_render_components(Seq::<Part>::empty());
                assert(components(home) == Seq::<Part>::empty());
            }
            lemma_join_components(home, back);
            let k = components(home).len() as int;
            assert(components(path).take(k) + components(path).skip(k) == components(path));
        },
        None => {
            let c = components(path);
            assert(c[0] == Part::Root);
            assert(c.take(1)[0] == c[0]);
            assert(components(t)[0] == Part::Normal(t));
        },
    }
}

} // verus!
