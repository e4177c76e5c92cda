//! Building the shared base images that project VMs are cloned from.
//!
//! The Debian cloud image boots with a cloud-init seed ISO attached, runs the
//! provisioning script and powers itself off. The image is built in a
//! directory of its own and only replaces the old one once it succeeded.
//!
//! Custom scripts from `~/.config/sendit/provision-scripts/` travel on the
//! seed ISO too and run after the built-in provisioning, e.g. to install more
//! tools.
use vstd::prelude::*;
use vstd::string::*;
use vstd::utf8::*;

use crate::assets::SUCCESS_SENTINEL;
use crate::config::ProvisionSettings;
use crate::foreign::{
    hex_encode, lemma_hex_injective, lower_hex, sha256, sha256_digest, text_of, utf8_text,
};
use crate::number::{dec, decimal};
use crate::order::{bytes_less, rank_bytes, Rank};
use crate::path::{components, file_name, join, same_path, Part, UnixPath, DOT, SLASH};
use crate::path_laws::{lemma_join_one, proper_name};
use crate::paths::{
    base_dir_of, below, cache_dir_of, image_char, shown, valid_image_name, ImageName, Paths,
};
use crate::size::size_text;
use crate::text::{
    chars_of, contains_control, ends_with, has_control, has_lead, has_tail, same_str, starts_with,
    string_of, trim, trimmed,
};
use crate::vm::VmSpec;

verus! {

/// Logical size of the base disk, 8 GiB. Project VMs grow their clone
/// further.
pub const BASE_DISK_SIZE: u64 = 0x2_0000_0000;

/// Bumped whenever the base image changes in a way the host code relies on.
/// Revision 2 added the sendit-mounts service, 3 made DHCP leases
/// identifiable by MAC address, 4 shuts the VM down on console logout, 5
/// applies the host terminal's size to the console.
pub const BASE_REVISION: u32 = 5;

// ---------------------------------------------------------------------------
// Where images are
// ---------------------------------------------------------------------------

/// The directory of an image. The default image is the base image.
pub open spec fn image_dir_of(home: Seq<u8>, image: Seq<char>) -> Seq<u8> {
    if image == "default"@ {
        base_dir_of(home)
    } else {
        join(below(cache_dir_of(home), "images"), encode_utf8(image))
    }
}

/// Where an image is built.
pub open spec fn image_partial_dir_of(home: Seq<u8>, image: Seq<char>) -> Seq<u8> {
    if image == "default"@ {
        below(cache_dir_of(home), "base.partial")
    } else {
        join(
            below(cache_dir_of(home), "images"),
            encode_utf8(image + ".partial"@),
        )
    }
}

impl Paths {
    /// The directory of all images but the default one.
    pub fn images_dir(&self) -> (p: UnixPath)
        ensures
            p@ == below(cache_dir_of(self@), "images"),
    {
        self.cache_dir().join_text("images")
    }

    /// The provisioned image that project VMs are cloned from.
    pub fn image_dir(&self, image: &ImageName) -> (p: UnixPath)
        ensures
            p@ == image_dir_of(self@, image@),
    {
        if same_str(image.as_str(), "default") {
            self.base_dir()
        } else {
            self.images_dir().join_text(image.as_str())
        }
    }

    /// Where an image is built before it replaces `image_dir`.
    pub fn image_partial_dir(&self, image: &ImageName) -> (p: UnixPath)
        ensures
            p@ == image_partial_dir_of(self@, image@),
    {
        if same_str(image.as_str(), "default") {
            self.base_partial_dir()
        } else {
            self.images_dir().join_text(image.to_string().concat(".partial").as_str())
        }
    }
}

/// Written into the base directory once provisioning has succeeded.
pub fn marker(paths: &Paths) -> (p: UnixPath)
    ensures
        p@ == below(base_dir_of(paths@), "provisioned.toml"),
{
    paths.base_dir().join_text("provisioned.toml")
}

/// Written into the directory of `image` once provisioning has succeeded.
pub fn image_marker(paths: &Paths, image: &ImageName) -> (p: UnixPath)
    ensures
        p@ == below(image_dir_of(paths@, image@), "provisioned.toml"),
        image@ == "default"@ ==> p@ == below(base_dir_of(paths@), "provisioned.toml"),
{
    paths.image_dir(image).join_text("provisioned.toml")
}

/// The revision of bases from before revisions were recorded.
pub fn first_revision() -> (n: u32)
    ensures
        n == 1,
{
    1
}

/// The revision that is recorded, or the first one.
pub open spec fn revision_of(recorded: Option<u32>) -> u32 {
    match recorded {
        Some(n) => n,
        None => 1,
    }
}

/// The revision of a provisioned base image, given the recorded one.
pub fn base_revision(recorded: Option<u32>) -> (n: u32)
    ensures
        n == revision_of(recorded),
{
    match recorded {
        Some(n) => n,
        None => first_revision(),
    }
}

// ---------------------------------------------------------------------------
// Custom scripts
// ---------------------------------------------------------------------------

/// A custom provisioning script the base image was built with.
#[derive(Debug)]
pub struct ScriptStamp {
    pub name: String,
    pub sha256: String,
}

/// A script's stamp, as a mathematical value.
pub struct StampView {
    pub name: Seq<char>,
    pub sha256: Seq<char>,
}

impl View for ScriptStamp {
    type V = StampView;

    open spec fn view(&self) -> StampView {
        StampView { name: self.name@, sha256: self.sha256@ }
    }
}

/// The stamps' values.
pub open spec fn stamp_views(v: Seq<ScriptStamp>) -> Seq<StampView> {
    Seq::new(v.len(), |i: int| v[i]@)
}

/// A custom provisioning script.
#[derive(Debug)]
pub struct CustomScript {
    pub name: String,
    pub content: Vec<u8>,
}

/// A custom provisioning script, as a mathematical value.
pub struct ScriptView {
    pub name: Seq<char>,
    pub content: Seq<u8>,
}

impl View for CustomScript {
    type V = ScriptView;

    open spec fn view(&self) -> ScriptView {
        ScriptView { name: self.name@, content: self.content@ }
    }
}

/// The scripts' values.
pub open spec fn script_views(v: Seq<CustomScript>) -> Seq<ScriptView> {
    Seq::new(v.len(), |i: int| v[i]@)
}

/// The stamp of a script: its name and the SHA-256 of its content, in hex.
pub open spec fn stamp_of(script: ScriptView) -> StampView {
    StampView { name: script.name, sha256: lower_hex(sha256_digest(script.content)) }
}

/// The stamps of scripts.
pub open spec fn stamps_of(scripts: Seq<ScriptView>) -> Seq<StampView> {
    Seq::new(scripts.len(), |i: int| stamp_of(scripts[i]))
}

impl CustomScript {
    pub fn stamp(&self) -> (s: ScriptStamp)
        ensures
            s@ == stamp_of(self@),
    {
        let digest = sha256(self.content.as_slice());
        ScriptStamp { name: self.name.clone(), sha256: hex_encode(digest.as_slice()) }
    }
}

/// The stamps of `scripts`.
pub fn stamps(scripts: &Vec<CustomScript>) -> (v: Vec<ScriptStamp>)
    ensures
        stamp_views(v@) == stamps_of(script_views(scripts@)),
{
    let mut v: Vec<ScriptStamp> = Vec::new();
    let ghost all = stamps_of(script_views(scripts@));
    let mut i: usize = 0;
    while i < scripts.len()
        invariant
            i <= scripts@.len(),
            all == stamps_of(script_views(scripts@)),
            stamp_views(v@) == all.take(i as int),
        decreases scripts.len() - i,
    {
        let ghost before = stamp_views(v@);
        v.push(scripts[i].stamp());
        assert(stamp_views(v@) == before.push(v@.last()@));
        assert(all.take(i + 1) == all.take(i as int).push(all[i as int]));
        i += 1;
    }
    assert(all.take(i as int) == all);
    v
}

/// Whether two lists of stamps are the same.
fn same_stamps(a: &Vec<ScriptStamp>, b: &Vec<ScriptStamp>) -> (r: bool)
    ensures
        r == (stamp_views(a@) == stamp_views(b@)),
{
    let ghost x = stamp_views(a@);
    let ghost y = stamp_views(b@);
    if a.len() != b.len() {
        assert(x.len() != y.len());
        return false;
    }
    let mut i: usize = 0;
    while i < a.len()
        invariant
            i <= a@.len(),
            a@.len() == b@.len(),
            x == stamp_views(a@),
            y == stamp_views(b@),
            forall|j: int| 0 <= j < i ==> x[j] == y[j],
        decreases a.len() - i,
    {
        if !same_str(a[i].name.as_str(), b[i].name.as_str()) || !same_str(
            a[i].sha256.as_str(),
            b[i].sha256.as_str(),
        ) {
            assert(x[i as int] != y[i as int]);
            return false;
        }
        assert(x[i as int] == y[i as int]);
        i += 1;
    }
    assert(x == y);
    true
}

/// Whether the custom provisioning scripts were added, removed or edited
/// since the base image was provisioned with the `recorded` ones.
pub fn custom_scripts_changed(recorded: &Vec<ScriptStamp>, scripts: &Vec<CustomScript>) -> (r: bool)
    ensures
        r == (stamp_views(recorded@) != stamps_of(script_views(scripts@))),
{
    let current = stamps(scripts);
    !same_stamps(recorded, &current)
}

/// Something in the directory of custom scripts.
#[derive(Debug)]
pub enum ScriptFile {
    /// A script of this name.
    Script(String),
    /// Nothing to run.
    Skip,
    /// A script whose name has control characters.
    BadName,
}

/// Whether a file is a script to run: its name is UTF-8, doesn't start with a
/// dot and ends with `.sh`.
pub open spec fn script_name(name: Seq<u8>) -> bool {
    &&& valid_utf8(name)
    &&& !starts_with(decode_utf8(name), "."@)
    &&& ends_with(decode_utf8(name), ".sh"@)
}

/// What the entry `path` of the directory is; `is_file` is whether it is a
/// file.
pub fn script_file(path: &UnixPath, is_file: bool) -> (r: ScriptFile)
    ensures
        r is Skip <==> !(file_name(path@) is Some && script_name(file_name(path@)->0) && is_file),
        r is BadName <==> file_name(path@) is Some && script_name(file_name(path@)->0) && is_file
            && has_control(decode_utf8(file_name(path@)->0)),
        r is Script ==> r->Script_0@ == decode_utf8(file_name(path@)->0),
{
    let name = match path.file_name() {
        None => {
            return ScriptFile::Skip;
        },
        Some(name) => name,
    };
    let text = match utf8_text(name.as_slice()) {
        None => {
            return ScriptFile::Skip;
        },
        Some(text) => text,
    };
    let chars = chars_of(text.as_str());
    if has_lead(chars.as_slice(), ".") || !has_tail(chars.as_slice(), ".sh") || !is_file {
        ScriptFile::Skip
    } else if contains_control(chars.as_slice()) {
        ScriptFile::BadName
    } else {
        ScriptFile::Script(text)
    }
}

/// Whether the script `a` comes before `b`: by the bytes of their names.
pub open spec fn script_before(a: ScriptView, b: ScriptView) -> bool {
    bytes_less(encode_utf8(a.name), encode_utf8(b.name))
}

/// `list` with `script` behind all that don't come after it.
pub open spec fn insert_script(list: Seq<ScriptView>, script: ScriptView) -> Seq<ScriptView>
    decreases list.len(),
{
    if list.len() > 0 && script_before(script, list.last()) {
        insert_script(list.drop_last(), script).push(list.last())
    } else {
        list.push(script)
    }
}

/// The first `n` of `list` in name order; those of the same name keep their
/// order.
pub open spec fn in_name_order(list: Seq<ScriptView>, n: nat) -> Seq<ScriptView>
    decreases n,
{
    if n == 0 {
        Seq::empty()
    } else {
        insert_script(in_name_order(list, (n - 1) as nat), list[n - 1])
    }
}

proof fn lemma_insert_script(list: Seq<ScriptView>, script: ScriptView, at: int)
    requires
        0 <= at <= list.len(),
        forall|i: int| at <= i < list.len() ==> script_before(script, #[trigger] list[i]),
        at > 0 ==> !script_before(script, list[at - 1]),
    ensures
        insert_script(list, script) == list.insert(at, script),
    decreases list.len(),
{
    if at < list.len() {
        let init = list.drop_last();
        assert(script_before(script, list[list.len() - 1]));
        assert forall|i: int| at <= i < init.len() implies script_before(
            script,
            #[trigger] init[i],
        ) by {
            assert(init[i] == list[i]);
        }
        lemma_insert_script(init, script, at);
        assert(init.insert(at, script).push(list.last()) == list.insert(at, script));
    } else {
        assert(list.push(script) == list.insert(at, script));
    }
}

/// The custom scripts in name order.
pub fn custom_scripts(scripts: Vec<CustomScript>) -> (v: Vec<CustomScript>)
    ensures
        script_views(v@) == in_name_order(script_views(scripts@), scripts@.len()),
{
    let ghost all = script_views(scripts@);
    let mut rest = scripts;
    let mut v: Vec<CustomScript> = Vec::new();
    let ghost mut n: nat = 0;
    while rest.len() > 0
        invariant
            all == script_views(scripts@),
            n + rest@.len() == all.len(),
            script_views(rest@) == all.skip(n as int),
            script_views(v@) == in_name_order(all, n),
        decreases rest.len(),
    {
        let ghost pending = rest@;
        let script = rest.remove(0);
        let ghost view = script@;
        assert(script_views(pending)[0] == view);
        assert(all.skip(n as int)[0] == all[n as int]);
        let ghost list = script_views(v@);
        let mut at: usize = v.len();
        while at > 0 && comes_before(&script, &v[at - 1])
            invariant
                at <= v@.len(),
                list == script_views(v@),
                view == script@,
                forall|i: int| at <= i < list.len() ==> script_before(view, #[trigger] list[i]),
            decreases at,
        {
            assert(list[at - 1] == v@[at - 1]@);
            at -= 1;
        }
        proof {
            if at > 0 {
                assert(list[at - 1] == v@[at - 1]@);
            }
            lemma_insert_script(list, view, at as int);
        }
        v.insert(at, script);
        assert(script_views(v@) == list.insert(at as int, view));
        assert(script_views(rest@) == script_views(pending).skip(1));
        assert(all.skip(n as int).skip(1) == all.skip(n as int + 1));
        proof {
            n = n + 1;
        }
    }
    v
}

fn comes_before(a: &CustomScript, b: &CustomScript) -> (r: bool)
    ensures
        r == script_before(a@, b@),
{
    match rank_bytes(a.name.as_str().as_bytes(), b.name.as_str().as_bytes()) {
        Rank::Before => true,
        Rank::Same => false,
        Rank::After => false,
    }
}

/// The names of the scripts, with commas between them.
pub open spec fn joined_names(scripts: Seq<ScriptView>, n: nat) -> Seq<char>
    decreases n,
{
    if n == 0 {
        Seq::empty()
    } else if n == 1 {
        scripts[0].name
    } else {
        joined_names(scripts, (n - 1) as nat) + ", "@ + scripts[n - 1].name
    }
}

/// The names of the scripts for people to read.
pub fn script_names(scripts: &Vec<CustomScript>) -> (s: String)
    ensures
        s@ == joined_names(script_views(scripts@), scripts@.len()),
{
    let ghost all = script_views(scripts@);
    let mut s = String::new();
    let mut i: usize = 0;
    while i < scripts.len()
        invariant
            i <= scripts@.len(),
            all == script_views(scripts@),
            s@ == joined_names(all, i as nat),
        decreases scripts.len() - i,
    {
        if i > 0 {
            s.append(", ");
        }
        s.append(scripts[i].name.as_str());
        assert(s@ == joined_names(all, (i + 1) as nat));
        i += 1;
    }
    s
}

// ---------------------------------------------------------------------------
// The state of a base image
// ---------------------------------------------------------------------------

/// Whether a base image can be used as it is.
#[derive(Clone, Copy, Debug, PartialEq, Eq, Structural)]
pub enum BaseState {
    Missing,
    /// It was built by an older version.
    Outdated,
    /// It was built with other custom scripts.
    ScriptsChanged,
    Current,
}

/// What is recorded of a base image.
#[derive(Debug)]
pub struct Recorded {
    pub revision: Option<u32>,
    pub custom_scripts: Vec<ScriptStamp>,
}

/// The state of a base image, given what is recorded of it, if anything, and
/// the custom scripts.
pub fn base_state(recorded: &Option<Recorded>, scripts: &Vec<CustomScript>) -> (s: BaseState)
    ensures
        match recorded {
            None => s == BaseState::Missing,
            Some(marker) => if revision_of(marker.revision) < BASE_REVISION {
                s == BaseState::Outdated
            } else if stamp_views(marker.custom_scripts@) != stamps_of(script_views(scripts@)) {
                s == BaseState::ScriptsChanged
            } else {
                s == BaseState::Current
            },
        },
{
    match recorded {
        None => BaseState::Missing,
        Some(marker) => if base_revision(marker.revision) < BASE_REVISION {
            BaseState::Outdated
        } else if custom_scripts_changed(&marker.custom_scripts, scripts) {
            BaseState::ScriptsChanged
        } else {
            BaseState::Current
        },
    }
}

/// The command that provisions `image`.
pub open spec fn command_text(image: Seq<char>, force: bool) -> Seq<char> {
    "sendit provision"@ + (if image == "default"@ {
        Seq::empty()
    } else {
        " "@ + image
    }) + (if force {
        " --force"@
    } else {
        Seq::empty()
    })
}

/// The command that provisions `image`, for people to run.
pub fn command(image: &ImageName, force: bool) -> (s: String)
    ensures
        s@ == command_text(image@, force),
{
    let mut s = "sendit provision".to_owned();
    if !same_str(image.as_str(), "default") {
        s.append(" ");
        s.append(image.as_str());
    }
    if force {
        s.append(" --force");
    }
    assert(s@ == command_text(image@, force));
    s
}

// ---------------------------------------------------------------------------
// Provisioning
// ---------------------------------------------------------------------------

/// Whether `needle` stands somewhere in `haystack`.
pub open spec fn occurs<T>(haystack: Seq<T>, needle: Seq<T>) -> bool {
    exists|i: int|
        0 <= i <= haystack.len() - needle.len() && #[trigger] haystack.subrange(
            i,
            i + needle.len(),
        ) == needle
}

/// Whether `needle` stands somewhere in `haystack`.
pub fn contains(haystack: &[u8], needle: &[u8]) -> (r: bool)
    requires
        needle@.len() > 0,
    ensures
        r == occurs(haystack@, needle@),
{
    if haystack.len() < needle.len() {
        return false;
    }
    let last = haystack.len() - needle.len();
    let mut i: usize = 0;
    while i <= last
        invariant
            i <= last + 1,
            last + needle@.len() == haystack@.len(),
            last + needle@.len() <= usize::MAX,
            needle@.len() > 0,
            forall|j: int|
                0 <= j < i ==> #[trigger] haystack@.subrange(j, j + needle@.len()) != needle@,
        decreases last + 1 - i,
    {
        let window = crate::path::sub_bytes(haystack, i, i + needle.len());
        if crate::path::same_bytes(window.as_slice(), needle) {
            return true;
        }
        i += 1;
    }
    false
}

/// What is to be done next to provision an image.
#[derive(Clone, Copy, Debug, PartialEq, Eq, Structural)]
pub enum Want {
    /// Look whether the image is there already.
    Look,
    /// Get the Debian image, the SSH key and the custom scripts, pack the
    /// seed, and make a disk to provision.
    Prepare,
    /// Run the VM until it stops.
    Boot,
    /// Read the log.
    Log,
    /// Write the marker, and put the new image in the place of the old one.
    Install,
}

/// What became of it.
#[derive(Debug)]
pub enum Told {
    /// Whether the image is there.
    Looked(bool),
    Prepared,
    Stopped,
    /// What the guest printed.
    Log(Vec<u8>),
    Installed,
}

/// Where provisioning stands.
#[derive(Clone, Copy, Debug, PartialEq, Eq, Structural)]
pub enum Progress {
    Next(Want),
    /// The image was there already.
    AlreadyThere,
    Ready,
    /// The guest did not get to the end of the script.
    Failed,
}

/// Where provisioning stands after `told`. News that was not asked for
/// changes nothing.
pub open spec fn after(want: Want, force: bool, told: Told) -> Progress {
    match (want, told) {
        (Want::Look, Told::Looked(there)) => if there && !force {
            Progress::AlreadyThere
        } else {
            Progress::Next(Want::Prepare)
        },
        (Want::Prepare, Told::Prepared) => Progress::Next(Want::Boot),
        (Want::Boot, Told::Stopped) => Progress::Next(Want::Log),
        (Want::Log, Told::Log(output)) => if occurs(output@, encode_utf8(SUCCESS_SENTINEL@)) {
            Progress::Next(Want::Install)
        } else {
            Progress::Failed
        },
        (Want::Install, Told::Installed) => Progress::Ready,
        _ => Progress::Next(want),
    }
}

proof fn lemma_sentinel()
    ensures
        encode_utf8(SUCCESS_SENTINEL@).len() > 0,
{
    reveal_strlit("SENDIT_PROVISION_OK");
    is_ascii_chars_encode_utf8(SUCCESS_SENTINEL@);
}

/// Where provisioning stands after `told`, starting from `Want::Look`.
pub fn provision(want: Want, force: bool, told: &Told) -> (p: Progress)
    ensures
        p == after(want, force, *told),
{
    match (want, told) {
        (Want::Look, Told::Looked(there)) => if *there && !force {
            Progress::AlreadyThere
        } else {
            Progress::Next(Want::Prepare)
        },
        (Want::Prepare, Told::Prepared) => Progress::Next(Want::Boot),
        (Want::Boot, Told::Stopped) => Progress::Next(Want::Log),
        (Want::Log, Told::Log(output)) => {
            proof {
                lemma_sentinel();
            }
            if contains(output.as_slice(), SUCCESS_SENTINEL.as_bytes()) {
                Progress::Next(Want::Install)
            } else {
                Progress::Failed
            }
        },
        (Want::Install, Told::Installed) => Progress::Ready,
        _ => Progress::Next(want),
    }
}

/// What is recorded of an image that was just provisioned.
#[derive(Debug)]
pub struct Marker {
    pub revision: u32,
    pub sendit_version: String,
    pub debian_image_sha512: String,
    pub provisioned_at_unix: u64,
    pub custom_scripts: Vec<ScriptStamp>,
}

impl Marker {
    /// The marker of an image made from the Debian image with the checksum
    /// `sha512` and `scripts` at the time `now`, by the given version.
    pub fn new(version: &str, sha512: &str, now: u64, scripts: &Vec<CustomScript>) -> (m: Self)
        ensures
            m.revision == BASE_REVISION,
            m.sendit_version@ == version@,
            m.debian_image_sha512@ == sha512@,
            m.provisioned_at_unix == now,
            stamp_views(m.custom_scripts@) == stamps_of(script_views(scripts@)),
    {
        Marker {
            revision: BASE_REVISION,
            sendit_version: version.to_owned(),
            debian_image_sha512: sha512.to_owned(),
            provisioned_at_unix: now,
            custom_scripts: stamps(scripts),
        }
    }
}

/// What the VM that is provisioned is run with.
pub fn provision_spec(settings: &ProvisionSettings, seed: UnixPath, log: UnixPath) -> (s: VmSpec)
    ensures
        s.cpus == settings.cpus,
        s.memory == settings.memory,
        s.shares@.len() == 0,
        s.seed == Some(seed),
        s.provision_log == Some(log),
{
    VmSpec {
        cpus: settings.cpus,
        memory: settings.memory,
        shares: Vec::new(),
        seed: Some(seed),
        provision_log: Some(log),
    }
}

/// The public key in the text of its file.
pub fn public_key(text: &str) -> (s: String)
    ensures
        s@ == trim(text@),
{
    let chars = chars_of(text);
    string_of(trimmed(chars.as_slice()).as_slice())
}

// ---------------------------------------------------------------------------
// What people are told
// ---------------------------------------------------------------------------

/// Why the custom script at the path that is quoted as `path` is not run: its
/// name has control characters.
pub fn bad_script_name(path: &str) -> (s: String)
    ensures
        s@ == "custom provisioning script "@ + path@ + " has control characters in its name"@,
{
    "custom provisioning script ".to_owned().concat(path).concat(
        " has control characters in its name",
    )
}

pub fn already_there(paths: &Paths, image: &ImageName) -> (s: String)
    ensures
        s@ == "The base image in "@ + text_of(shown(paths@, image_dir_of(paths@, image@)))
            + " is already provisioned. Use --force to rebuild it."@,
{
    "The base image in ".to_owned().concat(
        paths.display(&paths.image_dir(image)).as_str(),
    ).concat(" is already provisioned. Use --force to rebuild it.")
}

pub fn provisioning(paths: &Paths, settings: &ProvisionSettings, log: &UnixPath) -> (s: String)
    ensures
        s@ == "Provisioning the base image ("@ + dec(settings.cpus as nat) + " CPUs, "@ + size_text(
            settings.memory.0 as nat,
        ) + " memory). This takes a few minutes; the console is logged to "@ + text_of(
            shown(paths@, log@),
        ) + "."@,
{
    "Provisioning the base image (".to_owned().concat(
        decimal(settings.cpus as u64).as_str(),
    ).concat(" CPUs, ").concat(settings.memory.to_string().as_str()).concat(
        " memory). This takes a few minutes; the console is logged to ",
    ).concat(paths.display(log).as_str()).concat(".")
}

pub fn with_scripts(paths: &Paths, scripts: &Vec<CustomScript>) -> (s: Option<String>)
    ensures
        s is Some <==> scripts@.len() > 0,
        s is Some ==> s->0@ == "Custom scripts from "@ + text_of(
            shown(paths@, below(paths@, ".config/sendit/provision-scripts")),
        ) + ": "@ + joined_names(script_views(scripts@), scripts@.len()),
{
    if scripts.len() == 0 {
        return None;
    }
    Some(
        "Custom scripts from ".to_owned().concat(
            paths.display(&paths.provision_scripts_dir()).as_str(),
        ).concat(": ").concat(script_names(scripts).as_str()),
    )
}

pub fn provisioning_failed(paths: &Paths, log: &UnixPath) -> (s: String)
    ensures
        s@ == "provisioning failed; see "@ + text_of(shown(paths@, log@)) + " for details"@,
{
    "provisioning failed; see ".to_owned().concat(paths.display(log).as_str()).concat(
        " for details",
    )
}

pub fn base_ready(paths: &Paths, image: &ImageName) -> (s: String)
    ensures
        s@ == "Base image ready in "@ + text_of(shown(paths@, image_dir_of(paths@, image@)))
            + "."@,
{
    "Base image ready in ".to_owned().concat(
        paths.display(&paths.image_dir(image)).as_str(),
    ).concat(".")
}

// ---------------------------------------------------------------------------
// Laws
// ---------------------------------------------------------------------------

/// Where provisioning stands after the first `n` of `news`.
pub open spec fn stand(force: bool, news: Seq<Told>, n: nat) -> Progress
    decreases n,
{
    if n == 0 {
        Progress::Next(Want::Look)
    } else {
        match stand(force, news, (n - 1) as nat) {
            Progress::Next(want) => after(want, force, news[n - 1]),
            other => other,
        }
    }
}

/// The old image is only replaced once the guest has printed the sentinel, at
/// the end of the provisioning script.
pub proof fn law_replaced_only_on_success(force: bool, news: Seq<Told>, n: nat) -> (i: int)
    requires
        n <= news.len(),
        stand(force, news, n) == Progress::Next(Want::Install) || stand(force, news, n) is Ready,
    ensures
        0 <= i < n,
        news[i] is Log,
        occurs(news[i]->Log_0@, encode_utf8(SUCCESS_SENTINEL@)),
        stand(force, news, i as nat) == Progress::Next(Want::Log),
    decreases n,
{
    let before = stand(force, news, (n - 1) as nat);
    if before == Progress::Next(Want::Install) || before is Ready {
        law_replaced_only_on_success(force, news, (n - 1) as nat)
    } else {
        n - 1
    }
}

/// An image that is there is left alone unless it is to be rebuilt.
pub proof fn law_existing_image_is_kept(news: Seq<Told>, n: nat)
    requires
        0 < n <= news.len(),
        news[0] == Told::Looked(true),
    ensures
        stand(false, news, n) is AlreadyThere,
    decreases n,
{
    if n > 1 {
        law_existing_image_is_kept(news, (n - 1) as nat);
    } else {
        assert(stand(false, news, 0) == Progress::Next(Want::Look));
    }
}

/// Scripts count as unchanged exactly if there are as many, with the same
/// names in the same order and contents with the same SHA-256.
pub proof fn law_script_changes_are_seen(scripts: Seq<ScriptView>, others: Seq<ScriptView>)
    ensures
        stamps_of(scripts) == stamps_of(others) <==> (scripts.len() == others.len() && forall|
            i: int,
        |
            0 <= i < scripts.len() ==> (#[trigger] scripts[i]).name == others[i].name
                && sha256_digest(scripts[i].content) == sha256_digest(others[i].content)),
{
    let a = stamps_of(scripts);
    let b = stamps_of(others);
    if a == b {
        assert(a.len() == b.len());
        assert forall|i: int| 0 <= i < scripts.len() implies (#[trigger] scripts[i]).name
            == others[i].name && sha256_digest(scripts[i].content) == sha256_digest(
            others[i].content,
        ) by {
            assert(a[i] == b[i]);
            lemma_hex_injective(
                sha256_digest(scripts[i].content),
                sha256_digest(others[i].content),
            );
        }
    }
    if scripts.len() == others.len() && forall|i: int|
        0 <= i < scripts.len() ==> (#[trigger] scripts[i]).name == others[i].name && sha256_digest(
            scripts[i].content,
        ) == sha256_digest(others[i].content) {
        assert forall|i: int| 0 <= i < a.len() implies a[i] == b[i] by {
            assert(scripts[i].name == others[i].name);
        }
        assert(a == b);
    }
}

proof fn lemma_insert_keeps(list: Seq<ScriptView>, script: ScriptView)
    ensures
        insert_script(list, script).to_multiset() == list.to_multiset().insert(script),
        insert_script(list, script).len() == list.len() + 1,
    decreases list.len(),
{
    broadcast use vstd::seq_lib::group_to_multiset_ensures;

    if list.len() > 0 && script_before(script, list.last()) {
        let init = list.drop_last();
        lemma_insert_keeps(init, script);
        assert(init.push(list.last()) == list);
        assert(insert_script(list, script).to_multiset() =~= list.to_multiset().insert(script));
    }
}

/// Whether scripts are in name order.
pub open spec fn ordered(list: Seq<ScriptView>) -> bool {
    forall|i: int, j: int|
        0 <= i < j < list.len() ==> !script_before(#[trigger] list[j], #[trigger] list[i])
}

proof fn lemma_insert_ordered(list: Seq<ScriptView>, script: ScriptView)
    requires
        ordered(list),
    ensures
        ordered(insert_script(list, script)),
        forall|i: int|
            0 <= i < insert_script(list, script).len() ==> #[trigger] insert_script(list, script)[i]
                == script || exists|k: int|
                0 <= k < list.len() && list[k] == insert_script(list, script)[i],
    decreases list.len(),
{
    crate::order::lemma_bytes_order();
    let less = |a: Seq<u8>, b: Seq<u8>| bytes_less(a, b);
    let new = insert_script(list, script);
    if list.len() > 0 && script_before(script, list.last()) {
        let init = list.drop_last();
        let last = list.last();
        assert forall|i: int, j: int| 0 <= i < j < init.len() implies !script_before(
            #[trigger] init[j],
            #[trigger] init[i],
        ) by {
            assert(init[i] == list[i] && init[j] == list[j]);
        }
        lemma_insert_ordered(init, script);
        let part = insert_script(init, script);
        assert(new == part.push(last));
        assert forall|i: int| 0 <= i < new.len() implies #[trigger] new[i] == script || exists|
            k: int,
        | 0 <= k < list.len() && list[k] == new[i] by {
            if i < part.len() {
                assert(new[i] == part[i]);
                if part[i] != script {
                    let k = choose|k: int| 0 <= k < init.len() && init[k] == part[i];
                    assert(list[k] == new[i]);
                }
            } else {
                assert(list[list.len() - 1] == new[i]);
            }
        }
        assert forall|i: int, j: int| 0 <= i < j < new.len() implies !script_before(
            #[trigger] new[j],
            #[trigger] new[i],
        ) by {
            if j < part.len() {
                assert(new[i] == part[i] && new[j] == part[j]);
            } else {
                assert(new[j] == last && new[i] == part[i]);
                if part[i] == script {
                    assert(less(encode_utf8(script.name), encode_utf8(last.name)));
                } else {
                    let k = choose|k: int| 0 <= k < init.len() && init[k] == part[i];
                    assert(list[k] == part[i]);
                    assert(list[list.len() - 1] == last);
                }
            }
        }
    } else {
        assert(new == list.push(script));
        assert forall|i: int| 0 <= i < new.len() implies #[trigger] new[i] == script || exists|
            k: int,
        | 0 <= k < list.len() && list[k] == new[i] by {
            if i < list.len() {
                assert(list[i] == new[i]);
            }
        }
        assert forall|i: int, j: int| 0 <= i < j < new.len() implies !script_before(
            #[trigger] new[j],
            #[trigger] new[i],
        ) by {
            if j < list.len() {
                assert(new[i] == list[i] && new[j] == list[j]);
            } else {
                assert(new[j] == script && new[i] == list[i]);
                let last = list.last();
                let a = encode_utf8(script.name);
                let b = encode_utf8(last.name);
                let c = encode_utf8(list[i].name);
                assert(list[list.len() - 1] == last);
                assert(!less(a, b));
                assert(i < list.len() - 1 ==> !script_before(list[list.len() - 1], list[i]));
                assert(i < list.len() - 1 ==> !less(b, c));
                if less(a, c) {
                    assert(a == b || less(a, b) || less(b, a));
                    if i < list.len() - 1 {
                        assert(b == c || less(b, c) || less(c, b));
                    }
                }
            }
        }
    }
}

/// The custom scripts are run in name order, and it is the same scripts.
pub proof fn law_scripts_in_name_order(list: Seq<ScriptView>, n: nat)
    requires
        n <= list.len(),
    ensures
        ordered(in_name_order(list, n)),
        in_name_order(list, n).to_multiset() == list.take(n as int).to_multiset(),
    decreases n,
{
    broadcast use vstd::seq_lib::group_to_multiset_ensures;

    if n > 0 {
        law_scripts_in_name_order(list, (n - 1) as nat);
        lemma_insert_ordered(in_name_order(list, (n - 1) as nat), list[n - 1]);
        lemma_insert_keeps(in_name_order(list, (n - 1) as nat), list[n - 1]);
        assert(list.take(n as int) == list.take(n - 1).push(list[n - 1]));
    } else {
        assert(list.take(0) == Seq::<ScriptView>::empty());
    }
}

/// The components of a path that is made of names below the cache directory.
proof fn lemma_in_cache(home: Seq<u8>, name: Seq<u8>)
    requires
        proper_name(name),
    ensures
        cache_dir_of(home).len() > 0,
        components(join(cache_dir_of(home), name)) == components(cache_dir_of(home)).push(
            Part::Normal(name),
        ),
        join(cache_dir_of(home), name).len() > 0,
{
    reveal_strlit(".cache/sendit");
    is_ascii_chars_encode_utf8(".cache/sendit"@);
    lemma_join_one(cache_dir_of(home), name);
}

/// ASCII text without slashes that starts with a letter or digit is a name.
proof fn lemma_plain_name(s: Seq<char>)
    requires
        s.len() > 0,
        forall|i: int| 0 <= i < s.len() ==> image_char(#[trigger] s[i]) || s[i] == '.',
        image_char(s[0]),
    ensures
        proper_name(encode_utf8(s)),
{
    assert(is_ascii_chars(s));
    is_ascii_chars_encode_utf8(s);
    let b = encode_utf8(s);
    assert(b[0] != DOT) by {
        assert(image_char(s[0]));
    }
    assert(b != seq![DOT]) by {
        assert(seq![DOT][0] == DOT);
    }
    assert(b != seq![DOT, DOT]) by {
        assert(seq![DOT, DOT][0] == DOT);
    }
    assert forall|i: int| 0 <= i < b.len() implies b[i] != SLASH by {
        assert(image_char(s[i]) || s[i] == '.');
    }
}

/// The name of the directory where `image` is built, below the directory of
/// all images.
spec fn partial_name(image: Seq<char>) -> Seq<char> {
    image + ".partial"@
}

proof fn lemma_image_paths(home: Seq<u8>, image: Seq<char>)
    requires
        valid_image_name(image),
    ensures
        ({
            let cache = components(cache_dir_of(home));
            let images = cache.push(Part::Normal(encode_utf8("images"@)));
            &&& image == "default"@ ==> components(image_dir_of(home, image)) == cache.push(
                Part::Normal(encode_utf8("base"@)),
            )
            &&& image == "default"@ ==> components(image_partial_dir_of(home, image))
                == cache.push(Part::Normal(encode_utf8("base.partial"@)))
            &&& image != "default"@ ==> components(image_dir_of(home, image)) == images.push(
                Part::Normal(encode_utf8(image)),
            )
            &&& image != "default"@ ==> components(image_partial_dir_of(home, image))
                == images.push(Part::Normal(encode_utf8(partial_name(image))))
        }),
{
    reveal_strlit("base");
    reveal_strlit("base.partial");
    reveal_strlit("images");
    reveal_strlit(".partial");
    lemma_plain_name("base"@);
    lemma_plain_name("base.partial"@);
    lemma_plain_name("images"@);
    lemma_in_cache(home, encode_utf8("base"@));
    lemma_in_cache(home, encode_utf8("base.partial"@));
    lemma_in_cache(home, encode_utf8("images"@));
    let dir = below(cache_dir_of(home), "images");
    assert(image_char(image[0]));
    lemma_plain_name(image);
    let partial = partial_name(image);
    assert forall|i: int| 0 <= i < partial.len() implies image_char(#[trigger] partial[i])
        || partial[i] == '.' by {
        if i < image.len() {
            assert(partial[i] == image[i]);
        }
    }
    assert(partial[0] == image[0]);
    lemma_plain_name(partial);
    lemma_join_one(dir, encode_utf8(image));
    lemma_join_one(dir, encode_utf8(partial));
}

/// Different images have different directories, to be kept in and to be built
/// in, and no image is kept where any is built.
pub proof fn law_image_dirs(home: Seq<u8>, a: Seq<char>, b: Seq<char>)
    requires
        valid_image_name(a),
        valid_image_name(b),
    ensures
        a != b ==> !same_path(image_dir_of(home, a), image_dir_of(home, b)),
        a != b ==> !same_path(image_partial_dir_of(home, a), image_partial_dir_of(home, b)),
        !same_path(image_dir_of(home, a), image_partial_dir_of(home, b)),
{
    lemma_image_paths(home, a);
    lemma_image_paths(home, b);
    reveal_strlit("base");
    reveal_strlit("base.partial");
    reveal_strlit(".partial");
    let base = "base"@;
    let base_partial = "base.partial"@;
    encode_utf8_decode_utf8(a);
    encode_utf8_decode_utf8(b);
    encode_utf8_decode_utf8(partial_name(a));
    encode_utf8_decode_utf8(partial_name(b));
    encode_utf8_decode_utf8(base);
    encode_utf8_decode_utf8(base_partial);
    assert(base.len() != base_partial.len());
    if a != b {
        assert(partial_name(a) != partial_name(b)) by {
            if partial_name(a) == partial_name(b) {
                assert(a.len() == b.len());
                assert forall|i: int| 0 <= i < a.len() implies a[i] == b[i] by {
                    assert(partial_name(a)[i] == a[i]);
                    assert(partial_name(b)[i] == b[i]);
                }
                assert(a == b);
            }
        }
    }
    assert(a != partial_name(b)) by {
        if a == partial_name(b) {
            assert(partial_name(b)[b.len() as int] == '.');
            assert(image_char(a[b.len() as int]));
        }
    }
    let x = components(image_dir_of(home, a));
    let y = components(image_dir_of(home, b));
    let px = components(image_partial_dir_of(home, a));
    let py = components(image_partial_dir_of(home, b));
    if a == "default"@ {
        assert(x.last() == Part::Normal(encode_utf8(base)));
        assert(px.last() == Part::Normal(encode_utf8(base_partial)));
    } else {
        assert(x.last() == Part::Normal(encode_utf8(a)));
        assert(px.last() == Part::Normal(encode_utf8(partial_name(a))));
    }
    if b == "default"@ {
        assert(y.last() == Part::Normal(encode_utf8(base)));
        assert(py.last() == Part::Normal(encode_utf8(base_partial)));
    } else {
        assert(y.last() == Part::Normal(encode_utf8(b)));
        assert(py.last() == Part::Normal(encode_utf8(partial_name(b))));
    }
}

} // verus!
