//! The decisions of the commands that clean up VMs, `reset` and `prune`, and
//! the confirmation prompts they share with `run`.
use vstd::prelude::*;
use vstd::string::*;
use vstd::utf8::*;

use crate::config::canonical;
use crate::foreign::text_of;
use crate::host::Lookup;
use crate::number::{dec, decimal};
use crate::path::{components, join, same_bytes, Component, Part, UnixPath};
use crate::paths::{shown, ImageName, Paths, Project};
use crate::project_vm::{Metadata, State};
use crate::text::{chars_of, reads, starts_with, trim, trimmed};
use crate::vm::VmDir;

verus! {

// ---------------------------------------------------------------------------
// Confirming
// ---------------------------------------------------------------------------

pub const PASS_YES: &'static str =
    "not asking for confirmation without a terminal; pass --yes";

/// A yes/no question, and what to fail with if there is no terminal to ask it
/// on.
#[derive(Debug)]
pub struct Question {
    pub question: String,
    pub no_terminal: String,
}

/// Answers that mean yes.
pub open spec fn means_yes(answer: Seq<char>) -> bool {
    let text = trim(answer);
    text == "y"@ || text == "Y"@ || text == "yes"@ || text == "Yes"@
}

/// Whether the answer to a question is yes; anything else means no.
pub fn is_yes(answer: &str) -> (r: bool)
    ensures
        r == means_yes(answer@),
{
    let chars = chars_of(answer);
    let text = trimmed(chars.as_slice());
    reads(text.as_slice(), "y") || reads(text.as_slice(), "Y") || reads(text.as_slice(), "yes")
        || reads(text.as_slice(), "Yes")
}

impl Question {
    /// The question as it is asked.
    pub fn prompt(&self) -> (s: String)
        ensures
            s@ == self.question@ + " [y/N] "@,
    {
        self.question.clone().concat(" [y/N] ")
    }
}

/// Whether the directory `dir` contains `path`, or is it.
pub open spec fn contains_path(dir: Seq<u8>, path: Seq<u8>) -> bool {
    starts_with(components(path), components(dir))
}

/// What to ask before sharing a project directory that contains the home
/// directory: the VM could then read and change everything there, including
/// sendit's SSH key and the disks of other VMs. `found` is what the host found
/// at the home directory. Other projects need no question.
pub fn confirm_home_share(paths: &Paths, project: &Project, found: &Lookup) -> (q: Option<Question>)
    ensures
        q is Some <==> contains_path(project.root@, canonical(found@, paths@)),
        q is Some ==> q->0.question@ == text_of(project.root@)
            + " contains your home directory. Share all of it with the VM, read-write?"@,
        q is Some ==> q->0.no_terminal@ == text_of(project.root@)
            + " contains your home directory; not sharing all of it with the VM without a terminal to confirm it"@,
{
    let home = match found {
        Lookup::Directory(path) => path,
        Lookup::Other(path) => path,
        Lookup::Failed(_) => paths.home(),
    };
    if !home.starts_with(&project.root) {
        return None;
    }
    let root = project.root.display();
    Some(
        Question {
            question: root.clone().concat(
                " contains your home directory. Share all of it with the VM, read-write?",
            ),
            no_terminal: root.concat(
                " contains your home directory; not sharing all of it with the VM without a terminal to confirm it",
            ),
        },
    )
}

// ---------------------------------------------------------------------------
// Resetting
// ---------------------------------------------------------------------------

/// What `reset` does.
#[derive(Debug)]
pub enum Reset {
    /// There is no VM to delete.
    NoVm,
    /// The VM is running and can't be deleted.
    Running,
    /// Delete the VM if the answer to this question is yes.
    Ask(Question),
    /// Delete the VM.
    Delete,
}

pub const NO_VM: &'static str = "This project has no VM.";

pub const STOP_FIRST: &'static str = "the VM is running; stop it first with `sendit stop`";

/// What `reset` does with the VM in `dir`, if it is `there`, given its state and
/// whether the answer is known to be `yes`.
pub fn reset(paths: &Paths, dir: &VmDir, there: bool, state: State, yes: bool) -> (r: Reset)
    ensures
        r is NoVm <==> !there,
        r is Running <==> there && state !is Stopped,
        r is Delete <==> there && state is Stopped && yes,
        r is Ask <==> there && state is Stopped && !yes,
        r is Ask ==> r->Ask_0.question@ == "Delete "@ + text_of(shown(paths@, dir@))
            + " and everything stored in it? The next `run` starts from a fresh copy of the base image."@,
        r is Ask ==> r->Ask_0.no_terminal@ == PASS_YES@,
{
    if !there {
        return Reset::NoVm;
    }
    match state {
        State::Running(_) => Reset::Running,
        State::Stopped => if yes {
            Reset::Delete
        } else {
            Reset::Ask(
                Question {
                    question: "Delete ".to_owned().concat(
                        paths.display(dir.path()).as_str(),
                    ).concat(
                        " and everything stored in it? The next `run` starts from a fresh copy of the base image.",
                    ),
                    no_terminal: PASS_YES.to_owned(),
                },
            )
        },
    }
}

pub fn deleted(paths: &Paths, dir: &VmDir) -> (s: String)
    ensures
        s@ == "Deleted "@ + text_of(shown(paths@, dir@)) + "."@,
{
    "Deleted ".to_owned().concat(paths.display(dir.path()).as_str()).concat(".")
}

// ---------------------------------------------------------------------------
// Project directories
// ---------------------------------------------------------------------------

/// Whether a VM's project directory is still there.
#[derive(Debug)]
pub enum ProjectDir {
    Present,
    Missing,
    /// Below `/Volumes/<name>`, and that volume isn't mounted: the project
    /// may well come back.
    Unmounted,
    /// Can't tell, e.g. for lack of permissions.
    Inaccessible(String),
}

/// Whether a VM's project directory is still there, as a mathematical value.
pub enum ProjectDirView {
    Present,
    Missing,
    Unmounted,
    Inaccessible(Seq<char>),
}

impl View for ProjectDir {
    type V = ProjectDirView;

    open spec fn view(&self) -> ProjectDirView {
        match self {
            ProjectDir::Present => ProjectDirView::Present,
            ProjectDir::Missing => ProjectDirView::Missing,
            ProjectDir::Unmounted => ProjectDirView::Unmounted,
            ProjectDir::Inaccessible(reason) => ProjectDirView::Inaccessible(reason@),
        }
    }
}

/// The volume that a path lies on: `/Volumes/<name>`, if it is below that.
pub open spec fn volume_of(path: Seq<u8>) -> Option<Seq<u8>> {
    let c = components(path);
    if c.len() > 2 && c[0] is Root && c[1] == Part::Normal(encode_utf8("Volumes"@)) && c[2] is Normal {
        Some(join(encode_utf8("/Volumes"@), c[2]->Normal_0))
    } else {
        None
    }
}

/// The volume that a path lies on, if it names one.
pub fn volume(path: &UnixPath) -> (r: Option<UnixPath>)
    ensures
        match r {
            Some(p) => volume_of(path@) == Some(p@),
            None => volume_of(path@) is None,
        },
{
    let v = path.components();
    let ghost c = components(path@);
    if v.len() <= 2 {
        return None;
    }
    assert(c[0] == v@[0]@);
    assert(c[1] == v@[1]@);
    assert(c[2] == v@[2]@);
    match &v[0] {
        Component::RootDir => {},
        _ => {
            return None;
        },
    }
    match &v[1] {
        Component::Normal(name) => if !same_bytes(name.as_slice(), "Volumes".as_bytes()) {
            return None;
        },
        _ => {
            return None;
        },
    }
    match &v[2] {
        Component::Normal(name) => Some(
            UnixPath::from_text("/Volumes").join(
                &UnixPath { bytes: crate::path::copy_bytes(name.as_slice()) },
            ),
        ),
        _ => None,
    }
}

/// Whether the project directory is still there, given whether it exists, or
/// why that can't be told, and whether the volume that it names is mounted.
pub fn project_dir(path: &UnixPath, looked: Result<bool, String>, mounted: bool) -> (r: ProjectDir)
    ensures
        match looked {
            Ok(there) => if there {
                r is Present
            } else if volume_of(path@) is Some && !mounted {
                r is Unmounted
            } else {
                r is Missing
            },
            Err(reason) => r == ProjectDir::Inaccessible(reason),
        },
{
    match looked {
        Ok(there) => if there {
            ProjectDir::Present
        } else {
            match volume(path) {
                Some(_) => if mounted {
                    ProjectDir::Missing
                } else {
                    ProjectDir::Unmounted
                },
                None => ProjectDir::Missing,
            }
        },
        Err(reason) => ProjectDir::Inaccessible(reason),
    }
}

// ---------------------------------------------------------------------------
// Pruning
// ---------------------------------------------------------------------------

/// What `prune` does with a VM.
#[derive(Debug)]
pub enum Verdict {
    /// Leave it alone.
    Keep,
    /// Leave it alone, and say why.
    Skip(String),
    /// Find out whether it is running first.
    NeedState,
    /// Its project is gone: delete it.
    Orphan,
}

/// What `prune` does with a VM, as a mathematical value.
pub enum VerdictView {
    Keep,
    Skip(Seq<char>),
    NeedState,
    Orphan,
}

impl View for Verdict {
    type V = VerdictView;

    open spec fn view(&self) -> VerdictView {
        match self {
            Verdict::Keep => VerdictView::Keep,
            Verdict::Skip(note) => VerdictView::Skip(note@),
            Verdict::NeedState => VerdictView::NeedState,
            Verdict::Orphan => VerdictView::Orphan,
        }
    }
}

/// What `prune` does with the VM of the project at `path`, given whether that
/// is still there, and the VM's state if it is known. A VM without metadata
/// has no path.
pub open spec fn verdict_of(
    path: Option<Seq<u8>>,
    project: ProjectDirView,
    state: Option<State>,
) -> VerdictView {
    match path {
        None => VerdictView::Keep,
        Some(path) => match project {
            ProjectDirView::Present => VerdictView::Keep,
            ProjectDirView::Unmounted => VerdictView::Skip(
                "Skipping "@ + text_of(path) + ": its volume is not mounted."@,
            ),
            ProjectDirView::Inaccessible(reason) => VerdictView::Skip(
                "Skipping "@ + text_of(path) + ": "@ + reason,
            ),
            ProjectDirView::Missing => match state {
                None => VerdictView::NeedState,
                Some(State::Stopped) => VerdictView::Orphan,
                Some(State::Running(_)) => VerdictView::Skip(
                    "Skipping "@ + text_of(path) + ": it is still running."@,
                ),
            },
        },
    }
}

/// The project's path that is recorded of a VM, if anything is.
pub open spec fn recorded_path(metadata: Option<Metadata>) -> Option<Seq<u8>> {
    match metadata {
        Some(m) => Some(m.project_path@),
        None => None,
    }
}

/// What `prune` does with a VM.
pub fn verdict(metadata: &Option<Metadata>, project: &ProjectDir, state: Option<State>) -> (v:
    Verdict)
    ensures
        v@ == verdict_of(recorded_path(*metadata), project@, state),
{
    let path = match metadata {
        None => {
            return Verdict::Keep;
        },
        Some(m) => &m.project_path,
    };
    match project {
        ProjectDir::Present => Verdict::Keep,
        ProjectDir::Unmounted => Verdict::Skip(
            "Skipping ".to_owned().concat(path.display().as_str()).concat(
                ": its volume is not mounted.",
            ),
        ),
        ProjectDir::Inaccessible(reason) => Verdict::Skip(
            "Skipping ".to_owned().concat(path.display().as_str()).concat(": ").concat(
                reason.as_str(),
            ),
        ),
        ProjectDir::Missing => match state {
            None => Verdict::NeedState,
            Some(State::Stopped) => Verdict::Orphan,
            Some(State::Running(_)) => Verdict::Skip(
                "Skipping ".to_owned().concat(path.display().as_str()).concat(
                    ": it is still running.",
                ),
            ),
        },
    }
}

/// A VM is pruned exactly if it is known to be stopped and its project
/// directory is known to be gone for good.
pub proof fn law_prunes_only_orphans(
    path: Option<Seq<u8>>,
    project: ProjectDirView,
    state: Option<State>,
)
    ensures
        verdict_of(path, project, state) is Orphan <==> path is Some && project is Missing && state
            == Some(State::Stopped),
{
}

/// A VM to be deleted.
#[derive(Debug)]
pub struct Orphan {
    pub dir: UnixPath,
    pub project: UnixPath,
}

/// A VM to be deleted, as a mathematical value.
pub struct OrphanView {
    pub dir: Seq<u8>,
    pub project: Seq<u8>,
}

impl View for Orphan {
    type V = OrphanView;

    open spec fn view(&self) -> OrphanView {
        OrphanView { dir: self.dir@, project: self.project@ }
    }
}

/// The orphans' values.
pub open spec fn orphan_views(v: Seq<Orphan>) -> Seq<OrphanView> {
    Seq::new(v.len(), |i: int| v[i]@)
}

/// The contents of strings.
pub open spec fn texts(v: Seq<String>) -> Seq<Seq<char>> {
    Seq::new(v.len(), |i: int| v[i]@)
}

/// A number of VMs for people to read.
pub open spec fn vm_count(n: nat) -> Seq<char> {
    if n == 1 {
        "1 VM"@
    } else {
        dec(n) + " VMs"@
    }
}

/// The line for an orphan.
pub open spec fn orphan_line(home: Seq<u8>, orphan: OrphanView) -> Seq<char> {
    "  "@ + text_of(orphan.project) + "  ("@ + text_of(shown(home, orphan.dir)) + ")"@
}

/// The list of orphans.
pub open spec fn orphan_lines(home: Seq<u8>, orphans: Seq<OrphanView>) -> Seq<Seq<char>> {
    seq!["VMs whose project directory no longer exists:"@] + Seq::new(
        orphans.len(),
        |i: int| orphan_line(home, orphans[i]),
    )
}

pub const NO_ORPHANS: &'static str = "No VMs of missing projects.";

/// What `prune` is about to do.
#[derive(Debug)]
pub struct Prune {
    /// The list of the VMs to delete.
    pub lines: Vec<String>,
    /// What to ask, unless the answer is known to be yes.
    pub question: Question,
    /// What to say once they are deleted.
    pub deleted: String,
}

/// What `prune` is about to do with `orphans`; nothing if there are none.
pub fn prune(paths: &Paths, orphans: &Vec<Orphan>) -> (p: Option<Prune>)
    ensures
        p is Some <==> orphans@.len() > 0,
        p is Some ==> texts(p->0.lines@) == orphan_lines(paths@, orphan_views(orphans@)),
        p is Some ==> p->0.question.question@ == "Delete "@ + vm_count(orphans@.len()) + "?"@,
        p is Some ==> p->0.question.no_terminal@ == PASS_YES@,
        p is Some ==> p->0.deleted@ == "Deleted "@ + vm_count(orphans@.len()) + "."@,
{
    if orphans.len() == 0 {
        return None;
    }
    let ghost all = orphan_lines(paths@, orphan_views(orphans@));
    let mut lines: Vec<String> = Vec::new();
    lines.push("VMs whose project directory no longer exists:".to_owned());
    assert(texts(lines@) == all.take(1));
    let mut i: usize = 0;
    while i < orphans.len()
        invariant
            i <= orphans@.len(),
            all == orphan_lines(paths@, orphan_views(orphans@)),
            texts(lines@) == all.take(i + 1),
        decreases orphans.len() - i,
    {
        let orphan = &orphans[i];
        let line = "  ".to_owned().concat(orphan.project.display().as_str()).concat("  (").concat(
            paths.display(&orphan.dir).as_str(),
        ).concat(")");
        assert(line@ == all[i + 1]);
        let ghost before = texts(lines@);
        lines.push(line);
        assert(texts(lines@) == before.push(all[i + 1]));
        assert(all.take(i + 2) == all.take(i + 1).push(all[i + 1]));
        i += 1;
    }
    assert(all.take(i + 1) == all);
    let count = if orphans.len() == 1 {
        "1 VM".to_owned()
    } else {
        decimal(orphans.len() as u64).concat(" VMs")
    };
    Some(
        Prune {
            lines,
            question: Question {
                question: "Delete ".to_owned().concat(count.as_str()).concat("?"),
                no_terminal: PASS_YES.to_owned(),
            },
            deleted: "Deleted ".to_owned().concat(count.as_str()).concat("."),
        },
    )
}

// ---------------------------------------------------------------------------
// Provisioning
// ---------------------------------------------------------------------------

/// The images that `provision` builds: all `known` ones, else the given one,
/// else `own`, the image of the project's VM.
pub fn images_to_provision(
    all: bool,
    known: Vec<ImageName>,
    given: Option<ImageName>,
    own: Option<ImageName>,
) -> (v: Vec<ImageName>)
    ensures
        all ==> v == known,
        !all && given is Some ==> v@ == seq![given->0],
        !all && given is None && own is Some ==> v@ == seq![own->0],
        !all && given is None && own is None ==> v@.len() == 0,
{
    if all {
        return known;
    }
    let mut v: Vec<ImageName> = Vec::new();
    match given {
        Some(image) => v.push(image),
        None => match own {
            Some(image) => v.push(image),
            None => {},
        },
    }
    v
}

} // verus!
