//! What cleaning up VMs comes to.
use vstd::prelude::*;
use vstd::string::*;
use vstd::utf8::*;

use crate::commands::{
    contains_path, means_yes, orphan_lines, verdict_of, vm_count, volume_of, OrphanView,
    ProjectDirView,
};
use crate::foreign::text_of;
use crate::number::dec;
use crate::path::{components, join, Part};
use crate::path_laws::{lemma_join_one, proper_name};
use crate::paths::shown;
use crate::project_vm::State;
use crate::text_laws::{all_white, law_trim};

verus! {

// ---------------------------------------------------------------------------
// Confirming
// ---------------------------------------------------------------------------

/// `y` and `yes` mean yes, also with a capital, with white space around them;
/// nothing else does.
pub proof fn law_yes(a: Seq<char>, answer: Seq<char>, b: Seq<char>)
    requires
        all_white(a),
        all_white(b),
        answer.len() > 0 ==> !crate::text::is_white(answer[0]) && !crate::text::is_white(
            answer.last(),
        ),
    ensures
        means_yes(a + answer + b) <==> answer == seq!['y'] || answer == seq!['Y'] || answer == seq![
            'y',
            'e',
            's',
        ] || answer == seq!['Y', 'e', 's'],
{
    law_trim(a, answer, b);
    reveal_strlit("y");
    reveal_strlit("Y");
    reveal_strlit("yes");
    reveal_strlit("Yes");
    assert("y"@ == seq!['y']);
    assert("Y"@ == seq!['Y']);
    assert("yes"@ == seq!['y', 'e', 's']);
    assert("Yes"@ == seq!['Y', 'e', 's']);
}

/// A directory contains itself and whatever lies below it, and it contains
/// nothing that starts with other components.
pub proof fn law_contains(dir: Seq<u8>, name: Seq<u8>, path: Seq<u8>, i: int)
    ensures
        contains_path(dir, dir),
        dir.len() > 0 && proper_name(name) ==> contains_path(dir, join(dir, name)),
        dir.len() > 0 && proper_name(name) ==> !contains_path(join(dir, name), dir),
        contains_path(dir, path) && 0 <= i < components(dir).len() ==> i < components(path).len()
            && components(path)[i] == components(dir)[i],
{
    let c = components(dir);
    assert(c.take(c.len() as int) == c);
    if dir.len() > 0 && proper_name(name) {
        lemma_join_one(dir, name);
        assert(c.push(Part::Normal(name)).take(c.len() as int) == c);
    }
    if contains_path(dir, path) && 0 <= i < c.len() {
        assert(components(path).take(c.len() as int)[i] == components(path)[i]);
    }
}

// ---------------------------------------------------------------------------
// Volumes
// ---------------------------------------------------------------------------

/// A path lies on the volume `name` if and only if its first components are
/// the root directory, `Volumes` and `name`.
pub proof fn law_volumes(path: Seq<u8>)
    ensures
        volume_of(path) is Some <==> components(path).len() > 2 && components(path)[0]
            == Part::Root && components(path)[1] == Part::Normal(encode_utf8("Volumes"@))
            && components(path)[2] is Normal,
        volume_of(path) is Some && proper_name(components(path)[2]->Normal_0) ==> components(
            volume_of(path)->0,
        ) == components(encode_utf8("/Volumes"@)).push(components(path)[2]),
{
    reveal_strlit("/Volumes");
    is_ascii_chars_encode_utf8("/Volumes"@);
    if volume_of(path) is Some && proper_name(components(path)[2]->Normal_0) {
        lemma_join_one(encode_utf8("/Volumes"@), components(path)[2]->Normal_0);
    }
}

// ---------------------------------------------------------------------------
// Pruning
// ---------------------------------------------------------------------------

/// Pruning leaves a VM alone without a word if nothing is recorded of it or
/// its project is there. It asks for the state of one whose project is gone,
/// and otherwise says why a VM is skipped, naming its project.
pub proof fn law_prune_says_why(
    path: Option<Seq<u8>>,
    project: ProjectDirView,
    state: Option<State>,
)
    ensures
        verdict_of(path, project, state) is Keep <==> path is None || project is Present,
        verdict_of(path, project, state) is NeedState <==> path is Some && project is Missing
            && state is None,
        verdict_of(path, project, state) is Skip <==> path is Some && (project is Unmounted
            || project is Inaccessible || (project is Missing && state is Some
            && state->0 is Running)),
        verdict_of(path, project, state) is Orphan <==> path is Some && project is Missing
            && state is Some && state->0 is Stopped,
        verdict_of(path, project, state) is Skip ==> verdict_of(path, project, state)->Skip_0
            == "Skipping "@ + text_of(path->0) + (if project is Unmounted {
            ": its volume is not mounted."@
        } else if project is Inaccessible {
            ": "@ + project->Inaccessible_0
        } else {
            ": it is still running."@
        }),
{
    if path is Some && project is Inaccessible {
        let head = "Skipping "@ + text_of(path->0);
        let reason = project->Inaccessible_0;
        assert(head + ": "@ + reason == head + (": "@ + reason));
    }
}

/// The list before the question names every VM that will be deleted, in
/// order: its project, and its directory in brackets.
pub proof fn law_prune_names_each(home: Seq<u8>, orphans: Seq<OrphanView>, i: int)
    requires
        0 <= i < orphans.len(),
    ensures
        orphan_lines(home, orphans).len() == orphans.len() + 1,
        orphan_lines(home, orphans)[i + 1] == seq![' ', ' '] + text_of(orphans[i].project) + seq![
            ' ',
            ' ',
            '(',
        ] + text_of(shown(home, orphans[i].dir)) + seq![')'],
        orphan_lines(home, orphans)[0] == "VMs whose project directory no longer exists:"@,
{
    reveal_strlit("  ");
    reveal_strlit("  (");
    reveal_strlit(")");
    assert("  "@ == seq![' ', ' ']);
    assert("  ("@ == seq![' ', ' ', '(']);
    assert(")"@ == seq![')']);
}

/// VMs of the same project whose directories are shown differently have
/// different lines.
pub proof fn law_prune_tells_apart(home: Seq<u8>, orphans: Seq<OrphanView>, i: int, j: int)
    requires
        0 <= i < orphans.len(),
        0 <= j < orphans.len(),
    ensures
        orphans[i].project == orphans[j].project && text_of(shown(home, orphans[i].dir))
            != text_of(shown(home, orphans[j].dir)) ==> orphan_lines(home, orphans)[i + 1]
            != orphan_lines(home, orphans)[j + 1],
{
    law_prune_names_each(home, orphans, i);
    law_prune_names_each(home, orphans, j);
    let x = text_of(shown(home, orphans[i].dir));
    let y = text_of(shown(home, orphans[j].dir));
    let head = seq![' ', ' '] + text_of(orphans[i].project) + seq![' ', ' ', '('];
    if orphans[i].project == orphans[j].project {
        let a = head + x + seq![')'];
        let b = head + y + seq![')'];
        if a == b {
            assert(a.subrange(head.len() as int, a.len() - 1) == x);
            assert(b.subrange(head.len() as int, b.len() - 1) == y);
        }
    }
}

/// The number of VMs is said as it is, and one VM is no plural.
pub proof fn law_vm_counts(n: nat)
    ensures
        vm_count(1) == "1 VM"@,
        n != 1 ==> vm_count(n) == dec(n) + " VMs"@,
{
}

} // verus!
