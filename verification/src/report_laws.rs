//! What `status`, `list` and `images` say.
use vstd::prelude::*;
use vstd::string::*;
use vstd::utf8::*;

use crate::config::VmView;
use crate::foreign::text_of;
use crate::listing::{
    among, base_words, count, counts, image_lines, image_word, image_words, project_words,
    row_names, state_word, vm_line, vm_lines, width_of, ImageRowView, VmFactsView,
};
use crate::number::{dec, pad_left, pad_right};
use crate::paths::shown;
use crate::project_vm::{vm_dir_of, State};
use crate::provision::{command_text, image_dir_of, BaseState};
use crate::size::{approx_text, size_text};
use crate::status::{base_text, mount_line, status_lines, vm_text, VmStatusView};
use crate::table::value_of;
use crate::vm::net::Ipv4;

verus! {

// ---------------------------------------------------------------------------
// Status
// ---------------------------------------------------------------------------

/// What `status` says of a VM: where it runs if it runs, and else what keeps
/// it from being run, another image before an outdated one.
pub proof fn law_vm_status(image: Seq<char>, vm: VmStatusView, pid: u32, ip: Ipv4)
    ensures
        vm_text(image, None) == "not created"@,
        vm.state == State::Running(pid) && vm.ip == Some(ip) ==> vm_text(image, Some(vm))
            == "running at "@ + ip.text(),
        vm.state == State::Running(pid) && vm.ip is None ==> vm_text(image, Some(vm))
            == "running"@,
        vm.state is Stopped && vm.metadata is Some && vm.metadata->0.image != image ==> vm_text(
            image,
            Some(vm),
        ) == "stopped; made from the "@ + vm.metadata->0.image
            + " image, `sendit reset` recreates it from "@ + image,
        vm.state is Stopped && vm.metadata is Some && vm.metadata->0.image == image && (
        vm.metadata->0.base_revision is None || vm.metadata->0.base_revision->0 < 5) ==> vm_text(
            image,
            Some(vm),
        ) == "stopped; made from an outdated base image, `sendit reset` recreates it"@,
        vm.state is Stopped && (vm.metadata is None || (vm.metadata->0.image == image
            && vm.metadata->0.base_revision is Some && vm.metadata->0.base_revision->0 >= 5))
            ==> vm_text(image, Some(vm)) == "stopped"@,
{
}

/// What `status` says of an image: the command that builds it if there is
/// none, the one that rebuilds it if it is not current.
pub proof fn law_base_status(image: Seq<char>)
    ensures
        base_text(image, BaseState::Missing) == "run `"@ + command_text(image, false) + "`"@,
        base_text(image, BaseState::Outdated) == "outdated; `"@ + command_text(image, true)
            + "` rebuilds it"@,
        base_text(image, BaseState::ScriptsChanged) == "custom scripts changed; `"@ + command_text(
            image,
            true,
        ) + "` rebuilds it"@,
        base_text(image, BaseState::Current) == "provisioned"@,
{
}

/// `status` has seven lines for the image, the project, the VM and the
/// settings, and one for each mount.
pub proof fn law_status(
    home: Seq<u8>,
    root: Seq<u8>,
    id: Seq<char>,
    settings: VmView,
    image: Seq<char>,
    base: BaseState,
    vm: Option<VmStatusView>,
    i: int,
)
    ensures
        ({
            let lines = status_lines(home, root, id, settings, image, base, vm);
            &&& lines.len() == 7 + settings.mounts.len()
            &&& lines[0] == "image    "@ + image + " in "@ + text_of(
                shown(home, image_dir_of(home, image)),
            ) + " ("@ + base_text(image, base) + ")"@
            &&& lines[1] == "project  "@ + text_of(root)
            &&& lines[2] == "vm       "@ + text_of(shown(home, vm_dir_of(home, id))) + " ("@
                + vm_text(image, vm) + ")"@
            &&& lines[3] == "cpus     "@ + dec(settings.cpus as nat)
            &&& lines[4] == "memory   "@ + size_text(settings.memory.0 as nat)
            &&& lines[5] == "disk     "@ + size_text(settings.disk_size.0 as nat) + " max"@
            &&& settings.expose_git ==> lines[6] == ".git     visible"@
            &&& !settings.expose_git ==> lines[6] == ".git     hidden"@
            &&& 0 <= i < settings.mounts.len() ==> lines[7 + i] == (if i == 0 {
                "mounts   "@
            } else {
                "         "@
            }) + text_of(shown(home, settings.mounts[i].host)) + " -> "@ + text_of(
                settings.mounts[i].guest,
            ) + (if settings.mounts[i].read_only {
                " (ro)"@
            } else {
                " (rw)"@
            })
        }),
{
    let lines = status_lines(home, root, id, settings, image, base, vm);
    reveal_strlit(".git     ");
    reveal_strlit("visible");
    reveal_strlit("hidden");
    reveal_strlit(".git     visible");
    reveal_strlit(".git     hidden");
    assert(".git     "@ + "visible"@ =~= ".git     visible"@);
    assert(".git     "@ + "hidden"@ =~= ".git     hidden"@);
    if 0 <= i < settings.mounts.len() {
        reveal_strlit("mounts");
        reveal_strlit("");
        reveal_strlit(" ");
        reveal_strlit("mounts   ");
        reveal_strlit("         ");
        reveal_strlit(" (");
        reveal_strlit(")");
        reveal_strlit("ro");
        reveal_strlit("rw");
        reveal_strlit(" (ro)");
        reveal_strlit(" (rw)");
        assert(pad_right("mounts"@, 8) + " "@ =~= "mounts   "@);
        assert(pad_right(""@, 8) + " "@ =~= "         "@);
        let lead = pad_right(
            if i == 0 {
                "mounts"@
            } else {
                ""@
            },
            8,
        ) + " "@ + text_of(shown(home, settings.mounts[i].host)) + " -> "@ + text_of(
            settings.mounts[i].guest,
        );
        assert(lead + " ("@ + "ro"@ + ")"@ =~= lead + " (ro)"@);
        assert(lead + " ("@ + "rw"@ + ")"@ =~= lead + " (rw)"@);
        assert(lines[7 + i] == mount_line(home, settings.mounts, i));
    }
}

// ---------------------------------------------------------------------------
// Lists
// ---------------------------------------------------------------------------

/// A column is as wide as the longest of its header and its values, and no
/// wider.
pub proof fn law_width(header: Seq<char>, values: Seq<Seq<char>>, n: nat, i: int)
    requires
        n <= values.len(),
    ensures
        width_of(header, values, n) >= encode_utf8(header).len(),
        0 <= i < n ==> width_of(header, values, n) >= encode_utf8(values[i]).len(),
        width_of(header, values, n) == encode_utf8(header).len() || exists|k: int|
            0 <= k < n && width_of(header, values, n) == encode_utf8(#[trigger] values[k]).len(),
    decreases n,
{
    if n > 0 {
        law_width(header, values, (n - 1) as nat, i);
        let before = width_of(header, values, (n - 1) as nat);
        if before >= encode_utf8(values[n - 1]).len() {
            if before != encode_utf8(header).len() {
                let k = choose|k: int|
                    0 <= k < n - 1 && before == encode_utf8(#[trigger] values[k]).len();
                assert(width_of(header, values, n) == encode_utf8(values[k]).len());
            }
        } else {
            assert(width_of(header, values, n) == encode_utf8(values[n - 1]).len());
        }
    }
}

/// The columns of a list of VMs line up: the last one starts at the same place
/// in every line whose contents fit.
pub proof fn law_columns_line_up(
    state: Seq<char>,
    disk: Seq<char>,
    image: Seq<char>,
    project: Seq<char>,
    width: nat,
)
    requires
        state.len() <= 8,
        disk.len() <= 9,
        image.len() <= width,
    ensures
        ({
            let line = vm_line(state, disk, image, project, width);
            &&& line.len() == 22 + width + project.len()
            &&& line.skip((22 + width) as int) == project
            &&& line.take(state.len() as int) == state
            &&& line.subrange(18 - disk.len(), 18) == disk
            &&& line.subrange(20, (20 + image.len()) as int) == image
            &&& forall|k: int|
                state.len() <= k < 18 - disk.len() || 18 <= k < 20 || 20 + image.len() <= k < 22
                    + width ==> #[trigger] line[k] == ' '
        }),
{
    reveal_strlit(" ");
    reveal_strlit("  ");
    let line = vm_line(state, disk, image, project, width);
    assert(line.skip((22 + width) as int) =~= project);
    assert(line.take(state.len() as int) =~= state);
    assert(line.subrange(18 - disk.len(), 18) =~= disk);
    assert(line.subrange(20, (20 + image.len()) as int) =~= image);
}

/// The list of VMs has a header and one line for each VM, with its state, the
/// space that it takes up, its image and its project.
pub proof fn law_vm_list(home: Seq<u8>, vms: Seq<VmFactsView>, i: int)
    requires
        0 <= i < vms.len(),
    ensures
        ({
            let lines = vm_lines(home, vms);
            let width = width_of("IMAGE"@, image_words(vms), vms.len());
            let vm = vms[i];
            &&& lines.len() == vms.len() + 1
            &&& lines[0] == vm_line("STATE"@, "DISK"@, "IMAGE"@, "PROJECT"@, width)
            &&& lines[i + 1] == vm_line(
                state_word(vm),
                approx_text(vm.disk.0 as nat),
                image_word(vm),
                project_words(home, vm),
                width,
            )
            &&& image_words(vms).len() == vms.len()
            &&& image_words(vms)[i] == image_word(vm)
            &&& state_word(vm) == (if vm.state !is Stopped {
                "running"@
            } else if vm.metadata is Some && (vm.metadata->0.base_revision is None
                || vm.metadata->0.base_revision->0 < 5) {
                "outdated"@
            } else {
                "stopped"@
            })
            &&& vm.metadata is Some ==> image_word(vm) == vm.metadata->0.image
            &&& vm.metadata is None ==> image_word(vm) == "?"@
            &&& vm.metadata is None ==> project_words(home, vm) == "? ("@ + text_of(
                shown(home, vm.dir),
            ) + ")"@
            &&& vm.metadata is Some ==> project_words(home, vm) == text_of(
                vm.metadata->0.project_path,
            ) + (if vm.project is Present {
                Seq::empty()
            } else if vm.project is Missing {
                " (missing)"@
            } else if vm.project is Unmounted {
                " (volume not mounted)"@
            } else {
                " (inaccessible)"@
            })
        }),
{
    reveal_strlit("");
    assert(""@ =~= Seq::<char>::empty());
}

/// The list of images has a header and one line for each image, with its name,
/// its state, the space that it takes up if it is there, and the number of VMs
/// made from it, in columns.
pub proof fn law_image_list(rows: Seq<ImageRowView>, i: int)
    requires
        0 <= i < rows.len(),
    ensures
        ({
            let lines = image_lines(rows);
            let width = width_of("IMAGE"@, row_names(rows), rows.len());
            let row = rows[i];
            &&& lines.len() == rows.len() + 1
            &&& lines[0] == pad_right("IMAGE"@, width) + "  "@ + pad_right("STATE"@, 15) + " "@
                + pad_left("DISK"@, 9) + "  "@ + "VMS"@
            &&& lines[i + 1] == pad_right(row.name, width) + "  "@ + pad_right(
                base_words(row.state),
                15,
            ) + " "@ + pad_left(
                if row.state is Missing {
                    "-"@
                } else {
                    approx_text(row.disk.0 as nat)
                },
                9,
            ) + "  "@ + dec(row.vms as nat)
            &&& row_names(rows).len() == rows.len()
            &&& row_names(rows)[i] == row.name
            &&& base_words(BaseState::Missing) == "missing"@
            &&& base_words(BaseState::Outdated) == "outdated"@
            &&& base_words(BaseState::ScriptsChanged) == "scripts changed"@
            &&& base_words(BaseState::Current) == "provisioned"@
        }),
{
}

proof fn lemma_count_filter(list: Seq<Seq<char>>, name: Seq<char>, n: nat)
    requires
        n <= list.len(),
    ensures
        count(list, name, n) == list.take(n as int).filter(|x: Seq<char>| x == name).len(),
    decreases n,
{
    reveal(Seq::filter);
    if n > 0 {
        lemma_count_filter(list, name, (n - 1) as nat);
        assert(list.take(n as int).drop_last() == list.take(n - 1));
        assert(list.take(n as int).last() == list[n - 1]);
    }
}

/// An image is listed if and only if it is known or a VM was made from it, and
/// with as many VMs as were.
pub proof fn law_image_counts(
    es: Seq<(Seq<char>, u64)>,
    known: Seq<Seq<char>>,
    vms: Seq<Seq<char>>,
    name: Seq<char>,
)
    requires
        counts(es, known, known.len(), vms, vms.len()),
    ensures
        value_of(es, name) is Some <==> known.contains(name) || vms.contains(name),
        value_of(es, name) is Some ==> value_of(es, name)->0 == vms.filter(
            |x: Seq<char>| x == name,
        ).len() as u64,
{
    lemma_count_filter(vms, name, vms.len());
    assert(vms.take(vms.len() as int) == vms);
    if known.contains(name) {
        let i = choose|i: int| 0 <= i < known.len() && known[i] == name;
        assert(among(known, name, known.len()));
    }
    if vms.contains(name) {
        let i = choose|i: int| 0 <= i < vms.len() && vms[i] == name;
        assert(among(vms, name, vms.len()));
    }
    assert(value_of(es, name) is Some ==> among(known, name, known.len()) || among(
        vms,
        name,
        vms.len(),
    ));
}

} // verus!
