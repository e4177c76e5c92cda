//! What `list` and `images` print.
use vstd::prelude::*;
use vstd::string::*;
use vstd::utf8::*;

use crate::commands::{texts, ProjectDir, ProjectDirView};
use crate::foreign::text_of;
use crate::number::{dec, decimal, pad_left, pad_right, padded_left, padded_right};
use crate::path::UnixPath;
use crate::paths::{shown, ImageName, Paths};
use crate::project_vm::{is_outdated, metadata_view, Metadata, MetadataView, State};
use crate::provision::BaseState;
use crate::provision_table::image_names;
use crate::size::{approx_text, ByteSize};
use crate::table::{by_name, increasing, law_table_put_get, value_of, NameTable};

verus! {

/// The larger of two numbers.
pub open spec fn larger(a: nat, b: nat) -> nat {
    if a < b {
        b
    } else {
        a
    }
}

/// The width of a column with `header` and the first `n` of `values`, in
/// bytes.
pub open spec fn width_of(header: Seq<char>, values: Seq<Seq<char>>, n: nat) -> nat
    decreases n,
{
    if n == 0 {
        encode_utf8(header).len()
    } else {
        larger(
            width_of(header, values, (n - 1) as nat),
            encode_utf8(values[n - 1]).len(),
        )
    }
}

/// The width of a column with `header` and `values`.
pub fn column_width(header: &str, values: &Vec<String>) -> (w: usize)
    ensures
        w == width_of(header@, texts(values@), values@.len()),
{
    let ghost all = texts(values@);
    let mut w: usize = header.as_bytes().len();
    let mut i: usize = 0;
    while i < values.len()
        invariant
            i <= values@.len(),
            all == texts(values@),
            w == width_of(header@, all, i as nat),
        decreases values.len() - i,
    {
        let n = values[i].as_str().as_bytes().len();
        assert(all[i as int] == values@[i as int]@);
        if w < n {
            w = n;
        }
        i += 1;
    }
    w
}

// ---------------------------------------------------------------------------
// VMs
// ---------------------------------------------------------------------------

/// What is known of a VM.
#[derive(Debug)]
pub struct VmFacts {
    pub dir: UnixPath,
    /// What is recorded of it, if that can be read.
    pub metadata: Option<Metadata>,
    pub state: State,
    /// Whether its project is there, if it is recorded.
    pub project: ProjectDir,
    /// The space that its disk takes up.
    pub disk: ByteSize,
}

/// What is known of a VM, as a mathematical value.
pub struct VmFactsView {
    pub dir: Seq<u8>,
    pub metadata: Option<MetadataView>,
    pub state: State,
    pub project: ProjectDirView,
    pub disk: ByteSize,
}

impl View for VmFacts {
    type V = VmFactsView;

    open spec fn view(&self) -> VmFactsView {
        VmFactsView {
            dir: self.dir@,
            metadata: metadata_view(self.metadata),
            state: self.state,
            project: self.project@,
            disk: self.disk,
        }
    }
}

/// The facts' values.
pub open spec fn facts_views(v: Seq<VmFacts>) -> Seq<VmFactsView> {
    Seq::new(v.len(), |i: int| v[i]@)
}

/// The word for the state of a VM.
pub open spec fn state_word(vm: VmFactsView) -> Seq<char> {
    match vm.state {
        State::Running(_) => "running"@,
        State::Stopped => if vm.metadata is Some && is_outdated(vm.metadata->0) {
            "outdated"@
        } else {
            "stopped"@
        },
    }
}

/// The image of a VM, as listed.
pub open spec fn image_word(vm: VmFactsView) -> Seq<char> {
    match vm.metadata {
        Some(m) => m.image,
        None => "?"@,
    }
}

/// The project of a VM, as listed.
pub open spec fn project_words(home: Seq<u8>, vm: VmFactsView) -> Seq<char> {
    match vm.metadata {
        Some(m) => text_of(m.project_path) + (match vm.project {
            ProjectDirView::Present => ""@,
            ProjectDirView::Missing => " (missing)"@,
            ProjectDirView::Unmounted => " (volume not mounted)"@,
            ProjectDirView::Inaccessible(_) => " (inaccessible)"@,
        }),
        None => "? ("@ + text_of(shown(home, vm.dir)) + ")"@,
    }
}

/// The images of VMs, as listed.
pub open spec fn image_words(vms: Seq<VmFactsView>) -> Seq<Seq<char>> {
    Seq::new(vms.len(), |i: int| image_word(vms[i]))
}

/// One line of the list, from the contents of its columns.
pub open spec fn vm_line(
    state: Seq<char>,
    disk: Seq<char>,
    image: Seq<char>,
    project: Seq<char>,
    width: nat,
) -> Seq<char> {
    pad_right(state, 8) + " "@ + pad_left(disk, 9) + "  "@ + pad_right(image, width) + "  "@
        + project
}

/// The lines of the list of VMs.
pub open spec fn vm_lines(home: Seq<u8>, vms: Seq<VmFactsView>) -> Seq<Seq<char>> {
    let width = width_of("IMAGE"@, image_words(vms), vms.len());
    seq![vm_line("STATE"@, "DISK"@, "IMAGE"@, "PROJECT"@, width)] + Seq::new(
        vms.len(),
        |i: int|
            vm_line(
                state_word(vms[i]),
                approx_text(vms[i].disk.0 as nat),
                image_word(vms[i]),
                project_words(home, vms[i]),
                width,
            ),
    )
}

fn listed_state(vm: &VmFacts) -> (s: &'static str)
    ensures
        s@ == state_word(vm@),
{
    match vm.state {
        State::Running(_) => "running",
        State::Stopped => match &vm.metadata {
            Some(m) => if m.outdated() {
                "outdated"
            } else {
                "stopped"
            },
            None => "stopped",
        },
    }
}

fn listed_image(vm: &VmFacts) -> (s: String)
    ensures
        s@ == image_word(vm@),
{
    match &vm.metadata {
        Some(m) => m.image.to_string(),
        None => "?".to_owned(),
    }
}

fn listed_project(paths: &Paths, vm: &VmFacts) -> (s: String)
    ensures
        s@ == project_words(paths@, vm@),
{
    match &vm.metadata {
        Some(m) => {
            let note = match &vm.project {
                ProjectDir::Present => "",
                ProjectDir::Missing => " (missing)",
                ProjectDir::Unmounted => " (volume not mounted)",
                ProjectDir::Inaccessible(_) => " (inaccessible)",
            };
            m.project_path.display().concat(note)
        },
        None => "? (".to_owned().concat(paths.display(&vm.dir).as_str()).concat(")"),
    }
}

fn vm_row(state: &str, disk: &str, image: &str, project: &str, width: usize) -> (s: String)
    ensures
        s@ == vm_line(state@, disk@, image@, project@, width as nat),
{
    padded_right(state, 8).concat(" ").concat(padded_left(disk, 9).as_str()).concat("  ").concat(
        padded_right(image, width).as_str(),
    ).concat("  ").concat(project)
}

/// What `list` prints.
#[derive(Debug)]
pub enum Listing {
    /// That there are no VMs.
    Nothing(String),
    Lines(Vec<String>),
}

/// What `list` prints for `vms`.
pub fn list(paths: &Paths, vms: &Vec<VmFacts>) -> (l: Listing)
    ensures
        vms@.len() == 0 ==> l is Nothing && l->Nothing_0@ == "No VMs in "@ + text_of(
            shown(paths@, crate::paths::vms_dir_of(paths@)),
        ) + "."@,
        vms@.len() > 0 ==> l is Lines && texts(l->Lines_0@) == vm_lines(
            paths@,
            facts_views(vms@),
        ),
{
    if vms.len() == 0 {
        return Listing::Nothing(
            "No VMs in ".to_owned().concat(paths.display(&paths.vms_dir()).as_str()).concat("."),
        );
    }
    let ghost views = facts_views(vms@);
    let ghost words = image_words(views);
    let mut images: Vec<String> = Vec::new();
    let mut i: usize = 0;
    while i < vms.len()
        invariant
            i <= vms@.len(),
            views == facts_views(vms@),
            words == image_words(views),
            texts(images@) == words.take(i as int),
        decreases vms.len() - i,
    {
        let ghost before = texts(images@);
        assert(views[i as int] == vms@[i as int]@);
        images.push(listed_image(&vms[i]));
        assert(texts(images@) == before.push(words[i as int]));
        assert(words.take(i + 1) == words.take(i as int).push(words[i as int]));
        i += 1;
    }
    assert(words.take(i as int) == words);
    assert(texts(images@).len() == images@.len());
    let width = column_width("IMAGE", &images);
    let ghost all = vm_lines(paths@, views);
    let mut lines: Vec<String> = Vec::new();
    lines.push(vm_row("STATE", "DISK", "IMAGE", "PROJECT", width));
    assert(texts(lines@) == all.take(1));
    let mut k: usize = 0;
    while k < vms.len()
        invariant
            k <= vms@.len(),
            views == facts_views(vms@),
            words == image_words(views),
            texts(images@) == words,
            images@.len() == vms@.len(),
            width == width_of("IMAGE"@, words, views.len()),
            all == vm_lines(paths@, views),
            texts(lines@) == all.take(k + 1),
        decreases vms.len() - k,
    {
        let vm = &vms[k];
        assert(views[k as int] == vm@);
        assert(texts(images@)[k as int] == images@[k as int]@);
        let line = vm_row(
            listed_state(vm),
            vm.disk.approx().as_str(),
            images[k].as_str(),
            listed_project(paths, vm).as_str(),
            width,
        );
        assert(line@ == all[k + 1]);
        let ghost before = texts(lines@);
        lines.push(line);
        assert(texts(lines@) == before.push(all[k + 1]));
        assert(all.take(k + 2) == all.take(k + 1).push(all[k + 1]));
        k += 1;
    }
    assert(all.take(k + 1) == all);
    Listing::Lines(lines)
}

// ---------------------------------------------------------------------------
// Images
// ---------------------------------------------------------------------------

/// How often `name` stands among the first `n` of `list`.
pub open spec fn count(list: Seq<Seq<char>>, name: Seq<char>, n: nat) -> nat
    decreases n,
{
    if n == 0 {
        0
    } else {
        count(list, name, (n - 1) as nat) + (if list[n - 1] == name {
            1nat
        } else {
            0
        })
    }
}

/// Whether `name` stands among the first `n` of `list`.
pub open spec fn among(list: Seq<Seq<char>>, name: Seq<char>, n: nat) -> bool {
    exists|i: int| 0 <= i < n && #[trigger] list[i] == name
}

proof fn lemma_count(list: Seq<Seq<char>>, name: Seq<char>, n: nat)
    requires
        n <= list.len(),
    ensures
        count(list, name, n) <= n,
        count(list, name, n) > 0 <==> among(list, name, n),
    decreases n,
{
    if n > 0 {
        lemma_count(list, name, (n - 1) as nat);
        if list[n - 1] == name {
            assert(among(list, name, n));
        } else if among(list, name, n) {
            let i = choose|i: int| 0 <= i < n && #[trigger] list[i] == name;
            assert(among(list, name, (n - 1) as nat));
        } else {
            assert(!among(list, name, (n - 1) as nat));
        }
    }
}

/// Whether the entries `es` hold, for each of the first `k` known images and
/// each image that one of the first `n` VMs was made from, how many of those
/// VMs were, and nothing else.
pub open spec fn counts(
    es: Seq<(Seq<char>, u64)>,
    known: Seq<Seq<char>>,
    k: nat,
    vms: Seq<Seq<char>>,
    n: nat,
) -> bool {
    forall|name: Seq<char>|
        #![trigger value_of(es, name)]
        if among(known, name, k) || among(vms, name, n) {
            value_of(es, name) == Some(count(vms, name, n) as u64)
        } else {
            value_of(es, name) is None
        }
}

/// All images to list, with the number of VMs made from each: those that are
/// known, and those that VMs were made from, which stay listed after they were
/// deleted.
pub fn image_table(known: &Vec<ImageName>, vms: &Vec<ImageName>) -> (t: NameTable<u64>)
    ensures
        counts(t@, image_names(known@), known@.len(), image_names(vms@), vms@.len()),
        increasing(t@, by_name()),
{
    let ghost kv = image_names(known@);
    let ghost vv = image_names(vms@);
    let mut t: NameTable<u64> = NameTable::new();
    let mut i: usize = 0;
    assert(counts(t@, kv, 0, vv, 0));
    while i < known.len()
        invariant
            i <= known@.len(),
            kv == image_names(known@),
            counts(t@, kv, i as nat, vv, 0),
            increasing(t@, by_name()),
        decreases known.len() - i,
    {
        let ghost before = t@;
        let ghost name = kv[i as int];
        t = t.with(known[i].clone(), 0);
        assert forall|other: Seq<char>| #![trigger value_of(t@, other)]
            if among(kv, other, (i + 1) as nat) || among(vv, other, 0) {
                value_of(t@, other) == Some(count(vv, other, 0) as u64)
            } else {
                value_of(t@, other) is None
            } by {
            law_table_put_get(before, name, 0u64, other);
            lemma_among(kv, other, i as nat);
        }
        i += 1;
    }
    let mut j: usize = 0;
    while j < vms.len()
        invariant
            j <= vms@.len(),
            i == known@.len(),
            kv == image_names(known@),
            vv == image_names(vms@),
            counts(t@, kv, kv.len(), vv, j as nat),
            increasing(t@, by_name()),
        decreases vms.len() - j,
    {
        let ghost before = t@;
        let ghost name = vv[j as int];
        let n = match t.get(&vms[j]) {
            Some(n) => *n,
            None => 0,
        };
        proof {
            lemma_count(vv, name, j as nat);
            assert(value_of(before, name) is Some ==> n == count(vv, name, j as nat));
            assert(n == count(vv, name, j as nat));
        }
        t = t.with(vms[j].clone(), n + 1);
        assert forall|other: Seq<char>| #![trigger value_of(t@, other)]
            if among(kv, other, kv.len()) || among(vv, other, (j + 1) as nat) {
                value_of(t@, other) == Some(count(vv, other, (j + 1) as nat) as u64)
            } else {
                value_of(t@, other) is None
            } by {
            law_table_put_get(before, name, (n + 1) as u64, other);
            lemma_among(vv, other, j as nat);
        }
        j += 1;
    }
    t
}

proof fn lemma_among(list: Seq<Seq<char>>, name: Seq<char>, n: nat)
    requires
        n < list.len(),
    ensures
        among(list, name, n + 1) <==> among(list, name, n) || list[n as int] == name,
{
    if list[n as int] == name {
        assert(among(list, name, n + 1));
    }
    if among(list, name, n) {
        let i = choose|i: int| 0 <= i < n && #[trigger] list[i] == name;
        assert(among(list, name, n + 1));
    }
}

/// The names of a table's entries.
pub fn table_names(t: &NameTable<u64>) -> (v: Vec<ImageName>)
    ensures
        image_names(v@) == Seq::new(t@.len(), |i: int| t@[i].0),
{
    let ghost all = Seq::new(t@.len(), |i: int| t@[i].0);
    let mut v: Vec<ImageName> = Vec::new();
    let mut i: usize = 0;
    while i < t.len()
        invariant
            i <= t@.len(),
            all == Seq::new(t@.len(), |i: int| t@[i].0),
            image_names(v@) == all.take(i as int),
        decreases t@.len() - i,
    {
        let ghost before = image_names(v@);
        v.push(t.name(i).clone());
        assert(image_names(v@) == before.push(all[i as int]));
        assert(all.take(i + 1) == all.take(i as int).push(all[i as int]));
        i += 1;
    }
    assert(all.take(i as int) == all);
    v
}

/// The images that can be provisioned, in order and each once: the default
/// one, those that the config file names and those that are there.
pub fn known_images(named: &Vec<ImageName>, there: &Vec<ImageName>) -> (v: Vec<ImageName>)
    ensures
        forall|name: Seq<char>|
            image_names(v@).contains(name) <==> name == "default"@ || image_names(
                named@,
            ).contains(name) || image_names(there@).contains(name),
        forall|i: int, j: int|
            0 <= i < j < v@.len() ==> crate::paths::name_less(
                (#[trigger] v@[i])@,
                (#[trigger] v@[j])@,
            ),
{
    let mut all: Vec<ImageName> = Vec::new();
    all.push(ImageName::default());
    assert(image_names(all@) == seq!["default"@]);
    push_all(&mut all, named);
    push_all(&mut all, there);
    let none: Vec<ImageName> = Vec::new();
    let t = image_table(&all, &none);
    let v = table_names(&t);
    proof {
        let names = image_names(all@);
        let es = t@;
        let out = image_names(v@);
        assert forall|name: Seq<char>| out.contains(name) <==> name == "default"@ || image_names(
            named@,
        ).contains(name) || image_names(there@).contains(name) by {
            lemma_entry(es, name);
            assert(among(names, name, names.len()) <==> names.contains(name));
            assert(!among(image_names(none@), name, 0));
            assert(out.contains(name) <==> value_of(es, name) is Some) by {
                if out.contains(name) {
                    let i = choose|i: int| 0 <= i < out.len() && out[i] == name;
                    assert(es[i].0 == name);
                }
                if value_of(es, name) is Some {
                    let i = choose|i: int| 0 <= i < es.len() && (#[trigger] es[i]).0 == name;
                    assert(out[i] == name);
                }
            }
            lemma_contains_parts(image_names(named@), image_names(there@), name, names);
        }
        let less = by_name();
        assert forall|i: int, j: int| 0 <= i < j < v@.len() implies crate::paths::name_less(
            (#[trigger] v@[i])@,
            (#[trigger] v@[j])@,
        ) by {
            assert(out[i] == es[i].0 && out[j] == es[j].0);
            assert(out[i] == v@[i]@ && out[j] == v@[j]@);
            assert(less(es[i].0, es[j].0));
        }
    }
    v
}

proof fn lemma_contains_parts(
    named: Seq<Seq<char>>,
    there: Seq<Seq<char>>,
    name: Seq<char>,
    all: Seq<Seq<char>>,
)
    requires
        all == seq!["default"@] + named + there,
    ensures
        all.contains(name) <==> name == "default"@ || named.contains(name) || there.contains(name),
{
    if name == "default"@ {
        assert(all[0] == name);
    }
    if named.contains(name) {
        let i = choose|i: int| 0 <= i < named.len() && named[i] == name;
        assert(all[i + 1] == name);
    }
    if there.contains(name) {
        let i = choose|i: int| 0 <= i < there.len() && there[i] == name;
        assert(all[i + 1 + named.len()] == name);
    }
    if all.contains(name) {
        let i = choose|i: int| 0 <= i < all.len() && all[i] == name;
        if 1 <= i <= named.len() {
            assert(named[i - 1] == name);
        } else if i > named.len() {
            assert(there[i - 1 - named.len()] == name);
        }
    }
}

proof fn lemma_entry(es: Seq<(Seq<char>, u64)>, name: Seq<char>)
    ensures
        value_of(es, name) is Some <==> exists|i: int|
            0 <= i < es.len() && (#[trigger] es[i]).0 == name,
    decreases es.len(),
{
    if es.len() > 0 {
        let rest = es.skip(1);
        lemma_entry(rest, name);
        if es[0].0 != name {
            if exists|i: int| 0 <= i < es.len() && (#[trigger] es[i]).0 == name {
                let i = choose|i: int| 0 <= i < es.len() && (#[trigger] es[i]).0 == name;
                assert(rest[i - 1].0 == name);
            }
            if exists|i: int| 0 <= i < rest.len() && (#[trigger] rest[i]).0 == name {
                let i = choose|i: int| 0 <= i < rest.len() && (#[trigger] rest[i]).0 == name;
                assert(es[i + 1].0 == name);
            }
        }
    }
}

/// Appends copies of names.
fn push_all(v: &mut Vec<ImageName>, more: &Vec<ImageName>)
    ensures
        image_names(final(v)@) == image_names(old(v)@) + image_names(more@),
{
    let ghost start = image_names(v@);
    let ghost all = image_names(more@);
    let mut i: usize = 0;
    while i < more.len()
        invariant
            i <= more@.len(),
            all == image_names(more@),
            image_names(v@) == start + all.take(i as int),
        decreases more.len() - i,
    {
        let ghost before = image_names(v@);
        v.push(more[i].clone());
        assert(image_names(v@) == before.push(all[i as int]));
        assert(all.take(i + 1) == all.take(i as int).push(all[i as int]));
        i += 1;
    }
    assert(all.take(i as int) == all);
}

/// An image to list.
#[derive(Debug)]
pub struct ImageRow {
    pub name: ImageName,
    pub state: BaseState,
    /// The space that its disk takes up.
    pub disk: ByteSize,
    /// How many VMs were made from it.
    pub vms: u64,
}

/// An image to list, as a mathematical value.
pub struct ImageRowView {
    pub name: Seq<char>,
    pub state: BaseState,
    pub disk: ByteSize,
    pub vms: u64,
}

impl View for ImageRow {
    type V = ImageRowView;

    open spec fn view(&self) -> ImageRowView {
        ImageRowView { name: self.name@, state: self.state, disk: self.disk, vms: self.vms }
    }
}

/// The rows' values.
pub open spec fn row_views(v: Seq<ImageRow>) -> Seq<ImageRowView> {
    Seq::new(v.len(), |i: int| v[i]@)
}

/// The names of the rows.
pub open spec fn row_names(rows: Seq<ImageRowView>) -> Seq<Seq<char>> {
    Seq::new(rows.len(), |i: int| rows[i].name)
}

/// The words for the state of an image.
pub open spec fn base_words(state: BaseState) -> Seq<char> {
    match state {
        BaseState::Missing => "missing"@,
        BaseState::Outdated => "outdated"@,
        BaseState::ScriptsChanged => "scripts changed"@,
        BaseState::Current => "provisioned"@,
    }
}

/// One line of the list, from the contents of its columns.
pub open spec fn image_line(
    name: Seq<char>,
    state: Seq<char>,
    disk: Seq<char>,
    vms: Seq<char>,
    width: nat,
) -> Seq<char> {
    pad_right(name, width) + "  "@ + pad_right(state, 15) + " "@ + pad_left(disk, 9) + "  "@ + vms
}

/// The lines of the list of images.
pub open spec fn image_lines(rows: Seq<ImageRowView>) -> Seq<Seq<char>> {
    let width = width_of("IMAGE"@, row_names(rows), rows.len());
    seq![image_line("IMAGE"@, "STATE"@, "DISK"@, "VMS"@, width)] + Seq::new(
        rows.len(),
        |i: int|
            image_line(
                rows[i].name,
                base_words(rows[i].state),
                if rows[i].state is Missing {
                    "-"@
                } else {
                    approx_text(rows[i].disk.0 as nat)
                },
                dec(rows[i].vms as nat),
                width,
            ),
    )
}

fn image_row(name: &str, state: &str, disk: &str, vms: &str, width: usize) -> (s: String)
    ensures
        s@ == image_line(name@, state@, disk@, vms@, width as nat),
{
    padded_right(name, width).concat("  ").concat(padded_right(state, 15).as_str()).concat(
        " ",
    ).concat(padded_left(disk, 9).as_str()).concat("  ").concat(vms)
}

/// What `images` prints.
pub fn images(rows: &Vec<ImageRow>) -> (lines: Vec<String>)
    ensures
        texts(lines@) == image_lines(row_views(rows@)),
{
    let ghost views = row_views(rows@);
    let ghost names_all = row_names(views);
    let mut names: Vec<String> = Vec::new();
    let mut i: usize = 0;
    while i < rows.len()
        invariant
            i <= rows@.len(),
            views == row_views(rows@),
            names_all == row_names(views),
            texts(names@) == names_all.take(i as int),
        decreases rows.len() - i,
    {
        let ghost before = texts(names@);
        assert(views[i as int] == rows@[i as int]@);
        names.push(rows[i].name.to_string());
        assert(texts(names@) == before.push(names_all[i as int]));
        assert(names_all.take(i + 1) == names_all.take(i as int).push(names_all[i as int]));
        i += 1;
    }
    assert(names_all.take(i as int) == names_all);
    assert(texts(names@).len() == names@.len());
    let width = column_width("IMAGE", &names);
    let ghost all = image_lines(views);
    let mut lines: Vec<String> = Vec::new();
    lines.push(image_row("IMAGE", "STATE", "DISK", "VMS", width));
    assert(texts(lines@) == all.take(1));
    let mut k: usize = 0;
    while k < rows.len()
        invariant
            k <= rows@.len(),
            views == row_views(rows@),
            names_all == row_names(views),
            texts(names@) == names_all,
            names@.len() == rows@.len(),
            width == width_of("IMAGE"@, names_all, views.len()),
            all == image_lines(views),
            texts(lines@) == all.take(k + 1),
        decreases rows.len() - k,
    {
        let row = &rows[k];
        assert(views[k as int] == row@);
        assert(texts(names@)[k as int] == names@[k as int]@);
        let (state, provisioned) = match row.state {
            BaseState::Missing => ("missing", false),
            BaseState::Outdated => ("outdated", true),
            BaseState::ScriptsChanged => ("scripts changed", true),
            BaseState::Current => ("provisioned", true),
        };
        let disk = if provisioned {
            row.disk.approx()
        } else {
            "-".to_owned()
        };
        let line = image_row(
            names[k].as_str(),
            state,
            disk.as_str(),
            decimal(row.vms).as_str(),
            width,
        );
        assert(line@ == all[k + 1]);
        let ghost before = texts(lines@);
        lines.push(line);
        assert(texts(lines@) == before.push(all[k + 1]));
        assert(all.take(k + 2) == all.take(k + 1).push(all[k + 1]));
        k += 1;
    }
    assert(all.take(k + 1) == all);
    lines
}

} // verus!
