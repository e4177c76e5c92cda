use sendit::commands::{
    confirm_home_share, deleted, images_to_provision, is_yes, project_dir, prune, reset, verdict,
    volume, Orphan, ProjectDir, Reset, Verdict, PASS_YES,
};
use sendit::config::{vm_image, Mount, VmSettings};
use sendit::host::{FileError, Lookup};
use sendit::listing::{
    column_width, image_table, images, known_images, list, ImageRow, Listing, VmFacts,
};
use sendit::mounts::prepare;
use sendit::path::UnixPath;
use sendit::paths::{ImageName, Paths, Project};
use sendit::project_vm::{
    creating, dir, lock_file, meta_dir, metadata_file, partial, resize_warning, run, starting,
    vm_spec, Locked, Metadata, Progress, Record, RunFault, State, Told, Want,
};
use sendit::provision::BaseState;
use sendit::sign::{copy_path, ensure_entitled, entitlements_name, signing, still_lacks, Entitled};
use sendit::size::ByteSize;
use sendit::status::{base_status, status, vm_status, VmStatus};
use sendit::vm::config::{build, mac_address, machine_identifier, Limits, Saved};
use sendit::vm::console::{
    attach, is_terminal_name, send_terminal, split_keys, terminal_size, terminal_type, Incoming,
    Output, TerminalPort, TerminalSize, Wanted,
};
use sendit::vm::net::Ipv4;
use sendit::vm::stop::{check_start, ended, notice, Action, Ended, Run, Stopping, STOP_TIMEOUT};
use sendit::vm::{VmDir, VmSpec};

fn path(s: &str) -> UnixPath {
    UnixPath::from_text(s)
}

fn paths() -> Paths {
    Paths::new(path("/home/me"))
}

fn name(s: &str) -> ImageName {
    ImageName::parse(s).unwrap()
}

fn project() -> Project {
    Project {
        root: path("/home/me/app"),
        id: "app_0".to_string(),
    }
}

fn settings() -> VmSettings {
    VmSettings {
        cpus: 2,
        memory: ByteSize::gib(4),
        disk_size: ByteSize::gib(64),
        mounts: vec![
            Mount {
                host: path("/home/me/app"),
                guest: path("/home/dev/app"),
                read_only: false,
            },
            Mount {
                host: path("/srv/data"),
                guest: path("/mnt/my data"),
                read_only: true,
            },
        ],
        expose_git: false,
        image: None,
    }
}

fn metadata(image: &str, revision: Option<u32>) -> Metadata {
    Metadata {
        project_path: path("/home/me/app"),
        base_revision: revision,
        image: name(image),
    }
}

// ---------------------------------------------------------------------------
// Files and machines
// ---------------------------------------------------------------------------

#[test]
fn vm_files_have_their_places() {
    let dir = VmDir::new(path("/v"));
    assert_eq!(dir.path().display(), "/v");
    assert_eq!(dir.disk().display(), "/v/disk.img");
    assert_eq!(dir.efi_vars().display(), "/v/efi-vars");
    assert_eq!(dir.machine_id().display(), "/v/machine-id");
    assert_eq!(dir.mac().display(), "/v/mac");
    assert_eq!(metadata_file(&dir).display(), "/v/project.toml");
    assert_eq!(lock_file(&dir).display(), "/v/run/lock");
    assert_eq!(meta_dir(&dir).display(), "/v/run/meta");
    assert_eq!(
        sendit::project_vm::dir(&paths(), &project()).path().display(),
        "/home/me/.sendit/app_0"
    );
    assert_eq!(
        partial(&paths(), &project()).path().display(),
        "/home/me/.sendit/.app_0.partial"
    );
}

fn spec(cpus: u32, memory: u64) -> VmSpec {
    VmSpec {
        cpus,
        memory: ByteSize(memory),
        shares: Vec::new(),
        seed: Some(path("/seed.iso")),
        provision_log: None,
    }
}

#[test]
fn machines_stay_within_the_limits() {
    let limits = Limits {
        min_cpus: 1,
        max_cpus: 8,
        min_memory: 4 << 20,
        max_memory: 8 << 30,
    };
    let dir = VmDir::new(path("/v"));
    let machine = build(&dir, &spec(8, 8 << 30), &limits).unwrap();
    assert_eq!((machine.cpus, machine.memory), (8, ByteSize::gib(8)));
    assert_eq!(machine.machine_id, dir.machine_id());
    assert_eq!(machine.efi_vars, dir.efi_vars());
    assert_eq!(machine.mac, dir.mac());
    let disks: Vec<_> = machine
        .disks
        .iter()
        .map(|d| (d.image.display(), d.read_only))
        .collect();
    assert_eq!(
        disks,
        [
            ("/v/disk.img".to_string(), false),
            ("/seed.iso".to_string(), true)
        ]
    );
    assert_eq!(
        build(&dir, &spec(9, 1), &limits).unwrap_err().message(),
        "cpus must be between 1 and 8, got 9"
    );
    assert_eq!(
        build(&dir, &spec(1, 1), &limits).unwrap_err().message(),
        "memory must be between 4 MiB and 8 GiB, got 1 B"
    );
    assert_eq!(
        build(&dir, &spec(1, 9 << 30), &limits).unwrap_err().message(),
        "memory must be between 4 MiB and 8 GiB, got 9 GiB"
    );
}

#[test]
fn identities_are_made_once() {
    assert!(matches!(
        machine_identifier(Ok(vec![1, 2])),
        Saved::Load(bytes) if bytes == [1, 2]
    ));
    assert!(matches!(
        machine_identifier(Err(FileError::NotFound)),
        Saved::Create
    ));
    assert!(matches!(
        mac_address(Ok("a2:9d\n".to_string())),
        Saved::Load(text) if text == "a2:9d"
    ));
    assert!(matches!(
        mac_address(Err(FileError::NotFound)),
        Saved::Create
    ));
    // One that is there but can't be read is not replaced.
    assert!(matches!(
        machine_identifier(Err(FileError::Other("denied".to_string()))),
        Saved::Failed(reason) if reason == "denied"
    ));
    assert!(matches!(
        mac_address(Err(FileError::Other("not UTF-8".to_string()))),
        Saved::Failed(reason) if reason == "not UTF-8"
    ));
}

// ---------------------------------------------------------------------------
// Shutting down
// ---------------------------------------------------------------------------

#[test]
fn escapes_ask_and_then_force() {
    let mut run = Run::new();
    assert_eq!(run.step(0, 0, 0), Action::Wait);
    assert_eq!(run.step(1, 0, 10), Action::Request);
    assert!(!run.requested(true, 10));
    assert_eq!(run.stopping, Stopping::Requested(10));
    assert_eq!(run.step(1, 0, 20), Action::Wait);
    assert_eq!(run.step(1, 1, 30), Action::Force);
    assert_eq!(run.stopping, Stopping::Forced);
    assert_eq!(run.step(5, 5, 40), Action::Wait);
}

#[test]
fn a_guest_that_does_not_react_is_forced() {
    let mut run = Run::new();
    assert_eq!(run.step(0, 1, 5), Action::Request);
    assert!(!run.requested(true, 5));
    assert_eq!(run.step(0, 1, 5 + STOP_TIMEOUT), Action::Wait);
    assert_eq!(run.step(0, 1, 0), Action::Wait);
    assert_eq!(run.step(0, 1, 6 + STOP_TIMEOUT), Action::Force);

    let mut run = Run::new();
    assert_eq!(run.step(usize::MAX, usize::MAX, 5), Action::Request);
    assert!(run.requested(false, 5));
    assert_eq!(run.step(usize::MAX, usize::MAX, 6), Action::Wait);
    assert_eq!(STOP_TIMEOUT, 30 * 1_000_000_000);
}

#[test]
fn runs_end_with_what_happened() {
    assert!(ended(None, None).is_none());
    assert!(matches!(ended(None, Some(Ok(()))), Some(Ended::Cleanly)));
    assert!(matches!(
        ended(None, Some(Err("e".to_string()))),
        Some(Ended::WithError(e)) if e == "e"
    ));
    assert!(matches!(
        ended(Some("s".to_string()), Some(Ok(()))),
        Some(Ended::NotStarted(e)) if e == "s"
    ));
    assert!(Ended::Cleanly.outcome().is_ok());
    let failed = |ended: Ended| {
        let error = ended.outcome().unwrap_err();
        (error.message, error.reason)
    };
    assert_eq!(
        failed(Ended::NotStarted("s".to_string())),
        ("starting the VM".to_string(), "s".to_string())
    );
    assert_eq!(
        failed(Ended::WithError("e".to_string())),
        ("the VM stopped with an error".to_string(), "e".to_string())
    );
    assert_eq!(notice("Hello."), "\r\n[send_it] Hello.\r\n");
}

#[test]
fn vms_need_a_main_thread_a_mac_and_a_disk() {
    let disk = path("/v/disk.img");
    let message = |m, s, d| check_start(m, s, d, &disk).unwrap_err().message();
    assert!(check_start(true, true, true, &disk).is_ok());
    assert_eq!(
        message(false, false, false),
        "vm::run must be called on the main thread"
    );
    assert_eq!(
        message(true, false, false),
        "virtualization is not supported on this Mac"
    );
    assert_eq!(message(true, true, false), "/v/disk.img does not exist");
}

// ---------------------------------------------------------------------------
// The console
// ---------------------------------------------------------------------------

#[test]
fn keys_reach_the_guest_without_escapes() {
    let chunks = |keys: &[u8]| -> Vec<(Vec<u8>, bool)> {
        split_keys(keys)
            .into_iter()
            .map(|c| (c.data, c.escaped))
            .collect()
    };
    assert_eq!(chunks(b""), []);
    assert_eq!(chunks(b"ab"), [(b"ab".to_vec(), false)]);
    assert_eq!(
        chunks(b"a\x1d\x1db"),
        [
            (b"a".to_vec(), true),
            (b"".to_vec(), true),
            (b"b".to_vec(), false)
        ]
    );
    assert_eq!(chunks(b"a\x1d"), [(b"a".to_vec(), true)]);
}

#[test]
fn terminal_types_are_one_line() {
    let some = |s: &str| Some(s.to_string());
    assert_eq!(
        terminal_type(&some("xterm-256color"), &some("truecolor")),
        "term xterm-256color truecolor\n"
    );
    assert_eq!(terminal_type(&some("vt100"), &None), "term vt100\n");
    assert_eq!(terminal_type(&None, &some("truecolor")), "term\n");
    assert_eq!(terminal_type(&some("a\nb"), &some("x")), "term\n");
    assert_eq!(terminal_type(&some("a"), &some("x y")), "term a\n");
    assert!(is_terminal_name("a.b_c+d-9Z"));
    assert!(!is_terminal_name(""));
    assert!(!is_terminal_name("é"));
}

#[test]
fn the_guest_is_told_what_it_asks_for() {
    let term = Some("xterm".to_string());
    let size = Some(TerminalSize { rows: 24, cols: 80 });
    let send = |asked, resized, size| {
        send_terminal(Wanted { asked, resized }, &term, &None, size)
    };
    assert_eq!(send(false, false, size), "");
    assert_eq!(send(false, true, size), "24 80\n");
    assert_eq!(send(true, false, size), "term xterm\n24 80\n");
    assert_eq!(send(true, true, None), "term xterm\n");
    assert_eq!(
        terminal_size(Some(TerminalSize { rows: 0, cols: 80 })),
        None
    );
    assert_eq!(
        terminal_size(Some(TerminalSize { rows: 24, cols: 0 })),
        None
    );

    let mut port = TerminalPort::new();
    let wanted = port.receive(&Incoming::Nothing, &Incoming::Data(b"\n?".to_vec()));
    assert_eq!((wanted.asked, wanted.resized), (true, false));
    let wanted = port.receive(&Incoming::Data(vec![0]), &Incoming::Data(b"!".to_vec()));
    assert_eq!((wanted.asked, wanted.resized), (false, true));
    port.receive(&Incoming::Nothing, &Incoming::Closed);
    assert!(port.resize && !port.guest);
    port.receive(&Incoming::Closed, &Incoming::Nothing);
    assert!(!port.resize && !port.guest);
}

#[test]
fn provisioning_shows_the_log_instead_of_the_console() {
    let shown = attach(false);
    assert_eq!((shown.main, shown.log), (Output::Show, Output::Discard));
    assert!(!shown.keep_signals);
    let logged = attach(true);
    assert_eq!(
        (logged.main, logged.log),
        (Output::Discard, Output::ShowAndLog)
    );
    assert!(logged.keep_signals);
}

// ---------------------------------------------------------------------------
// Mounts
// ---------------------------------------------------------------------------

#[test]
fn manifests_have_a_line_for_each_mount() {
    let prepared = prepare(&settings(), &path("/v/run/meta"));
    assert_eq!(
        prepared.manifest,
        "mount0 rw /home/dev/app\nmount1 ro /mnt/my data\nhide /home/dev/app/.git\n"
    );
    let shares: Vec<_> = prepared
        .shares
        .iter()
        .map(|s| (s.tag.as_str(), s.host.display(), s.read_only))
        .collect();
    assert_eq!(
        shares,
        [
            ("mount0", "/home/me/app".to_string(), false),
            ("mount1", "/srv/data".to_string(), true),
            ("meta", "/v/run/meta".to_string(), true)
        ]
    );
    let open = VmSettings {
        expose_git: true,
        ..settings()
    };
    let prepared = prepare(&open, &path("/m"));
    assert_eq!(prepared.manifest.lines().count(), 2);
    let spec = vm_spec(&open, prepared.shares);
    assert_eq!((spec.cpus, spec.memory), (2, ByteSize::gib(4)));
    assert_eq!(spec.shares.len(), 3);
    assert!(spec.seed.is_none() && spec.provision_log.is_none());
}

// ---------------------------------------------------------------------------
// Running
// ---------------------------------------------------------------------------

#[test]
fn vms_are_created_and_then_run() {
    let step = |want, told: Told| run(want, &None, &told);
    let mut want = Want::Look;
    let news = vec![
        (Told::Looked(false), Want::Base),
        (Told::Base(true, Some(5)), Want::Clear),
        (Told::Cleared, Want::CloneDisk),
        (Told::DiskCloned, Want::CloneEfi),
        (Told::EfiCloned, Want::Record),
        (Told::Recorded, Want::Rename),
        (Told::Renamed, Want::Metadata),
        (Told::Metadata(metadata("default", Some(5))), Want::Lock),
        (Told::Locked(Locked::Yes), Want::Boot),
    ];
    for (told, expected) in news {
        assert_eq!(step(want, told), Progress::Next(expected));
        want = expected;
    }
    assert_eq!(step(want, Told::Stopped), Progress::Done);
    assert_eq!(
        step(Want::Look, Told::Looked(true)),
        Progress::Next(Want::Metadata)
    );
    // What was not asked for changes nothing.
    assert_eq!(
        step(Want::Clear, Told::Renamed),
        Progress::Next(Want::Clear)
    );
}

#[test]
fn vms_that_cannot_run_say_why() {
    let fails = |want, chosen: Option<&str>, told: Told| {
        match run(want, &chosen.map(name), &told) {
            Progress::Failed(fault) => {
                fault.message(&paths(), &sendit::project_vm::dir(&paths(), &project()))
            }
            other => panic!("{other:?}"),
        }
    };
    assert_eq!(
        fails(Want::Base, None, Told::Base(false, None)),
        "there is no base image yet; run `send_it provision` first"
    );
    assert_eq!(
        fails(Want::Base, None, Told::Base(true, Some(4))),
        "the base image is outdated; rebuild it with `send_it provision --force`"
    );
    assert_eq!(
        fails(Want::Metadata, None, Told::Metadata(metadata("default", None))),
        "~/.sendit/app_0 was created from an older base image that this version of send_it \
         can't run; delete it to start over from the current base image"
    );
    assert_eq!(
        fails(
            Want::Metadata,
            Some("rust"),
            Told::Metadata(metadata("go", Some(5)))
        ),
        "~/.sendit/app_0 was made from another image; `sendit reset` recreates it"
    );
    assert_eq!(
        fails(Want::Lock, None, Told::Locked(Locked::Busy)),
        "this project's VM is already running"
    );
    let chosen = run(
        Want::Metadata,
        &Some(name("go")),
        &Told::Metadata(metadata("go", Some(6))),
    );
    assert_eq!(chosen, Progress::Next(Want::Lock));
    assert_eq!(RunFault::Busy, RunFault::Busy);
}

#[test]
fn new_vms_are_not_outdated() {
    let m = Metadata::new(&project(), &name("rust"));
    assert!(!m.outdated());
    assert_eq!(m.project_path, project().root);
    assert_eq!(m.image.as_str(), "rust");
    assert!(metadata("rust", Some(4)).outdated());

    let r = Record::new(&project(), &name("rust"), "1.2.3", 1_700_000_000);
    assert_eq!(r.metadata.project_path, project().root);
    assert_eq!(r.metadata.base_revision, Some(5));
    assert_eq!(r.metadata.image.as_str(), "rust");
    assert_eq!(r.send_it_version, "1.2.3");
    assert_eq!(r.created_at_unix, 1_700_000_000);
}

#[test]
fn runs_say_what_they_do() {
    let dir = dir(&paths(), &project());
    assert_eq!(
        creating(&paths(), &dir),
        "Creating ~/.sendit/app_0 from the base image"
    );
    assert_eq!(
        starting(&paths(), &dir, &settings()),
        "Starting ~/.sendit/app_0 (2 CPUs, 4 GiB memory, 64 GiB disk)"
    );
    let size = ByteSize::gib(64);
    assert_eq!(resize_warning(&paths(), &dir, 64 << 30, size), None);
    assert_eq!(
        resize_warning(&paths(), &dir, 65 << 30, size).unwrap(),
        "warning: the disk of ~/.sendit/app_0 is already 65 GiB and can't shrink to 64 GiB; \
         `send_it reset` recreates it"
    );
    assert_eq!(
        deleted(&paths(), &dir),
        "Deleted ~/.sendit/app_0."
    );
}

// ---------------------------------------------------------------------------
// Commands
// ---------------------------------------------------------------------------

#[test]
fn sharing_the_home_directory_is_confirmed() {
    let ask = |root: &str, found: Lookup| {
        let project = Project {
            root: path(root),
            id: String::new(),
        };
        confirm_home_share(&paths(), &project, &found)
    };
    let home = || Lookup::Directory(path("/home/me"));
    let question = ask("/home", home()).unwrap();
    assert_eq!(
        question.question,
        "/home contains your home directory. Share all of it with the VM, read-write?"
    );
    assert_eq!(
        question.no_terminal,
        "/home contains your home directory; not sharing all of it with the VM without a \
         terminal to confirm it"
    );
    assert!(question.prompt().ends_with("read-write? [y/N] "));
    assert!(ask("/home/me", home()).is_some());
    assert!(ask("/home/me/app", home()).is_none());
    assert!(ask("/home/m", home()).is_none());
    assert!(ask("/Users", Lookup::Directory(path("/Users/me"))).is_some());
    assert!(ask("/home", Lookup::Failed("gone".to_string())).is_some());
    for yes in ["y", "Y\n", " yes ", "Yes"] {
        assert!(is_yes(yes));
    }
    for no in ["", "n", "YES", "yess", "y y"] {
        assert!(!is_yes(no));
    }
}

#[test]
fn resets_only_stopped_vms() {
    let dir = VmDir::new(path("/home/me/.sendit/app_0"));
    let go = |there, state, yes| reset(&paths(), &dir, there, state, yes);
    assert!(matches!(go(false, State::Stopped, true), Reset::NoVm));
    assert!(matches!(go(true, State::Running(7), true), Reset::Running));
    assert!(matches!(go(true, State::Stopped, true), Reset::Delete));
    match go(true, State::Stopped, false) {
        Reset::Ask(question) => {
            assert_eq!(
                question.question,
                "Delete ~/.sendit/app_0 and everything stored in it? The next `run` starts from \
                 a fresh copy of the base image."
            );
            assert_eq!(question.no_terminal, PASS_YES);
        }
        other => panic!("{other:?}"),
    }
}

#[test]
fn volumes_that_are_not_mounted_may_come_back() {
    assert_eq!(
        volume(&path("/Volumes/USB/app")).unwrap().display(),
        "/Volumes/USB"
    );
    assert_eq!(volume(&path("/Volumes/USB")).unwrap().display(), "/Volumes/USB");
    assert!(volume(&path("/Volumes")).is_none());
    assert!(volume(&path("/volumes/USB/app")).is_none());
    assert!(volume(&path("/Volumes/../app")).is_none());
    assert!(volume(&path("~/Volumes/USB")).is_none());
    assert!(volume(&path("a/Volumes/USB/app")).is_none());
    assert!(volume(&path("./Volumes/USB")).is_none());
    assert!(volume(&path("../Volumes/USB")).is_none());
    let look = |p: &str, looked, mounted| project_dir(&path(p), looked, mounted);
    assert!(matches!(
        look("/Volumes/USB/app", Ok(true), false),
        ProjectDir::Present
    ));
    assert!(matches!(
        look("/Volumes/USB/app", Ok(false), false),
        ProjectDir::Unmounted
    ));
    assert!(matches!(
        look("/Volumes/USB/app", Ok(false), true),
        ProjectDir::Missing
    ));
    assert!(matches!(look("/a/b", Ok(false), false), ProjectDir::Missing));
    assert!(matches!(
        look("~/Volumes/b", Ok(false), false),
        ProjectDir::Missing
    ));
    assert!(matches!(
        look("/a/b", Err("denied".to_string()), false),
        ProjectDir::Inaccessible(reason) if reason == "denied"
    ));
}

#[test]
fn prunes_only_orphans() {
    let m = Some(metadata("default", Some(5)));
    let skip = |project: ProjectDir, state| match verdict(&m, &project, state) {
        Verdict::Skip(note) => note,
        other => panic!("{other:?}"),
    };
    assert!(matches!(
        verdict(&None, &ProjectDir::Missing, Some(State::Stopped)),
        Verdict::Keep
    ));
    assert!(matches!(
        verdict(&m, &ProjectDir::Present, Some(State::Stopped)),
        Verdict::Keep
    ));
    assert!(matches!(
        verdict(&m, &ProjectDir::Missing, None),
        Verdict::NeedState
    ));
    assert!(matches!(
        verdict(&m, &ProjectDir::Missing, Some(State::Stopped)),
        Verdict::Orphan
    ));
    assert_eq!(
        skip(ProjectDir::Missing, Some(State::Running(1))),
        "Skipping /home/me/app: it is still running."
    );
    assert_eq!(
        skip(ProjectDir::Unmounted, None),
        "Skipping /home/me/app: its volume is not mounted."
    );
    assert_eq!(
        skip(ProjectDir::Inaccessible("denied".to_string()), None),
        "Skipping /home/me/app: denied"
    );

    let orphan = |id: &str| Orphan {
        dir: path("/home/me/.sendit").join_text(id),
        project: path("/gone").join_text(id),
    };
    assert!(prune(&paths(), &Vec::new()).is_none());
    let one = prune(&paths(), &vec![orphan("a")]).unwrap();
    assert_eq!(
        one.lines,
        [
            "VMs whose project directory no longer exists:",
            "  /gone/a  (~/.sendit/a)"
        ]
    );
    assert_eq!(one.question.question, "Delete 1 VM?");
    assert_eq!(one.question.no_terminal, PASS_YES);
    assert_eq!(one.deleted, "Deleted 1 VM.");
    let two = prune(&paths(), &vec![orphan("a"), orphan("b")]).unwrap();
    assert_eq!(two.question.question, "Delete 2 VMs?");
}

fn facts(metadata: Option<Metadata>, state: State, project: ProjectDir, disk: u64) -> VmFacts {
    VmFacts {
        dir: path("/home/me/.sendit/app_0"),
        metadata,
        state,
        project,
        disk: ByteSize(disk),
    }
}

#[test]
fn lists_vms_in_columns() {
    match list(&paths(), &Vec::new()) {
        Listing::Nothing(message) => assert_eq!(message, "No VMs in ~/.sendit."),
        other => panic!("{other:?}"),
    }
    let vms = vec![
        facts(
            Some(metadata("default", Some(5))),
            State::Running(1),
            ProjectDir::Present,
            1_932_735_283,
        ),
        facts(
            Some(metadata("rust", None)),
            State::Stopped,
            ProjectDir::Missing,
            512,
        ),
        facts(
            Some(metadata("rust", Some(5))),
            State::Stopped,
            ProjectDir::Unmounted,
            0,
        ),
        facts(
            Some(metadata("rust", Some(5))),
            State::Running(2),
            ProjectDir::Inaccessible("denied".to_string()),
            0,
        ),
        facts(None, State::Stopped, ProjectDir::Present, 0),
    ];
    match list(&paths(), &vms) {
        Listing::Lines(lines) => assert_eq!(
            lines,
            [
                "STATE         DISK  IMAGE    PROJECT",
                "running    1.8 GiB  default  /home/me/app",
                "outdated     512 B  rust     /home/me/app (missing)",
                "stopped        0 B  rust     /home/me/app (volume not mounted)",
                "running        0 B  rust     /home/me/app (inaccessible)",
                "stopped        0 B  ?        ? (~/.sendit/app_0)",
            ]
        ),
        other => panic!("{other:?}"),
    }
    assert_eq!(column_width("IMAGE", &vec!["é".repeat(3)]), 6);
    assert_eq!(column_width("IMAGE", &Vec::new()), 5);
}

#[test]
fn lists_images_with_their_vms() {
    let known = known_images(&vec![name("rust"), name("go")], &vec![name("rust")]);
    let names: Vec<_> = known.iter().map(ImageName::as_str).collect();
    assert_eq!(names, ["default", "go", "rust"]);

    let table = image_table(&known, &vec![name("rust"), name("old"), name("rust")]);
    let counts: Vec<_> = (0..table.len())
        .map(|i| {
            let name = table.name(i);
            (name.to_string(), *table.get(name).unwrap())
        })
        .collect();
    let expected = [("default", 0), ("go", 0), ("old", 1), ("rust", 2)];
    assert_eq!(
        counts,
        expected.map(|(name, n)| (name.to_string(), n as u64))
    );

    let row = |name: &str, state, disk, vms| ImageRow {
        name: ImageName::parse(name).unwrap(),
        state,
        disk: ByteSize(disk),
        vms,
    };
    let lines = images(&vec![
        row("default", BaseState::Current, 3 << 30, 12),
        row("go", BaseState::Missing, 0, 0),
        row("old", BaseState::Outdated, 1536, 1),
        row("rust", BaseState::ScriptsChanged, 0, 2),
    ]);
    assert_eq!(
        lines,
        [
            "IMAGE    STATE                DISK  VMS",
            "default  provisioned       3.0 GiB  12",
            "go       missing                 -  0",
            "old      outdated          1.5 KiB  1",
            "rust     scripts changed       0 B  2",
        ]
    );
}

#[test]
fn provisions_what_is_asked_for() {
    let known = || vec![name("a"), name("b")];
    let names = |v: Vec<ImageName>| -> Vec<String> { v.iter().map(|n| n.to_string()).collect() };
    assert_eq!(
        names(images_to_provision(true, known(), Some(name("c")), None)),
        ["a", "b"]
    );
    assert_eq!(
        names(images_to_provision(
            false,
            known(),
            Some(name("c")),
            Some(name("d"))
        )),
        ["c"]
    );
    assert_eq!(
        names(images_to_provision(false, known(), None, Some(name("d")))),
        ["d"]
    );
    assert_eq!(vm_image(None, None).as_str(), "default");
    assert_eq!(vm_image(None, Some(&name("a"))).as_str(), "a");
    assert_eq!(vm_image(Some(&name("b")), Some(&name("a"))).as_str(), "b");
}

#[test]
fn status_shows_everything() {
    let image = name("rust");
    let vm = Some(VmStatus {
        metadata: Some(metadata("rust", Some(5))),
        state: State::Running(1),
        ip: Some(Ipv4 {
            a: 192,
            b: 168,
            c: 64,
            d: 9,
        }),
    });
    assert_eq!(
        status(
            &paths(),
            &project(),
            &settings(),
            &image,
            BaseState::Current,
            &vm
        ),
        [
            "image    rust in ~/.cache/sendit/images/rust (provisioned)",
            "project  /home/me/app",
            "vm       ~/.sendit/app_0 (running at 192.168.64.9)",
            "cpus     2",
            "memory   4 GiB",
            "disk     64 GiB max",
            ".git     hidden",
            "mounts   ~/app -> /home/dev/app (rw)",
            "         /srv/data -> /mnt/my data (ro)",
        ]
    );
    assert_eq!(
        base_status(&image, BaseState::Missing),
        "run `sendit provision rust`"
    );
    assert_eq!(
        base_status(&image, BaseState::Outdated),
        "outdated; `sendit provision rust --force` rebuilds it"
    );
    assert_eq!(
        base_status(&name("default"), BaseState::ScriptsChanged),
        "custom scripts changed; `sendit provision --force` rebuilds it"
    );
    let words = |m: Option<Metadata>, state| {
        vm_status(
            &image,
            &Some(VmStatus {
                metadata: m,
                state,
                ip: None,
            }),
        )
    };
    assert_eq!(vm_status(&image, &None), "not created");
    assert_eq!(words(None, State::Stopped), "stopped");
    assert_eq!(words(None, State::Running(3)), "running");
    assert_eq!(words(Some(metadata("rust", Some(5))), State::Stopped), "stopped");
    assert_eq!(
        words(Some(metadata("rust", None)), State::Stopped),
        "stopped; made from an outdated base image, `sendit reset` recreates it"
    );
    assert_eq!(
        words(Some(metadata("go", None)), State::Stopped),
        "stopped; made from the go image, `sendit reset` recreates it from rust"
    );
}

// ---------------------------------------------------------------------------
// Signing
// ---------------------------------------------------------------------------

#[test]
fn executables_are_signed_once() {
    assert_eq!(ensure_entitled(true, false), Entitled::Yes);
    assert_eq!(ensure_entitled(true, true), Entitled::Yes);
    assert_eq!(ensure_entitled(false, false), Entitled::Sign);
    assert_eq!(ensure_entitled(false, true), Entitled::Never);
    let exe = path("/usr/local/bin/sendit");
    assert_eq!(
        copy_path(&exe, 42).unwrap().display(),
        "/usr/local/bin/.sendit.signing-42"
    );
    assert!(copy_path(&path("/"), 42).is_none());
    assert_eq!(entitlements_name(42), "sendit-entitlements-42.plist");
    assert_eq!(
        signing(&exe),
        "sendit: signing /usr/local/bin/sendit with the virtualization entitlement"
    );
    assert_eq!(
        still_lacks(&exe),
        "/usr/local/bin/sendit is signed but still lacks the virtualization entitlement"
    );
}
