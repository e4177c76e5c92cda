use sendit::assets::{BANNER, PROVISION_SCRIPT, SUCCESS_SENTINEL, USER_DATA};
use sendit::config::ProvisionSettings;
use sendit::path::UnixPath;
use sendit::paths::{ImageName, Paths};
use sendit::provision::{
    already_there, bad_script_name, base_ready, base_revision, base_state, command, contains, custom_scripts,
    custom_scripts_changed, first_revision, image_marker, marker, provision, provision_spec,
    provisioning, provisioning_failed, public_key, script_file, stamps, with_scripts, BaseState,
    CustomScript, Marker, Progress, Recorded, ScriptFile, Told, Want, BASE_DISK_SIZE,
    BASE_REVISION,
};
use sendit::seed::{build_seed, replace};
use sendit::size::ByteSize;

fn script(name: &str, content: &str) -> CustomScript {
    CustomScript {
        name: name.to_string(),
        content: content.as_bytes().to_vec(),
    }
}

fn paths() -> Paths {
    Paths::new(UnixPath::from_text("/home/me"))
}

#[test]
fn assets_fit_together() {
    assert!(USER_DATA.starts_with("#cloud-config\n"));
    assert!(USER_DATA.contains("@SSH_PUBLIC_KEY@"));
    assert!(USER_DATA.contains("/run/sendit-seed/provision.sh"));
    // The script must not contain the sentinel literally, or a failed run
    // that echoes its own source would look successful.
    assert!(!PROVISION_SCRIPT.contains(SUCCESS_SENTINEL));
    assert!(PROVISION_SCRIPT.contains("SENDIT_PROVISION_${status}"));
    assert!(PROVISION_SCRIPT.contains("$seed/custom/list"));
}

#[test]
fn the_sentinel_is_what_the_script_prints() {
    let printed = PROVISION_SCRIPT
        .lines()
        .find(|line| line.contains("SENDIT_PROVISION_"))
        .unwrap()
        .replace("${status}", "OK");
    assert!(printed.contains(SUCCESS_SENTINEL));
    assert!(PROVISION_SCRIPT.contains("set-hostname sendit"));
    assert!(PROVISION_SCRIPT.contains("install git"));
    assert!(BANNER.lines().all(|line| line.len() < 80));
    assert_eq!(ByteSize(BASE_DISK_SIZE), ByteSize::gib(8));
}

/// The scripts among the entries of a directory, each with whether it is a
/// file; the content of each file is its name.
fn collect(entries: &[(&str, bool)]) -> Vec<CustomScript> {
    let dir = paths().provision_scripts_dir();
    let mut scripts = Vec::new();
    for (name, is_file) in entries {
        match script_file(&dir.join_text(name), *is_file) {
            ScriptFile::Script(found) => scripts.push(script(&found, name)),
            ScriptFile::Skip => {}
            ScriptFile::BadName => panic!("{name:?}"),
        }
    }
    custom_scripts(scripts)
}

#[test]
fn collects_custom_scripts_in_name_order() {
    assert!(collect(&[]).is_empty());
    let scripts = collect(&[
        ("30-dir.sh", false),
        ("20-node.sh", true),
        ("10-editors.sh", true),
        (".hidden.sh", true),
        ("notes.txt", true),
    ]);
    let names: Vec<_> = scripts.iter().map(|s| s.name.as_str()).collect();
    assert_eq!(names, ["10-editors.sh", "20-node.sh"]);
    assert_eq!(scripts[0].content, b"10-editors.sh");
}

#[test]
fn name_order_is_by_bytes_and_keeps_ties() {
    let sorted = custom_scripts(vec![
        script("b.sh", "1"),
        script("a.sh", "2"),
        script("B.sh", "3"),
        script("a.sh", "4"),
        script("é.sh", "5"),
        script("aa.sh", "6"),
        script("a", "7"),
    ]);
    let order: Vec<_> = sorted
        .iter()
        .map(|s| String::from_utf8(s.content.clone()).unwrap())
        .collect();
    assert_eq!(order, ["3", "7", "2", "4", "6", "1", "5"]);
}

#[test]
fn scripts_need_a_readable_name() {
    let dir = paths().provision_scripts_dir();
    assert!(matches!(
        script_file(&dir.join_text("a\nb.sh"), true),
        ScriptFile::BadName
    ));
    assert_eq!(
        bad_script_name("\"/d/a\\nb.sh\""),
        "custom provisioning script \"/d/a\\nb.sh\" has control characters in its name"
    );
    let bytes = UnixPath {
        bytes: b"/d/\xff.sh".to_vec(),
    };
    assert!(matches!(script_file(&bytes, true), ScriptFile::Skip));
    assert!(matches!(
        script_file(&UnixPath::from_text("/"), true),
        ScriptFile::Skip
    ));
    assert!(matches!(
        script_file(&dir.join_text("a\nb.sh"), false),
        ScriptFile::Skip
    ));
}

#[test]
fn stamps_hold_the_sha256_in_hex() {
    let stamp = script("a.sh", "abc").stamp();
    assert_eq!(stamp.name, "a.sh");
    assert_eq!(
        stamp.sha256,
        "ba7816bf8f01cfea414140de5dae2223b00361a396177a9cb410ff61f20015ad"
    );
}

#[test]
fn script_changes_are_seen() {
    let before = vec![script("a.sh", "1"), script("b.sh", "2")];
    let recorded = stamps(&before);
    assert!(!custom_scripts_changed(&recorded, &before));
    let edited = vec![script("a.sh", "1"), script("b.sh", "3")];
    assert!(custom_scripts_changed(&recorded, &edited));
    let renamed = vec![script("a.sh", "1"), script("c.sh", "2")];
    assert!(custom_scripts_changed(&recorded, &renamed));
    let removed = vec![script("a.sh", "1")];
    assert!(custom_scripts_changed(&recorded, &removed));
    assert!(!custom_scripts_changed(&Vec::new(), &Vec::new()));
}

#[test]
fn a_base_image_is_current_until_something_changes() {
    let scripts = vec![script("a.sh", "1")];
    let marker = Marker::new("0.1.0", "beef", 1_700_000_000, &scripts);
    assert_eq!(marker.revision, BASE_REVISION);
    assert_eq!(marker.sendit_version, "0.1.0");
    assert_eq!(marker.debian_image_sha512, "beef");
    assert_eq!(marker.provisioned_at_unix, 1_700_000_000);
    let recorded = |revision| {
        Some(Recorded {
            revision,
            custom_scripts: stamps(&scripts),
        })
    };
    assert_eq!(base_state(&None, &scripts), BaseState::Missing);
    assert_eq!(
        base_state(&recorded(Some(marker.revision)), &scripts),
        BaseState::Current
    );
    assert_eq!(
        base_state(&recorded(Some(BASE_REVISION)), &Vec::new()),
        BaseState::ScriptsChanged
    );
    assert_eq!(base_state(&recorded(None), &scripts), BaseState::Outdated);
    assert_eq!(
        base_state(&recorded(Some(4)), &Vec::new()),
        BaseState::Outdated
    );
    assert_eq!(first_revision(), 1);
    assert_eq!(base_revision(None), 1);
    assert_eq!(base_revision(Some(3)), 3);
}

#[test]
fn markers_are_in_the_image() {
    let paths = paths();
    let rust = ImageName::parse("rust").unwrap();
    assert_eq!(
        marker(&paths).display(),
        "/home/me/.cache/sendit/base/provisioned.toml"
    );
    assert_eq!(image_marker(&paths, &ImageName::default()), marker(&paths));
    assert_eq!(
        image_marker(&paths, &rust).display(),
        "/home/me/.cache/sendit/images/rust/provisioned.toml"
    );
}

#[test]
fn the_base_is_replaced_only_after_the_sentinel() {
    let step = |want, told| provision(want, false, &told);
    assert_eq!(
        step(Want::Look, Told::Looked(true)),
        Progress::AlreadyThere
    );
    assert_eq!(
        provision(Want::Look, true, &Told::Looked(true)),
        Progress::Next(Want::Prepare)
    );
    assert_eq!(
        step(Want::Look, Told::Looked(false)),
        Progress::Next(Want::Prepare)
    );
    assert_eq!(
        step(Want::Prepare, Told::Prepared),
        Progress::Next(Want::Boot)
    );
    assert_eq!(step(Want::Boot, Told::Stopped), Progress::Next(Want::Log));
    let log = |text: &str| Told::Log(text.as_bytes().to_vec());
    assert_eq!(
        step(Want::Log, log("...\r\nSENDIT_PROVISION_OK\r\n")),
        Progress::Next(Want::Install)
    );
    assert_eq!(
        step(Want::Log, log("SENDIT_PROVISION_FAILED\n")),
        Progress::Failed
    );
    assert_eq!(step(Want::Log, log(PROVISION_SCRIPT)), Progress::Failed);
    assert_eq!(step(Want::Install, Told::Installed), Progress::Ready);
    // What was not asked for changes nothing.
    assert_eq!(step(Want::Boot, Told::Installed), Progress::Next(Want::Boot));
}

#[test]
fn finds_bytes() {
    assert!(contains(b"abcabd", b"abd"));
    assert!(contains(b"abd", b"abd"));
    assert!(!contains(b"ab", b"abd"));
    assert!(!contains(b"", b"a"));
    assert!(!contains(b"abcab", b"bd"));
}

#[test]
fn seeds_have_their_files() {
    let scripts = vec![script("10 a.sh", "echo a"), script("20-b.sh", "echo b")];
    let files = build_seed("ssh-ed25519 AAAA sendit", &scripts, 1_700_000_000).unwrap();
    let names: Vec<_> = files.iter().map(|f| f.name.as_str()).collect();
    assert_eq!(
        names,
        [
            "meta-data",
            "user-data",
            "provision.sh",
            "banner.txt",
            "custom/001.sh",
            "custom/002.sh",
            "custom/list"
        ]
    );
    let text = |i: usize| String::from_utf8(files[i].content.clone()).unwrap();
    assert_eq!(
        text(0),
        "instance-id: sendit-1700000000\nlocal-hostname: sendit\n"
    );
    assert_eq!(
        text(1),
        USER_DATA.replace("@SSH_PUBLIC_KEY@", "ssh-ed25519 AAAA sendit")
    );
    assert_eq!(text(2), PROVISION_SCRIPT);
    assert_eq!(text(3), BANNER);
    assert_eq!(text(5), "echo b");
    assert_eq!(text(6), "001.sh 10 a.sh\n002.sh 20-b.sh\n");

    let error = build_seed("a\nb", &scripts, 0).unwrap_err();
    assert_eq!(error.message(), "unexpected SSH public key format");
    assert!(build_seed("a\"b", &scripts, 0).is_err());
    let none = build_seed("key", &Vec::new(), 0).unwrap();
    assert_eq!(none.len(), 5);
    assert_eq!(none[4].content, b"");
}

#[test]
fn many_scripts_have_files_of_their_own() {
    let scripts: Vec<_> = (0..1001).map(|i| script(&format!("{i:05}.sh"), "")).collect();
    let files = build_seed("key", &scripts, 0).unwrap();
    let mut names: Vec<_> = files.iter().map(|f| f.name.clone()).collect();
    assert_eq!(names[4 + 1000], "custom/1001.sh");
    names.sort();
    names.dedup();
    assert_eq!(names.len(), files.len());
    let list = String::from_utf8(files.last().unwrap().content.clone()).unwrap();
    assert_eq!(list.lines().count(), 1001);
    assert_eq!(list.lines().nth(11), Some("012.sh 00011.sh"));
}

#[test]
fn replaces_like_the_standard_library() {
    for (s, from, to) in [
        ("a@b@c", "@", "--"),
        ("aaaa", "aa", "b"),
        ("aaa", "aa", "aaa"),
        ("", "x", "y"),
        ("x", "xx", "y"),
        ("abc", "c", ""),
        ("é€é", "é", "€"),
    ] {
        assert_eq!(replace(s, from, to), s.replace(from, to));
    }
}

#[test]
fn says_what_it_does() {
    let paths = paths();
    let image = ImageName::default();
    let rust = ImageName::parse("rust").unwrap();
    assert_eq!(
        already_there(&paths, &image),
        "The base image in ~/.cache/sendit/base is already provisioned. Use --force to rebuild it."
    );
    let settings = ProvisionSettings {
        cpus: 2,
        memory: ByteSize::gib(4),
    };
    let log = paths.provision_dir().join_text("console.log");
    assert_eq!(
        provisioning(&paths, &settings, &log),
        "Provisioning the base image (2 CPUs, 4 GiB memory). This takes a few minutes; \
         the console is logged to ~/.cache/sendit/provision/console.log."
    );
    assert_eq!(with_scripts(&paths, &Vec::new()), None);
    assert_eq!(
        with_scripts(&paths, &vec![script("a.sh", ""), script("b.sh", "")]).unwrap(),
        "Custom scripts from ~/.config/sendit/provision-scripts: a.sh, b.sh"
    );
    assert_eq!(
        provisioning_failed(&paths, &log),
        "provisioning failed; see ~/.cache/sendit/provision/console.log for details"
    );
    assert_eq!(
        base_ready(&paths, &rust),
        "Base image ready in ~/.cache/sendit/images/rust."
    );
    assert_eq!(command(&image, false), "sendit provision");
    assert_eq!(command(&image, true), "sendit provision --force");
    assert_eq!(command(&rust, false), "sendit provision rust");
    assert_eq!(command(&rust, true), "sendit provision rust --force");
    assert_eq!(public_key("ssh-ed25519 AAAA sendit\n"), "ssh-ed25519 AAAA sendit");
    let spec = provision_spec(&settings, log.clone(), log.clone());
    assert_eq!((spec.cpus, spec.memory), (2, ByteSize::gib(4)));
    assert!(spec.shares.is_empty());
    assert_eq!(spec.seed, Some(log));
}
