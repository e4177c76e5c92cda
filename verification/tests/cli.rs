use sendit::cli::{Cli, Command, RunArgs};
use sendit::mount_spec::MountSpec;
use sendit::paths::ImageName;
use sendit::session::ssh_arguments;
use sendit::size::ByteSize;
use sendit::vm::net::Ipv4;

/// The flags of `run` with these values.
fn run_args(cpus: &str, memory: &str, mounts: &[&str], expose_git: bool) -> Option<RunArgs> {
    Some(RunArgs {
        cpus: Some(cpus.parse().ok()?),
        memory: Some(memory.parse().ok()?),
        mounts: mounts
            .iter()
            .map(|m| m.parse::<MountSpec>().ok())
            .collect::<Option<Vec<_>>>()?,
        expose_git,
        image: None,
    })
}

#[test]
fn parses_run_flags() {
    let cli = Cli {
        project: None,
        command: Command::Run(run_args("4", "8G", &["/a:/b:ro", "/c"], true).unwrap()),
    };
    let Command::Run(args) = cli.command else {
        panic!("expected run")
    };
    let settings = args.settings();
    assert_eq!(settings.cpus, Some(4));
    assert_eq!(settings.memory, Some(ByteSize::gib(8)));
    assert_eq!(settings.mounts.len(), 2);
    assert_eq!(settings.expose_git, Some(true));
}

#[test]
fn passes_ssh_commands_through() {
    let given = ["ls", "-la", "/workspace"];
    let cli = Cli {
        project: None,
        command: Command::Ssh {
            root: false,
            command: given.iter().map(|s| s.to_string()).collect(),
        },
    };
    let Command::Ssh { root, command } = cli.command else {
        panic!("expected ssh")
    };
    assert_eq!(command, ["ls", "-la", "/workspace"]);
    let ip = Ipv4 {
        a: 192,
        b: 168,
        c: 64,
        d: 9,
    };
    assert_eq!(
        ssh_arguments(root, &ip, &command),
        ["dev@192.168.64.9", "ls", "-la", "/workspace"]
    );
    assert_eq!(ssh_arguments(true, &ip, &Vec::new()), ["root@192.168.64.9"]);
}

#[test]
fn rejects_bad_values() {
    assert!(run_args("4", "8", &[], false).is_none());
    assert!(run_args("4", "8G", &["/a:/b:/c"], false).is_none());
    assert!(run_args("4", "8G", &[], false).is_some());
}

#[test]
fn flags_that_are_not_given_leave_the_settings_open() {
    let args = RunArgs {
        cpus: None,
        memory: None,
        mounts: Vec::new(),
        expose_git: false,
        image: Some(ImageName::parse("rust").unwrap()),
    };
    let settings = args.settings();
    assert_eq!(settings.cpus, None);
    assert_eq!(settings.memory, None);
    assert_eq!(settings.disk_size, None);
    assert_eq!(settings.expose_git, None);
    assert_eq!(settings.image.unwrap().as_str(), "rust");
}
