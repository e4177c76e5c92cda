use std::collections::BTreeMap;
use std::str::FromStr;

use sendit::config::{
    resolve_mount, Answer, Config, ProvisionSettings, VmSettings, DEFAULT_CPUS, DEFAULT_DISK_SIZE,
    DEFAULT_MEMORY, GUEST_HOME, GUEST_USER,
};
use sendit::config_error::ConfigError;
use sendit::host::{if_exists, FileError, HostPaths, Lookup};
use sendit::mount_spec::MountSpec;
use sendit::path::UnixPath;
use sendit::paths::{ImageName, Paths, Project};
use sendit::provision_table::ProvisionValue;
use sendit::settings::{ProjectTable, Resources, Settings};
use sendit::size::ByteSize;
use sendit::table::NameTable;

// ---------------------------------------------------------------------------
// Building configurations from their text
// ---------------------------------------------------------------------------

fn number(value: &toml::Value) -> Result<u32, String> {
    match value {
        toml::Value::Integer(n) => u32::try_from(*n).map_err(|e| e.to_string()),
        _ => Err("expected u32".to_string()),
    }
}

fn text(value: &toml::Value) -> Result<String, String> {
    match value {
        toml::Value::String(s) => Ok(s.clone()),
        _ => Err("expected a string".to_string()),
    }
}

fn size(value: &toml::Value) -> Result<ByteSize, String> {
    ByteSize::parse(&text(value)?).map_err(|e| e.message())
}

fn name(s: &str) -> ImageName {
    ImageName::parse(s).unwrap()
}

fn set(settings: &mut Settings, key: &str, value: &toml::Value) -> Result<bool, String> {
    match key {
        "cpus" => settings.cpus = Some(number(value)?),
        "memory" => settings.memory = Some(size(value)?),
        "disk-size" => settings.disk_size = Some(size(value)?),
        "mounts" => {
            for item in value.as_array().ok_or("expected an array")? {
                settings
                    .mounts
                    .push(MountSpec::parse(&text(item)?).map_err(|e| e.message())?);
            }
        }
        "expose-git" => settings.expose_git = Some(value.as_bool().ok_or("expected a boolean")?),
        "image" => {
            settings.image = Some(ImageName::parse(&text(value)?).map_err(|e| e.message())?)
        }
        _ => return Ok(false),
    }
    Ok(true)
}

fn resources(value: &toml::Value) -> Result<Resources, String> {
    let mut r = Resources::default();
    for (key, value) in value.as_table().ok_or("expected a table")? {
        match key.as_str() {
            "cpus" => r.cpus = Some(number(value)?),
            "memory" => r.memory = Some(size(value)?),
            _ => return Err(format!("unknown field `{key}`")),
        }
    }
    Ok(r)
}

fn parse(text: &str) -> Result<Config, String> {
    let table: toml::Table = text.parse().map_err(|e: toml::de::Error| e.to_string())?;
    let mut config = Config::default();
    for (key, value) in &table {
        if set(&mut config.defaults, key, value)? {
            continue;
        }
        let inner = value
            .as_table()
            .ok_or_else(|| format!("unknown field `{key}`"))?;
        match key.as_str() {
            "provision" => {
                let entries = inner
                    .iter()
                    .map(|(key, value)| {
                        (
                            key.clone(),
                            ProvisionValue {
                                table: value.is_table(),
                                cpus: number(value),
                                memory: size(value),
                                resources: resources(value),
                            },
                        )
                    })
                    .collect();
                config.provision =
                    sendit::config::Provision::try_from(entries).map_err(|e| e.message())?;
            }
            "images" => {
                let mut images = NameTable::new();
                for (key, value) in inner {
                    let image = ImageName::parse(key).map_err(|e| e.message())?;
                    images = images.with(image, resources(value)?);
                }
                config.images = images;
            }
            "projects" => {
                let mut projects = ProjectTable::new();
                for (key, value) in inner {
                    let mut settings = Settings::default();
                    for (k, v) in value.as_table().ok_or("expected a table")? {
                        if !set(&mut settings, k, v)? {
                            return Err(format!("unknown field `{k}`"));
                        }
                    }
                    projects = projects.with(UnixPath::from_text(key), settings);
                }
                config.projects = projects;
            }
            _ => return Err(format!("unknown field `{key}`")),
        }
    }
    Ok(config)
}

// ---------------------------------------------------------------------------
// A host to resolve on
// ---------------------------------------------------------------------------

const HOST_CPUS: u32 = 16;

struct Fixture {
    dir: UnixPath,
    paths: Paths,
    project: Project,
    files: BTreeMap<String, bool>,
}

/// `path` without `..` and `.`.
fn resolved(path: &str) -> String {
    let mut parts: Vec<&str> = Vec::new();
    for part in path.split('/') {
        match part {
            "" | "." => {}
            ".." => {
                parts.pop();
            }
            _ => parts.push(part),
        }
    }
    format!("/{}", parts.join("/"))
}

impl Fixture {
    fn new() -> Self {
        let mut files = BTreeMap::new();
        for dir in ["/fx", "/fx/home", "/fx/home/extra", "/fx/proj"] {
            files.insert(dir.to_string(), true);
        }
        files.insert("/fx/file".to_string(), false);
        files.insert("/".to_string(), true);
        let root = Lookup::Directory(UnixPath::from_text("/fx/proj"));
        Fixture {
            dir: UnixPath::from_text("/fx"),
            paths: Paths::new(UnixPath::from_text("/fx/home")),
            project: Project::at(&UnixPath::from_text("/fx/proj"), &root).unwrap(),
            files,
        }
    }

    fn look(&self, path: &UnixPath) -> Lookup {
        let found = resolved(&path.display());
        match self.files.get(&found) {
            Some(true) => Lookup::Directory(UnixPath::from_text(&found)),
            Some(false) => Lookup::Other(UnixPath::from_text(&found)),
            None => Lookup::Failed("No such file or directory (os error 2)".to_string()),
        }
    }

    fn settle<T>(&self, ask: impl Fn(&HostPaths) -> Answer<T>) -> Result<T, ConfigError> {
        let mut host = HostPaths::new();
        loop {
            match ask(&host) {
                Answer::Done(value) => return Ok(value),
                Answer::Fail(error) => return Err(error),
                Answer::Look(path) => {
                    assert!(host.get(&path).is_none());
                    let found = self.look(&path);
                    host.record(path, found);
                }
            }
        }
    }

    fn resolve_made_from(
        &self,
        config: &Config,
        cli: &Settings,
        made_from: Option<&ImageName>,
    ) -> Result<VmSettings, ConfigError> {
        self.settle(|host| {
            config.resolve(
                &self.paths,
                &self.project,
                cli,
                &self.dir,
                made_from,
                host,
                HOST_CPUS,
            )
        })
    }

    fn resolve(&self, config: &Config, cli: &Settings) -> Result<VmSettings, ConfigError> {
        self.resolve_made_from(config, cli, None)
    }
}

// ---------------------------------------------------------------------------
// Sizes and mounts
// ---------------------------------------------------------------------------

#[test]
fn parses_sizes() {
    assert_eq!("4G".parse::<ByteSize>().unwrap(), ByteSize::gib(4));
    assert_eq!("64GiB".parse::<ByteSize>().unwrap(), ByteSize::gib(64));
    assert_eq!("512m".parse::<ByteSize>().unwrap(), ByteSize::mib(512));
    assert_eq!("1 TB".parse::<ByteSize>().unwrap(), ByteSize::gib(1024));
    assert!("4096".parse::<ByteSize>().is_err());
    assert!("G".parse::<ByteSize>().is_err());
    assert!("4X".parse::<ByteSize>().is_err());
    assert!("99999999999T".parse::<ByteSize>().is_err());
}

#[test]
fn formats_sizes() {
    assert_eq!(ByteSize::gib(64).to_string(), "64 GiB");
    assert_eq!(ByteSize::mib(1536).to_string(), "1536 MiB");
    assert_eq!(ByteSize(100).to_string(), "100 B");
}

#[test]
fn formats_approximate_sizes() {
    assert_eq!(ByteSize(512).approx(), "512 B");
    assert_eq!(ByteSize(1536).approx(), "1.5 KiB");
    assert_eq!(ByteSize(1_932_735_283).approx(), "1.8 GiB");
}

#[test]
fn approximate_sizes_round_like_floats() {
    const UNITS: [&str; 5] = ["B", "KiB", "MiB", "GiB", "TiB"];
    let mut samples: Vec<u64> = vec![0, 1, 999, 1023, 1024, 1025, 1075, 1076, 1126, 1127, u64::MAX];
    let mut x: u64 = 88_172_645_463_325_252;
    for _ in 0..20_000 {
        x ^= x << 13;
        x ^= x >> 7;
        x ^= x << 17;
        samples.push(x >> (x % 64));
    }
    for k in 0..64 {
        for d in 0..3 {
            samples.push((1u64 << k).wrapping_sub(1).wrapping_add(d));
        }
    }
    for n in samples {
        let mut size = n as f64;
        let mut unit = 0;
        while size >= 1024.0 && unit < UNITS.len() - 1 {
            size /= 1024.0;
            unit += 1;
        }
        let expected = if unit == 0 {
            format!("{n} B")
        } else {
            format!("{size:.1} {}", UNITS[unit])
        };
        assert_eq!(ByteSize(n).approx(), expected, "{n}");
    }
}

#[test]
fn sizes_read_back() {
    for n in [
        1024,
        3 << 10,
        1 << 20,
        1536 << 20,
        7 << 30,
        1 << 40,
        16_777_215 << 40,
    ] {
        let size = ByteSize(n);
        assert_eq!(ByteSize::parse(&size.to_string()).unwrap(), size);
    }
}

#[test]
fn size_errors_say_what_is_wrong() {
    let message = |s: &str| ByteSize::parse(s).unwrap_err().message();
    assert_eq!(
        message("4X"),
        "invalid size \"4X\": expected a number with a unit, e.g. 512M or 4G"
    );
    assert_eq!(message("G"), "invalid size \"G\"");
    assert_eq!(
        message(" 99999999999T "),
        "size \"99999999999T\" is too large"
    );
    assert!(ByteSize::from_str("+4G").is_err());
    assert_eq!(ByteSize::parse("16777215T").unwrap(), ByteSize(16_777_215 << 40));
    assert!(ByteSize::parse("16777216T").is_err());
}

#[test]
fn guest_home_belongs_to_guest_user() {
    assert_eq!(GUEST_HOME, format!("/home/{GUEST_USER}"));
}

#[test]
fn parses_mount_specs() {
    let spec: MountSpec = "~/data".parse().unwrap();
    assert_eq!(spec.host, UnixPath::from_text("~/data"));
    assert_eq!(spec.guest, None);
    assert!(!spec.read_only);

    let spec: MountSpec = "/a:/b:ro".parse().unwrap();
    assert_eq!(spec.host, UnixPath::from_text("/a"));
    assert_eq!(spec.guest, Some(UnixPath::from_text("/b")));
    assert!(spec.read_only);

    let spec: MountSpec = "/a:ro".parse().unwrap();
    assert_eq!(spec.guest, None);
    assert!(spec.read_only);

    assert!("/a:/b:/c".parse::<MountSpec>().is_err());
    assert!(":/b".parse::<MountSpec>().is_err());
}

#[test]
fn mount_errors_say_what_is_wrong() {
    let message = |s: &str| MountSpec::parse(s).unwrap_err().message();
    assert_eq!(
        message("/a:/b:/c"),
        "invalid mount \"/a:/b:/c\": expected HOST[:GUEST][:ro|rw]"
    );
    assert_eq!(message(":/b"), "invalid mount \":/b\": host path is empty");
    // A mode alone leaves no host path.
    assert_eq!(
        message("ro"),
        "invalid mount \"ro\": expected HOST[:GUEST][:ro|rw]"
    );
    // The last mode counts, the one before it is a guest path.
    let spec = MountSpec::parse("/a:ro:rw").unwrap();
    assert_eq!(spec.guest, Some(UnixPath::from_text("ro")));
    assert!(!spec.read_only);
}

#[test]
fn mounts_read_back() {
    for (host, guest, read_only) in [
        ("/a", None, true),
        ("~/data", Some("/b"), false),
        ("x y", Some("relative"), true),
    ] {
        let mut text = host.to_string();
        if let Some(guest) = guest {
            text = format!("{text}:{guest}");
        }
        text += if read_only { ":ro" } else { ":rw" };
        let spec = MountSpec::parse(&text).unwrap();
        assert_eq!(spec.host.display(), host);
        assert_eq!(spec.guest.map(|g| g.display()).as_deref(), guest);
        assert_eq!(spec.read_only, read_only);
    }
}

// ---------------------------------------------------------------------------
// The config file
// ---------------------------------------------------------------------------

#[test]
fn parses_config_file() {
    let config = parse(
        r#"
        cpus = 4
        memory = "8G"
        mounts = ["~/.cargo/registry:/home/dev/.cargo/registry:ro"]

        [provision]
        cpus = 3

        [provision.rust]
        memory = "16G"

        [images.rust]
        memory = "12G"

        [projects."/tmp/foo"]
        cpus = 8
        expose-git = true
        image = "rust"
        "#,
    )
    .unwrap();
    assert_eq!(config.defaults.cpus, Some(4));
    assert_eq!(config.defaults.memory, Some(ByteSize::gib(8)));
    assert_eq!(config.defaults.mounts.len(), 1);
    assert_eq!(config.projects.len(), 1);
    assert_eq!(*config.projects.path(0), UnixPath::from_text("/tmp/foo"));
    let project = config.projects.settings(0);
    assert_eq!(project.cpus, Some(8));
    assert_eq!(project.expose_git, Some(true));
    assert_eq!(project.image, Some("rust".parse().unwrap()));
    let rust = "rust".parse().unwrap();
    assert_eq!(
        config.images.get(&rust).unwrap().memory,
        Some(ByteSize::gib(12))
    );
    assert_eq!(config.provision.resources.cpus, Some(3));
    assert_eq!(
        config.provision.images.get(&rust).unwrap().memory,
        Some(ByteSize::gib(16))
    );

    assert!(parse("image = \"Rust\"").is_err());
    assert!(parse("[images.\"../x\"]\ncpus = 1").is_err());
    assert!(parse("[provision.\"../x\"]\ncpus = 1").is_err());
}

#[test]
fn rejects_unknown_keys() {
    assert!(parse("cpu = 4").is_err());
    assert!(parse("[projects.\"/x\"]\nram = \"4G\"").is_err());
    assert!(parse("[provision]\nmounts = []").is_err());
    assert!(parse("[images.rust]\nimage = \"go\"").is_err());
    assert!(parse("[provision]\ndisk-size = \"8G\"").is_err());
    assert!(parse("[provision.rust]\nmounts = []").is_err());
}

#[test]
fn provision_errors_say_what_is_wrong() {
    let message = |text: &str| parse(text).unwrap_err();
    assert_eq!(
        message("[provision]\nmounts = []"),
        "unknown field `mounts`, expected `cpus`, `memory` or an image's table"
    );
    assert_eq!(
        message("[provision.rust]\nmounts = []"),
        "in [provision.rust]: unknown field `mounts`"
    );
    assert_eq!(message("[provision]\ncpus = \"x\""), "cpus: expected u32");
    assert_eq!(
        message("[provision]\nmemory = \"x\""),
        "memory: invalid size \"x\": expected a number with a unit, e.g. 512M or 4G"
    );
    assert_eq!(
        message("[provision.\"../x\"]\ncpus = 1"),
        "invalid image name \"../x\": expected lower-case letters, digits, - and _"
    );
}

#[test]
fn resolves_provision_resources() {
    let rust: ImageName = "rust".parse().unwrap();
    let resolve = |config: &str, cli: Resources| {
        parse(config)
            .unwrap()
            .resolve_provision(&rust, &cli, HOST_CPUS)
    };
    let none = Resources::default;
    let defaults = ProvisionSettings {
        cpus: DEFAULT_CPUS,
        memory: ByteSize(DEFAULT_MEMORY),
    };
    assert_eq!(resolve("", none()).unwrap(), defaults);

    let top_level = "cpus = 1\nmemory = \"2G\"\n";
    let settings = resolve(top_level, none()).unwrap();
    assert_eq!((settings.cpus, settings.memory), (1, ByteSize::gib(2)));

    let table = format!("{top_level}[provision]\nmemory = \"3G\"\n");
    let settings = resolve(&table, none()).unwrap();
    assert_eq!((settings.cpus, settings.memory), (1, ByteSize::gib(3)));

    let cli = Resources {
        cpus: None,
        memory: Some(ByteSize::gib(1)),
    };
    assert_eq!(resolve(&table, cli).unwrap().memory, ByteSize::gib(1));

    // Only the image's own table applies, above [provision], and the
    // resources for running VMs don't.
    let images = format!(
        "{table}[provision.rust]\ncpus = 2\n[provision.go]\ncpus = 6\n\
         [images.rust]\ncpus = 7\nmemory = \"7G\"\n"
    );
    let settings = resolve(&images, none()).unwrap();
    assert_eq!((settings.cpus, settings.memory), (2, ByteSize::gib(3)));
    assert_eq!(resolve(&images, cli).unwrap().memory, ByteSize::gib(1));

    assert!(resolve("[provision]\ncpus = 0", none()).is_err());
    assert!(resolve("[provision]\nmemory = \"256M\"", none()).is_err());
}

#[test]
fn merges_layers() {
    let fx = Fixture::new();
    let config = parse(&format!(
        r#"
        cpus = 1
        memory = "2G"
        mounts = ["~/extra:ro"]

        [projects."{}"]
        memory = "3G"
        expose-git = true
        "#,
        fx.project.root.display()
    ))
    .unwrap();
    let cli = Settings {
        memory: Some(ByteSize::gib(1)),
        mounts: vec!["proj:/data".parse().unwrap()],
        ..Settings::default()
    };

    let vm = fx.resolve(&config, &cli).unwrap();
    assert_eq!(vm.cpus, 1);
    assert_eq!(vm.memory, ByteSize::gib(1));
    assert_eq!(vm.disk_size, ByteSize(DEFAULT_DISK_SIZE));
    assert!(vm.expose_git);
    assert_eq!(vm.image, None);
    let mounts: Vec<_> = vm
        .mounts
        .iter()
        .map(|m| (m.host.clone(), m.guest.clone(), m.read_only))
        .collect();
    assert_eq!(
        mounts,
        [
            (
                fx.project.root.clone(),
                UnixPath::from_text("/home/dev/proj"),
                false
            ),
            (
                fx.dir.join_text("home/extra"),
                UnixPath::from_text("/mnt/extra"),
                true
            ),
            (
                fx.dir.join_text("proj"),
                UnixPath::from_text("/data"),
                false
            ),
        ]
    );
    assert_eq!(vm.project().host, fx.project.root);
    assert_eq!(vm.mounts[1].mode(), "ro");
    assert_eq!(vm.mounts[2].mode(), "rw");
}

#[test]
fn resolves_images() {
    let fx = Fixture::new();
    let image = |name: &str| Some(name.parse::<ImageName>().unwrap());
    let project =
        |settings: &str| format!("[projects.\"{}\"]\n{settings}\n", fx.project.root.display());
    let resolve = |config: &str, cli: Option<&str>| {
        let config = parse(config).unwrap();
        let cli = Settings {
            image: cli.and_then(image),
            ..Settings::default()
        };
        let vm = fx.resolve(&config, &cli).unwrap();
        if cli.image.is_none() {
            assert_eq!(
                fx.settle(|host| config.resolve_image(&fx.paths, &fx.project, host))
                    .unwrap(),
                vm.image
            );
        }
        vm.image
    };

    assert_eq!(resolve("", None), None);
    assert_eq!(resolve("image = \"go\"", None), image("go"));
    let both = format!("image = \"go\"\n{}", project("image = \"rust\""));
    assert_eq!(resolve(&both, None), image("rust"));
    assert_eq!(resolve(&both, Some("zig")), image("zig"));
    // A project table without an image keeps the top-level one.
    let other = format!("image = \"go\"\n{}", project("cpus = 3"));
    assert_eq!(resolve(&other, None), image("go"));

    let config = parse(&format!(
        "[images.a]\n[provision.c]\n{}",
        project("image = \"b\"")
    ))
    .unwrap();
    let images = config.images();
    let named: Vec<_> = images.iter().map(ImageName::as_str).collect();
    assert_eq!(named, ["a", "c", "b"]);
}

#[test]
fn resolves_image_resources() {
    let fx = Fixture::new();
    let resolve = |config: &str, cli: Settings| {
        let vm = fx.resolve(&parse(config).unwrap(), &cli).unwrap();
        (vm.cpus, vm.memory)
    };
    let none = Settings::default;
    let images = "cpus = 1\nmemory = \"2G\"\n\
                  [images.default]\ncpus = 3\n\
                  [images.rust]\ncpus = 5\nmemory = \"6G\"\n\
                  [provision.default]\ncpus = 8\n";
    // Without a choice, and without a VM, it's the default image.
    assert_eq!(resolve(images, none()), (3, ByteSize::gib(2)));
    let rust = Settings {
        image: Some("rust".parse().unwrap()),
        ..Settings::default()
    };
    assert_eq!(resolve(images, rust.clone()), (5, ByteSize::gib(6)));

    // The project's table and the flags rank above the image's.
    let project = format!(
        "image = \"rust\"\n{images}[projects.\"{}\"]\ncpus = 4\n",
        fx.project.root.display()
    );
    assert_eq!(resolve(&project, none()), (4, ByteSize::gib(6)));
    let cli = Settings {
        memory: Some(ByteSize::gib(1)),
        ..rust
    };
    assert_eq!(resolve(&project, cli), (4, ByteSize::gib(1)));
}

#[test]
fn resolves_resources_of_the_vm_image() {
    let fx = Fixture::new();
    let rust = name("rust");
    let config = parse("[images.rust]\ncpus = 5\n").unwrap();
    let vm = fx
        .resolve_made_from(&config, &Settings::default(), Some(&rust))
        .unwrap();
    assert_eq!(vm.cpus, 5);
    assert_eq!(vm.image, None);
}

#[test]
fn validates_settings() {
    let fx = Fixture::new();
    let resolve = |config: &str, cli: Settings| fx.resolve(&parse(config).unwrap(), &cli);

    assert!(resolve("", Settings::default()).is_ok());
    assert!(resolve("cpus = 0", Settings::default()).is_err());
    assert!(resolve("memory = \"256M\"", Settings::default()).is_err());
    assert!(resolve("disk-size = \"4G\"", Settings::default()).is_err());
    // Relative host paths are only allowed on the command line.
    assert!(resolve("mounts = [\"proj\"]", Settings::default()).is_err());
    // Guest paths must be absolute, and may not collide.
    let cli = |spec: &str| Settings {
        mounts: vec![spec.parse().unwrap()],
        ..Settings::default()
    };
    assert!(resolve("", cli("proj:data")).is_err());
    assert!(resolve("", cli("proj:/")).is_err());
    assert!(resolve("", cli("proj:/home/dev/proj")).is_err());
    assert!(resolve("", cli("missing:/data")).is_err());
    assert!(resolve("", cli("proj:/mnt/a\nhide /")).is_err());
    assert!(resolve("", cli("proj:/mnt/a ")).is_err());
}

#[test]
fn config_errors_say_what_is_wrong() {
    let fx = Fixture::new();
    let message = |config: &str, spec: Option<&str>| {
        let cli = Settings {
            mounts: spec.map(|s| s.parse().unwrap()).into_iter().collect(),
            ..Settings::default()
        };
        fx.resolve(&parse(config).unwrap(), &cli)
            .unwrap_err()
            .message()
    };
    assert_eq!(
        message("cpus = 17", None),
        "cpus must be between 1 and 16, got 17"
    );
    assert_eq!(
        message("memory = \"256M\"", None),
        "memory must be at least 512 MiB, got 256 MiB"
    );
    assert_eq!(
        message("memory = \"1048577K\"", None),
        "memory must be a whole number of MiB, got 1048577 KiB"
    );
    assert_eq!(
        message("disk-size = \"4G\"", None),
        "disk-size must be at least 8 GiB, got 4 GiB"
    );
    assert_eq!(
        message("mounts = [\"proj\"]", None),
        "mount proj: host path in the config file must be absolute or start with ~"
    );
    assert_eq!(message("", Some("missing:/data")), "mount /fx/missing");
    assert_eq!(
        message("", Some("file:/data")),
        "mount /fx/file: not a directory"
    );
    assert_eq!(
        message("", Some("/:ro")),
        "mount /: give a guest path explicitly"
    );
    assert_eq!(
        message("", Some("proj:data")),
        "mount /fx/proj: guest path data must be an absolute path below /"
    );
    assert_eq!(
        message("", Some("proj:/a/../b")),
        "mount /fx/proj: guest path /a/../b must be an absolute path below /"
    );
    assert_eq!(
        message("", Some("proj:/mnt/a\nhide /")),
        "mount /fx/proj: guest path \"/mnt/a\\nhide \" may not contain control characters or \
         surrounding spaces"
    );
    assert_eq!(
        message("", Some("home:/home//dev/./proj/")),
        "mounts /fx/proj and /fx/home both use guest path /home/dev/proj"
    );
}

#[test]
fn guest_paths_must_be_utf8() {
    let fx = Fixture::new();
    let root = UnixPath {
        bytes: b"/fx/pr\xffoj".to_vec(),
    };
    let project = Project::at(&root, &Lookup::Directory(root.clone())).unwrap();
    let error = fx
        .settle(|host| {
            Config::default().resolve(
                &fx.paths,
                &project,
                &Settings::default(),
                &fx.dir,
                None,
                host,
                HOST_CPUS,
            )
        })
        .unwrap_err();
    assert!(matches!(error, ConfigError::GuestNotUtf8 { .. }));
    assert_eq!(
        error.message(),
        "mount /fx/pr\u{fffd}oj: guest path /home/dev/pr\u{fffd}oj is not valid UTF-8"
    );
}

#[test]
fn rejects_duplicate_project_tables() {
    let fx = Fixture::new();
    let config = parse(&format!(
        "[projects.\"{}\"]\ncpus = 1\n[projects.\"{}/../proj\"]\ncpus = 2\n",
        fx.project.root.display(),
        fx.project.root.display()
    ))
    .unwrap();
    let error = fx.resolve(&config, &Settings::default()).unwrap_err();
    assert!(error.message().contains("both configure"), "{error:?}");
    assert_eq!(
        error.message(),
        "[projects.\"/fx/proj\"] and [projects.\"/fx/proj/../proj\"] both configure /fx/proj"
    );
}

#[test]
fn project_tables_match_through_the_home_directory() {
    let fx = Fixture::new();
    let root = UnixPath::from_text("/fx/home/extra");
    let project = Project::at(&root, &Lookup::Directory(root.clone())).unwrap();
    let config = parse("[projects.\"~/extra\"]\ncpus = 7\n[projects.\"/gone\"]\ncpus = 9\n").unwrap();
    let vm = fx
        .settle(|host| {
            config.resolve(
                &fx.paths,
                &project,
                &Settings::default(),
                &fx.dir,
                None,
                host,
                HOST_CPUS,
            )
        })
        .unwrap();
    assert_eq!(vm.cpus, 7);
    assert_eq!(vm.project().guest, UnixPath::from_text("/home/dev/extra"));
}

#[test]
fn guest_paths_are_normalized() {
    let fx = Fixture::new();
    let spec = MountSpec::parse("proj:/data//x/./y/").unwrap();
    let mount = fx
        .settle(|host| resolve_mount(&fx.paths, &spec, Some(&fx.dir), host))
        .unwrap();
    assert_eq!(mount.guest.bytes, b"/data/x/y");
}

/// The guest path of a mount that is written as `spec`, where the host path
/// `seen` leads to `dir`.
fn default_guest(spec: &str, base: Option<&str>, seen: &str, dir: &str) -> Result<String, String> {
    let paths = Paths::new(UnixPath::from_text("/home/me"));
    let mut host = HostPaths::new();
    host.record(
        UnixPath::from_text(seen),
        Lookup::Directory(UnixPath::from_text(dir)),
    );
    let base = base.map(UnixPath::from_text);
    let spec = MountSpec::parse(spec).unwrap();
    match resolve_mount(&paths, &spec, base.as_ref(), &host) {
        Answer::Done(mount) => {
            assert_eq!(mount.host.bytes, dir.as_bytes());
            Ok(mount.guest.display())
        }
        Answer::Fail(error) => Err(error.message()),
        Answer::Look(path) => panic!("{path:?}"),
    }
}

#[test]
fn mounts_are_named_as_written() {
    let ok = |s: &str| Ok(s.to_string());
    // A symlink lends its own name, not that of its target.
    assert_eq!(
        default_guest("/x/link", None, "/x/link", "/x/target"),
        ok("/mnt/link")
    );
    assert_eq!(
        default_guest("/x/link/.", None, "/x/link/.", "/x/target"),
        ok("/mnt/link")
    );
    assert_eq!(
        default_guest("link:ro", Some("/x"), "/x/link", "/x/target"),
        ok("/mnt/link")
    );
    assert_eq!(
        default_guest("~/link", None, "/home/me/link", "/x/target"),
        ok("/mnt/link")
    );
    assert_eq!(
        default_guest("/x/rootlink", None, "/x/rootlink", "/"),
        ok("/mnt/rootlink")
    );
    // Paths that end in no name lend that of the directory.
    assert_eq!(
        default_guest("/x/a/..", None, "/x/a/..", "/x"),
        ok("/mnt/x")
    );
    assert_eq!(default_guest("~", None, "/home/me/", "/home/me"), ok("/mnt/me"));
    assert_eq!(
        default_guest("/x/..", None, "/x/..", "/"),
        Err("mount /: give a guest path explicitly".to_string())
    );
    // A guest path that is given stays.
    assert_eq!(
        default_guest("/x/link:/data", None, "/x/link", "/x/target"),
        ok("/data")
    );
}

#[test]
fn a_missing_config_file_is_an_empty_config() {
    let config = Config::load(None);
    assert_eq!(config.defaults.cpus, None);
    assert_eq!(config.projects.len(), 0);
    let file = parse("cpus = 4").unwrap();
    assert_eq!(Config::load(Some(file)).defaults.cpus, Some(4));

    assert!(matches!(if_exists::<u8>(Err(FileError::NotFound)), Ok(None)));
    assert!(matches!(if_exists(Ok(7)), Ok(Some(7))));
    assert!(matches!(
        if_exists::<u8>(Err(FileError::Other("denied".to_string()))),
        Err(FileError::Other(_))
    ));
}

#[test]
fn answers_stay_when_more_is_known() {
    let fx = Fixture::new();
    let config = parse("mounts = [\"~/extra\"]").unwrap();
    let mut host = HostPaths::new();
    let extra = fx.dir.join_text("home/extra");
    host.record(extra.clone(), fx.look(&extra));
    host.record(extra.clone(), Lookup::Failed("late".to_string()));
    host.record(fx.dir.clone(), fx.look(&fx.dir));
    let answer = config.resolve(
        &fx.paths,
        &fx.project,
        &Settings::default(),
        &fx.dir,
        None,
        &host,
        HOST_CPUS,
    );
    assert!(matches!(answer, Answer::Done(_)));
}

#[test]
fn tables_keep_names_in_order() {
    let t = NameTable::new()
        .with(name("rust"), 1u64)
        .with(name("go"), 2)
        .with(name("zig"), 3)
        .with(name("go"), 4);
    let names: Vec<_> = (0..t.len()).map(|i| t.name(i).to_string()).collect();
    assert_eq!(names, ["go", "rust", "zig"]);
    assert_eq!(t.get(&name("go")), Some(&4));
    assert_eq!(t.get(&name("c")), None);

    let paths = ["/b", "/a/z", "/a", "a"];
    let mut p = ProjectTable::new();
    for path in paths {
        p = p.with(UnixPath::from_text(path), Settings::default());
    }
    let order: Vec<_> = (0..p.len()).map(|i| p.path(i).display()).collect();
    assert_eq!(order, ["/a", "/a/z", "/b", "a"]);
    // The same path, written in another way.
    p = p.with(UnixPath::from_text("/a//z/"), Settings::default());
    assert_eq!(p.len(), 4);
}
