use std::path::{Path, PathBuf};

use sendit::host::Lookup;
use sendit::order::Rank;
use sendit::path::{Component, UnixPath};
use sendit::paths::{join_id, project_id, ImageName, Paths, Project};

fn path(s: &str) -> UnixPath {
    UnixPath::from_text(s)
}

#[test]
fn project_ids_are_stable_and_distinct() {
    let a = project_id(&path("/Users/me/dev/my app"));
    assert!(a.starts_with("my_app_"), "{a}");
    assert_eq!(a, project_id(&path("/Users/me/dev/my app")));
    assert_ne!(a, project_id(&path("/Users/me/other/my app")));
    assert!(project_id(&path("/")).starts_with("root_"));
}

#[test]
fn project_ids_end_in_the_uuid_of_the_path() {
    let url = b"file:///Users/me/dev/my app";
    let uuid = uuid::Uuid::new_v5(&uuid::Uuid::NAMESPACE_URL, url);
    assert_eq!(
        project_id(&path("/Users/me/dev/my app")),
        format!("my_app_{uuid}")
    );
    let bytes = UnixPath {
        bytes: b"/x/a\xff.b".to_vec(),
    };
    assert!(project_id(&bytes).starts_with("a_.b_"));
}

#[test]
fn projects_have_their_own_vms() {
    let paths = Paths::new(path("/home/me"));
    let vm = |root: &str| {
        let project = Project::at(&path(root), &Lookup::Directory(path(root))).unwrap();
        let uuid: Vec<char> = project.id.chars().rev().take(36).collect();
        (uuid, paths.vm_dir(&project))
    };
    // The same name, and names that look the same in an ID.
    for (a, b) in [("/a/app", "/b/app"), ("/a/my app", "/a/my_app"), ("/", "/root")] {
        let ((first, one), (second, two)) = (vm(a), vm(b));
        assert_ne!(first, second, "{a} {b}");
        assert_ne!(one, two, "{a} {b}");
    }
}

#[test]
fn ids_are_safe_names() {
    assert_eq!(join_id("my app/é", "0-1"), "my_app___0-1");
    assert_eq!(join_id("", "x"), "_x");
    assert_eq!(join_id("a.B-9_", ""), "a.B-9__");
}

#[test]
fn layout() {
    let paths = Paths::new(path("/home/me"));
    assert_eq!(paths.base_dir(), path("/home/me/.cache/sendit/base"));
    assert_eq!(
        paths.config_file(),
        path("/home/me/.config/sendit/config.toml")
    );
    assert_eq!(paths.vms_dir(), path("/home/me/.sendit"));
    assert_eq!(paths.expand_tilde(&path("~/x")), path("/home/me/x"));
    assert_eq!(paths.expand_tilde(&path("/x/~")), path("/x/~"));
    assert_eq!(paths.display(&path("/home/me/.sendit")), "~/.sendit");
}

#[test]
fn every_directory_has_its_place() {
    let paths = Paths::new(path("/home/me"));
    let shown = |p: UnixPath| paths.display(&p);
    assert_eq!(shown(paths.cache_dir()), "~/.cache/sendit");
    assert_eq!(shown(paths.downloads_dir()), "~/.cache/sendit/downloads");
    assert_eq!(
        shown(paths.base_partial_dir()),
        "~/.cache/sendit/base.partial"
    );
    assert_eq!(shown(paths.provision_dir()), "~/.cache/sendit/provision");
    assert_eq!(shown(paths.ssh_dir()), "~/.cache/sendit/ssh");
    assert_eq!(
        shown(paths.provision_scripts_dir()),
        "~/.config/sendit/provision-scripts"
    );
    assert_eq!(*paths.home(), path("/home/me"));
    let default = ImageName::default();
    let rust = ImageName::parse("rust").unwrap();
    assert_eq!(paths.image_dir(&default), paths.base_dir());
    assert_eq!(paths.image_partial_dir(&default), paths.base_partial_dir());
    assert_eq!(shown(paths.image_dir(&rust)), "~/.cache/sendit/images/rust");
    assert_eq!(
        shown(paths.image_partial_dir(&rust)),
        "~/.cache/sendit/images/rust.partial"
    );
}

#[test]
fn shown_paths_expand_to_themselves() {
    let paths = Paths::new(path("/home/me"));
    for p in ["/home/me", "/home/me/a/b", "/etc/hosts", "/", "/home/me/~"] {
        let shown = path(&paths.display(&path(p)));
        assert_eq!(paths.expand_tilde(&shown), path(p), "{p}");
    }
    assert_eq!(paths.display(&path("/home/me")), "~/");
    assert_eq!(paths.display(&path("/home/mean")), "/home/mean");

    let paths = Paths::new(path("/home/zo\u{eb}"));
    let p = path("/home/zo\u{eb}/\u{65e5}\u{8a18}//\u{e9}/.");
    assert_eq!(paths.display(&p), "~/\u{65e5}\u{8a18}//\u{e9}");
    assert_eq!(paths.expand_tilde(&path(&paths.display(&p))), p);
}

#[test]
fn projects_are_directories() {
    let dir = path("somewhere");
    let root = path("/Users/me/app");
    let project = Project::at(&dir, &Lookup::Directory(root.clone())).unwrap();
    assert_eq!(project.root, root);
    assert_eq!(project.id, project_id(&root));
    let error = Project::at(&dir, &Lookup::Other(path("/etc/hosts"))).unwrap_err();
    assert_eq!(error.message(), "/etc/hosts is not a directory");
    let error = Project::at(&dir, &Lookup::Failed("gone".to_string())).unwrap_err();
    assert_eq!(error.message(), "project directory somewhere");
}

#[test]
fn projects_are_found_again_at_their_roots() {
    let root = path("/Users/me/app");
    let at = |dir: &str| Project::at(&path(dir), &Lookup::Directory(root.clone())).unwrap();
    let project = at("/Users/me/link");
    for spelling in ["/Users/me/app", "app", "/Users/me/other/../app"] {
        let again = at(spelling);
        assert_eq!(again.root, project.root, "{spelling}");
        assert_eq!(again.id, project.id, "{spelling}");
    }
    let again = Project::at(&project.root, &Lookup::Directory(project.root.clone())).unwrap();
    assert_eq!(again.root.bytes, project.root.bytes);
    assert_eq!(again.id, project.id);
}

#[test]
fn image_names_are_plain() {
    for good in ["default", "rust", "go-1_22", "0"] {
        assert_eq!(ImageName::parse(good).unwrap().as_str(), good);
    }
    for bad in ["", "Rust", "../x", "a b", "-x", "_x", "a/b", "é", "a."] {
        assert!(ImageName::parse(bad).is_err(), "{bad}");
    }
    assert_eq!(
        ImageName::parse("Rust").unwrap_err().message(),
        "invalid image name \"Rust\": expected lower-case letters, digits, - and _"
    );
    assert_eq!(ImageName::default().as_str(), "default");
    let (a, b) = ("a".parse::<ImageName>().unwrap(), "b".parse().unwrap());
    assert!(a.rank(&b) == Rank::Before && b.rank(&a) == Rank::After && a.rank(&a) == Rank::Same);
}

/// Paths with dots, doubled slashes, and all the corners they have.
const SAMPLES: [&str; 24] = [
    "", "/", "//", ".", "./", "./a", "a", "a/", "a//b", "a/./b", "a/../b", "..", "../a", "/a",
    "/a/", "/a/.", "/./a", "//a//b/./c//", "/..", "/../a", "a/.", "./.", "./..", "~/x",
];

fn std_components(p: &str) -> Vec<String> {
    Path::new(p)
        .components()
        .map(|c| c.as_os_str().to_str().unwrap().to_string())
        .collect()
}

fn own_components(p: &UnixPath) -> Vec<String> {
    p.components()
        .iter()
        .map(|c| match c {
            Component::RootDir => "/".to_string(),
            Component::CurDir => ".".to_string(),
            Component::ParentDir => "..".to_string(),
            Component::Normal(name) => String::from_utf8(name.clone()).unwrap(),
        })
        .collect()
}

#[test]
fn paths_behave_like_those_of_the_standard_library() {
    for a in SAMPLES {
        let (p, q) = (path(a), Path::new(a));
        assert_eq!(own_components(&p), std_components(a), "{a}");
        assert_eq!(p.is_absolute(), q.is_absolute(), "{a}");
        assert_eq!(
            p.file_name().map(|n| String::from_utf8(n).unwrap()),
            q.file_name().map(|n| n.to_str().unwrap().to_string()),
            "{a}"
        );
        let normal: PathBuf = q.components().collect();
        assert_eq!(p.normalized().display(), normal.to_str().unwrap(), "{a}");
        assert_eq!(p.display(), q.display().to_string());
        for b in SAMPLES {
            let (r, s) = (path(b), Path::new(b));
            assert_eq!(p.join(&r).display(), q.join(s).to_str().unwrap());
            assert_eq!(p == r, q == s, "{a} {b}");
            assert_eq!(p.starts_with(&r), q.starts_with(s), "{a} {b}");
            assert_eq!(
                p.strip_prefix(&r).map(|x| x.display()),
                q.strip_prefix(s).ok().map(|x| x.to_str().unwrap().to_string()),
                "{a} {b}"
            );
            let rank = match q.cmp(s) {
                std::cmp::Ordering::Less => Rank::Before,
                std::cmp::Ordering::Equal => Rank::Same,
                std::cmp::Ordering::Greater => Rank::After,
            };
            assert!(p.rank(&r) == rank, "{a} {b}");
        }
    }
}

#[test]
fn joining_undoes_stripping() {
    for a in SAMPLES {
        for b in SAMPLES {
            if let Some(rest) = path(a).strip_prefix(&path(b)) {
                assert_eq!(path(b).join(&rest), path(a), "{a} {b}");
            }
        }
    }
}

#[test]
fn paths_that_are_not_utf8_are_shown_with_replacements() {
    let p = UnixPath {
        bytes: b"/a\xff\xfe/\xe2\x82b".to_vec(),
    };
    assert_eq!(p.display(), "/a\u{fffd}\u{fffd}/\u{fffd}b");
}
