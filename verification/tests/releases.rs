use aynur_deploy::config::{DeploymentTarget, RustBinary};
use aynur_deploy::release::{
    copy_prebuilt_binary, copy_release_path, copy_rust_binary, copy_static_tree, keeps_entry,
    op_error, read_current_target, release_checks, remove_directory_if_exists, switch_current,
    validate_release, walk_error, Expected, FileKind, FileOp, LinkFacts, Metadata, TreeEntry,
};

fn text(value: &str) -> String {
    value.to_owned()
}

fn found(kind: FileKind, mode: u32) -> Metadata {
    Metadata::Found { kind, mode }
}

fn missing() -> Metadata {
    Metadata::Missing { source: text("no such file") }
}

fn failed() -> Metadata {
    Metadata::Failed { source: text("denied") }
}

fn shown(ops: &[FileOp<String>]) -> Vec<String> {
    ops.iter().map(|op| format!("{op:?}")).collect()
}

#[test]
fn directories_are_removed_where_they_exist() {
    let ops = remove_directory_if_exists("/d", found(FileKind::Directory, 0o755)).unwrap();
    assert_eq!(shown(&ops), ["RemoveTree(\"/d\")"]);
    assert!(remove_directory_if_exists("/d", missing()).unwrap().is_empty());
    for kind in [FileKind::File, FileKind::Symlink, FileKind::Other] {
        assert_eq!(
            remove_directory_if_exists("/d", found(kind, 0o755)).unwrap_err().message(),
            "deployment state is invalid: expected directory at \"/d\""
        );
    }
    assert_eq!(
        remove_directory_if_exists("/d", failed()).unwrap_err().message(),
        "filesystem operation read metadata failed for /d: denied"
    );
}

#[test]
fn the_current_link_is_absent_or_absolute() {
    assert_eq!(read_current_target("/c", LinkFacts::Missing).unwrap(), None);
    assert_eq!(
        read_current_target("/c", LinkFacts::Target(text("/r/1"))).unwrap().as_deref(),
        Some("/r/1")
    );
    let cases = [
        (
            LinkFacts::Failed { source: text("denied") },
            "filesystem operation read symlink metadata failed for /c: denied",
        ),
        (
            LinkFacts::NotLink,
            "deployment state is invalid: current path \"/c\" must be a symlink",
        ),
        (
            LinkFacts::Unreadable { source: text("denied") },
            "filesystem operation read symlink failed for /c: denied",
        ),
        (
            LinkFacts::Target(text("r/1")),
            "deployment state is invalid: current symlink \"/c\" has non-absolute target \"r/1\"",
        ),
    ];
    for (facts, message) in cases {
        assert_eq!(read_current_target("/c", facts).unwrap_err().message(), message);
    }
}

#[test]
fn the_current_link_is_replaced_by_one_rename() {
    let ops = switch_current("/w/site", "/r/2", "id").unwrap();
    assert_eq!(
        shown(&ops),
        [
            "CreateDirectories(\"/w\")",
            "ClearLink(\"/w/.current.id.tmp\")",
            "Symlink { target: \"/r/2\", link: \"/w/.current.id.tmp\" }",
            "RenameLink { from: \"/w/.current.id.tmp\", to: \"/w/site\" }",
            "SyncDirectory(\"/w\")",
        ]
    );
    assert_eq!(
        switch_current("/w/site", "r/2", "id").unwrap_err().message(),
        "deployment state is invalid: release path \"r/2\" must be absolute"
    );
    assert_eq!(
        switch_current("/", "/r/2", "id").unwrap_err().message(),
        "deployment state is invalid: current path \"/\" has no parent"
    );
}

#[test]
fn failed_operations_name_what_they_did() {
    let cases = [
        (FileOp::CreateDirectories(text("/a")), false, "create directory", "/a"),
        (FileOp::CreateDirectory(text("/a")), false, "create directory", "/a"),
        (FileOp::RemoveTree(text("/a")), false, "remove directory", "/a"),
        (FileOp::ClearLink(text("/a")), false, "remove stale symlink", "/a"),
        (FileOp::Copy { from: text("/a"), to: text("/b") }, false, "copy", "/a"),
        (FileOp::SetMode { path: text("/a"), mode: 0o755 }, false, "set permissions", "/a"),
        (FileOp::CopyMode { from: text("/a"), to: text("/b") }, false, "read metadata", "/a"),
        (FileOp::CopyMode { from: text("/a"), to: text("/b") }, true, "set permissions", "/b"),
        (
            FileOp::Symlink { target: text("/a"), link: text("/b") },
            false,
            "create symlink",
            "/b",
        ),
        (FileOp::Rename { from: text("/a"), to: text("/b") }, false, "rename", "/a"),
        (FileOp::RenameLink { from: text("/a"), to: text("/b") }, false, "rename symlink", "/a"),
        (FileOp::SyncDirectory(text("/a")), false, "open directory", "/a"),
        (FileOp::SyncDirectory(text("/a")), true, "sync directory", "/a"),
    ];
    for (op, second, operation, path) in cases {
        assert_eq!(
            op_error(&op, second, text("denied")).message(),
            format!("filesystem operation {operation} failed for {path}: denied")
        );
    }
}

#[test]
fn prebuilt_programs_are_copied_with_their_mode() {
    let program = found(FileKind::File, 0o100755);
    let ops = copy_prebuilt_binary("/w", "/t", "bin/service", program).unwrap();
    assert_eq!(
        shown(&ops),
        [
            "CreateDirectories(\"/t/bin\")",
            "Copy { from: \"/w/bin/service\", to: \"/t/bin/service\" }",
            &format!("SetMode {{ path: \"/t/bin/service\", mode: {} }}", 0o100755),
        ]
    );
    let cases = [
        (
            found(FileKind::Symlink, 0o777),
            "deployment state is invalid: \
             binary source \"/w/bin/service\" is not a regular file",
        ),
        (
            found(FileKind::File, 0o644),
            "deployment state is invalid: binary source \"/w/bin/service\" is not executable",
        ),
        (
            missing(),
            "filesystem operation read metadata failed for /w/bin/service: no such file",
        ),
    ];
    for (metadata, message) in cases {
        assert_eq!(
            copy_prebuilt_binary("/w", "/t", "bin/service", metadata).unwrap_err().message(),
            message
        );
    }
}

#[test]
fn built_programs_are_copied_to_the_root_of_the_release() {
    let ops = copy_rust_binary("/target", "/t", "gateway", found(FileKind::File, 0o755)).unwrap();
    assert_eq!(
        shown(&ops),
        [
            "Copy { from: \"/target/release/gateway\", to: \"/t/gateway\" }",
            &format!("SetMode {{ path: \"/t/gateway\", mode: {} }}", 0o755),
        ]
    );
    for metadata in [found(FileKind::File, 0o644), found(FileKind::Directory, 0o755)] {
        assert_eq!(
            copy_rust_binary("/target", "/t", "gateway", metadata).unwrap_err().message(),
            "deployment state is invalid: Cargo build succeeded but expected executable binary \
             \"/target/release/gateway\" does not exist"
        );
    }
}

#[test]
fn included_paths_are_files_or_directories() {
    let file =
        copy_release_path("/w", "/t", "config/a.toml", found(FileKind::File, 0o640)).unwrap();
    assert_eq!(
        shown(&file.ops),
        [
            "CreateDirectories(\"/t/config\")",
            "Copy { from: \"/w/config/a.toml\", to: \"/t/config/a.toml\" }",
            &format!("SetMode {{ path: \"/t/config/a.toml\", mode: {} }}", 0o640),
        ]
    );
    assert_eq!(file.tree, None);
    let tree = copy_release_path("/w", "/t", "config", found(FileKind::Directory, 0o755)).unwrap();
    assert_eq!(shown(&tree.ops), ["CreateDirectories(\"/t/config\")"]);
    assert_eq!(tree.tree, Some((text("/w/config"), text("/t/config"))));
    assert_eq!(
        copy_release_path("/w", "/t", "link", found(FileKind::Symlink, 0o777))
            .unwrap_err()
            .message(),
        "deployment state is invalid: \
         included release path \"/w/link\" must be a regular file or directory"
    );
    assert_eq!(
        copy_release_path("/w", "/t", "gone", missing()).unwrap_err().message(),
        "filesystem operation read metadata failed for /w/gone: no such file"
    );
}

#[test]
fn trees_are_copied_without_git_metadata_and_unsafe_links() {
    assert!(!keeps_entry(".git"));
    assert!(keeps_entry(".gitignore"));
    assert!(keeps_entry("index.html"));
    let copy = |path: &str, entry: TreeEntry| copy_static_tree("/w", "/t", path, entry);
    assert!(copy("/w", TreeEntry::Directory).unwrap().is_empty());
    assert_eq!(
        shown(&copy("/w/a", TreeEntry::Directory).unwrap()),
        ["CreateDirectory(\"/t/a\")"]
    );
    assert_eq!(
        shown(&copy("/w/a/b", TreeEntry::File).unwrap()),
        [
            "Copy { from: \"/w/a/b\", to: \"/t/a/b\" }",
            "CopyMode { from: \"/w/a/b\", to: \"/t/a/b\" }",
        ]
    );
    assert_eq!(
        shown(&copy("/w/a/c", TreeEntry::Link(text("./b"))).unwrap()),
        ["Symlink { target: \"./b\", link: \"/t/a/c\" }"]
    );
    for path in ["/w/.git", "/w/.git/config", "/w/a/.git", "/w/a/.git/hooks/b"] {
        assert!(copy(path, TreeEntry::Directory).unwrap().is_empty());
        assert!(copy(path, TreeEntry::File).unwrap().is_empty());
        assert!(copy(path, TreeEntry::Link(text("/etc/passwd"))).unwrap().is_empty());
        assert!(copy(path, TreeEntry::Other).unwrap().is_empty());
    }
    assert!(copy_static_tree("/w/.git", "/t", "/w/.git/a", TreeEntry::File).unwrap().is_empty());
    assert_eq!(
        shown(&copy_static_tree("/.git/w", "/t", "/.git/w/a", TreeEntry::Directory).unwrap()),
        ["CreateDirectory(\"/t/a\")"]
    );
    assert_eq!(
        shown(&copy("/w/.gitignore", TreeEntry::Directory).unwrap()),
        ["CreateDirectory(\"/t/.gitignore\")"]
    );
    for target in ["/etc/passwd", "../b", "a/../../b"] {
        assert_eq!(
            copy("/w/a/c", TreeEntry::Link(text(target))).unwrap_err().message(),
            format!(
                "deployment state is invalid: \
                 static release symlink \"/w/a/c\" has unsafe target {target:?}"
            )
        );
    }
    assert_eq!(
        copy("/w/p", TreeEntry::Other).unwrap_err().message(),
        "deployment state is invalid: unsupported file type in static release: \"/w/p\""
    );
    assert_eq!(
        copy("/w/l", TreeEntry::UnreadableLink { source: text("denied") }).unwrap_err().message(),
        "filesystem operation read symlink failed for /w/l: denied"
    );
    assert_eq!(
        copy("/x/a", TreeEntry::File).unwrap_err().message(),
        "deployment state is invalid: \
         could not make \"/x/a\" relative to \"/w\": prefix not found"
    );
    assert_eq!(
        walk_error("/w", "loop").message(),
        "deployment state is invalid: walking static source \"/w\" failed: loop"
    );
}

fn rust_target() -> DeploymentTarget {
    DeploymentTarget::Rust {
        cargo_manifest: text("Cargo.toml"),
        binaries: vec![
            RustBinary { package: text("gateway"), binary: text("gateway") },
            RustBinary { package: text("tools"), binary: text("migrator") },
        ],
        include_paths: vec![text("config")],
        environment_file: None,
    }
}

#[test]
fn releases_are_checked_for_what_they_must_hold() {
    let checks = release_checks(&rust_target(), "/r/1");
    let shown: Vec<(&str, Expected)> =
        checks.iter().map(|check| (check.0.as_str(), check.1)).collect();
    assert_eq!(
        shown,
        [
            ("/r/1", Expected::Directory),
            ("/r/1/gateway", Expected::Program),
            ("/r/1/migrator", Expected::Program),
            ("/r/1/config", Expected::Included),
        ]
    );
    let site = DeploymentTarget::Static { entry_file: text("index.html") };
    let checks = release_checks(&site, "/r/1");
    assert_eq!(checks.len(), 2);
    assert_eq!((checks[1].0.as_str(), checks[1].1), ("/r/1/index.html", Expected::File));
    let binary = DeploymentTarget::Binary { binary_path: text("bin/s") };
    let checks = release_checks(&binary, "/r/1");
    assert_eq!((checks[1].0.as_str(), checks[1].1), ("/r/1/bin/s", Expected::Program));
}

#[test]
fn the_first_flaw_of_a_release_is_reported() {
    let directory = || found(FileKind::Directory, 0o755);
    let program = || found(FileKind::File, 0o755);
    let check = |facts: Vec<Metadata>| validate_release(&rust_target(), "/r/1", &facts);
    assert!(check(vec![directory(), program(), program(), directory()]).is_ok());
    assert!(check(vec![directory(), program(), program(), found(FileKind::File, 0)]).is_ok());
    let cases = [
        (
            vec![missing(), missing(), missing(), missing()],
            "deployment state is invalid: release path \"/r/1\" is not a directory",
        ),
        (
            vec![directory(), program(), missing(), missing()],
            "filesystem operation read metadata failed for /r/1/migrator: no such file",
        ),
        (
            vec![directory(), directory(), program(), directory()],
            "deployment state is invalid: \
             release entry \"/r/1/gateway\" is not a regular file",
        ),
        (
            vec![directory(), found(FileKind::File, 0o644), program(), directory()],
            "deployment state is invalid: release entry \"/r/1/gateway\" is not executable",
        ),
        (
            vec![directory(), program(), program(), found(FileKind::Symlink, 0o777)],
            "deployment state is invalid: \
             included release path \"/r/1/config\" is not a regular file or directory",
        ),
        (
            vec![directory(), program(), program(), failed()],
            "filesystem operation read metadata failed for /r/1/config: denied",
        ),
    ];
    for (facts, message) in cases {
        assert_eq!(check(facts).unwrap_err().message(), message);
    }
    let site = DeploymentTarget::Static { entry_file: text("index.html") };
    let facts = vec![directory(), found(FileKind::File, 0o644)];
    assert!(validate_release(&site, "/r/1", &facts).is_ok());
}
