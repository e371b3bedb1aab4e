//! Releases on disk: how they are filled, validated, switched to and removed.
use vstd::prelude::*;

#[allow(unused_imports)]
use crate::config::RustBinary;
use crate::config::DeploymentTarget;
use crate::error::{file_error, invalid_state, AppError};
#[allow(unused_imports)]
use crate::error::{outcome, AppErrorView};
use crate::path::{
    components, debug_path, file_name, is_absolute, is_safe_link_target, join, parent,
    relative_to, Component,
};
#[allow(unused_imports)]
use crate::path::{
    absolute, joined_path, name_of, parent_drops_last_part, parent_of, parts, path_debug, relative,
    safe_link_target, same_parts, Part,
};
use crate::text::{cat2, cat3, cat4, cat5, text_eq};

pub mod laws;

verus! {

/// What a path leads to.
#[derive(Debug, Clone, Copy, PartialEq, Eq, Structural)]
pub enum FileKind {
    /// A regular file.
    File,
    /// A directory.
    Directory,
    /// A symbolic link that was not followed.
    Symlink,
    /// Something else.
    Other,
}

/// What is known of a path.
#[derive(Debug)]
pub enum Metadata {
    /// It leads to something with permission bits.
    Found { kind: FileKind, mode: u32 },
    /// It leads nowhere.
    Missing { source: String },
    /// Looking at it failed.
    Failed { source: String },
}

/// Whether one of the three permission bits for execution is set.
pub open spec fn executable(mode: u32) -> bool {
    mode & 0o111 != 0
}

fn is_executable(mode: u32) -> (found: bool)
    ensures
        found == executable(mode),
{
    mode & 0o111 != 0
}

/// An operation on files.
#[derive(Debug)]
pub enum FileOp<T> {
    /// Create a directory and those above it.
    CreateDirectories(T),
    /// Create a directory.
    CreateDirectory(T),
    /// Remove a directory with all that it holds.
    RemoveTree(T),
    /// Remove a symbolic link, if there is one.
    ClearLink(T),
    /// Copy a file.
    Copy { from: T, to: T },
    /// Set permission bits.
    SetMode { path: T, mode: u32 },
    /// Give a file the permission bits of another.
    CopyMode { from: T, to: T },
    /// Create a symbolic link.
    Symlink { target: T, link: T },
    /// Rename a directory.
    Rename { from: T, to: T },
    /// Put a symbolic link in the place of another.
    RenameLink { from: T, to: T },
    /// Open a directory and flush it.
    SyncDirectory(T),
}

impl View for FileOp<String> {
    type V = FileOp<Seq<char>>;

    open spec fn view(&self) -> FileOp<Seq<char>> {
        match self {
            FileOp::CreateDirectories(path) => FileOp::CreateDirectories(path@),
            FileOp::CreateDirectory(path) => FileOp::CreateDirectory(path@),
            FileOp::RemoveTree(path) => FileOp::RemoveTree(path@),
            FileOp::ClearLink(path) => FileOp::ClearLink(path@),
            FileOp::Copy { from, to } => FileOp::Copy { from: from@, to: to@ },
            FileOp::SetMode { path, mode } => FileOp::SetMode { path: path@, mode: *mode },
            FileOp::CopyMode { from, to } => FileOp::CopyMode { from: from@, to: to@ },
            FileOp::Symlink { target, link } => FileOp::Symlink { target: target@, link: link@ },
            FileOp::Rename { from, to } => FileOp::Rename { from: from@, to: to@ },
            FileOp::RenameLink { from, to } => FileOp::RenameLink { from: from@, to: to@ },
            FileOp::SyncDirectory(path) => FileOp::SyncDirectory(path@),
        }
    }
}

impl DeepView for FileOp<String> {
    type V = FileOp<Seq<char>>;

    open spec fn deep_view(&self) -> FileOp<Seq<char>> {
        self@
    }
}

/// The error of an operation that failed. Two operations have two parts, of which the second may
/// have failed: reading and setting permission bits, and opening and flushing a directory.
pub open spec fn op_failure(op: FileOp<Seq<char>>, second: bool, source: Seq<char>) -> AppErrorView {
    let (operation, path) = match op {
        FileOp::CreateDirectories(path) => ("create directory"@, path),
        FileOp::CreateDirectory(path) => ("create directory"@, path),
        FileOp::RemoveTree(path) => ("remove directory"@, path),
        FileOp::ClearLink(path) => ("remove stale symlink"@, path),
        FileOp::Copy { from, .. } => ("copy"@, from),
        FileOp::SetMode { path, .. } => ("set permissions"@, path),
        FileOp::CopyMode { from, to } => if second {
            ("set permissions"@, to)
        } else {
            ("read metadata"@, from)
        },
        FileOp::Symlink { link, .. } => ("create symlink"@, link),
        FileOp::Rename { from, .. } => ("rename"@, from),
        FileOp::RenameLink { from, .. } => ("rename symlink"@, from),
        FileOp::SyncDirectory(path) => if second {
            ("sync directory"@, path)
        } else {
            ("open directory"@, path)
        },
    };
    AppErrorView::FileSystem { operation, path, source }
}

/// The error of an operation that failed.
pub fn op_error(op: &FileOp<String>, second: bool, source: String) -> (error: AppError)
    ensures
        error@ == op_failure(op@, second, source@),
{
    match op {
        FileOp::CreateDirectories(path) => file_error("create directory", path.clone(), source),
        FileOp::CreateDirectory(path) => file_error("create directory", path.clone(), source),
        FileOp::RemoveTree(path) => file_error("remove directory", path.clone(), source),
        FileOp::ClearLink(path) => file_error("remove stale symlink", path.clone(), source),
        FileOp::Copy { from, .. } => file_error("copy", from.clone(), source),
        FileOp::SetMode { path, .. } => file_error("set permissions", path.clone(), source),
        FileOp::CopyMode { from, to } => if second {
            file_error("set permissions", to.clone(), source)
        } else {
            file_error("read metadata", from.clone(), source)
        },
        FileOp::Symlink { link, .. } => file_error("create symlink", link.clone(), source),
        FileOp::Rename { from, .. } => file_error("rename", from.clone(), source),
        FileOp::RenameLink { from, .. } => file_error("rename symlink", from.clone(), source),
        FileOp::SyncDirectory(path) => if second {
            file_error("sync directory", path.clone(), source)
        } else {
            file_error("open directory", path.clone(), source)
        },
    }
}

/// The path that an operation creates or changes.
pub open spec fn touched(op: FileOp<Seq<char>>) -> Seq<char> {
    match op {
        FileOp::CreateDirectories(path) => path,
        FileOp::CreateDirectory(path) => path,
        FileOp::RemoveTree(path) => path,
        FileOp::ClearLink(path) => path,
        FileOp::Copy { to, .. } => to,
        FileOp::SetMode { path, .. } => path,
        FileOp::CopyMode { to, .. } => to,
        FileOp::Symlink { link, .. } => link,
        FileOp::Rename { to, .. } => to,
        FileOp::RenameLink { to, .. } => to,
        FileOp::SyncDirectory(path) => path,
    }
}

/// What removes a directory, given what is known of its path: nothing where it does not exist,
/// and an error where it is no directory.
pub open spec fn removal(path: Seq<char>, metadata: Metadata) -> Result<
    Seq<FileOp<Seq<char>>>,
    AppErrorView,
> {
    match metadata {
        Metadata::Found { kind, .. } => if kind is Directory {
            Ok(seq![FileOp::RemoveTree(path)])
        } else {
            Err(AppErrorView::InvalidState { reason: "expected directory at "@ + path_debug(path) })
        },
        Metadata::Missing { .. } => Ok(Seq::empty()),
        Metadata::Failed { source } => Err(
            AppErrorView::FileSystem { operation: "read metadata"@, path, source: source@ },
        ),
    }
}

/// What removes a directory, given what is known of its path without following links.
pub fn remove_directory_if_exists(path: &str, metadata: Metadata) -> (result: Result<
    Vec<FileOp<String>>,
    AppError,
>)
    ensures
        outcome(result) == removal(path@, metadata),
{
    let mut ops: Vec<FileOp<String>> = Vec::new();
    match metadata {
        Metadata::Found { kind: FileKind::Directory, .. } => {
            ops.push(FileOp::RemoveTree(path.to_owned()));
            assert(ops.deep_view() =~= seq![FileOp::RemoveTree(path@)]);
            Ok(ops)
        },
        Metadata::Found { .. } => Err(
            invalid_state(cat2("expected directory at ", debug_path(path).as_str())),
        ),
        Metadata::Missing { .. } => {
            assert(ops.deep_view() =~= Seq::<FileOp<Seq<char>>>::empty());
            Ok(ops)
        },
        Metadata::Failed { source } => Err(file_error("read metadata", path.to_owned(), source)),
    }
}

/// What is known of the current link.
#[derive(Debug)]
pub enum LinkFacts {
    /// It does not exist.
    Missing,
    /// Looking at it failed.
    Failed { source: String },
    /// There is something else in its place.
    NotLink,
    /// Reading it failed.
    Unreadable { source: String },
    /// It points to a target.
    Target(String),
}

/// Where the current link points: nowhere where it does not exist, else to an absolute path.
pub open spec fn current_target(path: Seq<char>, facts: LinkFacts) -> Result<
    Option<Seq<char>>,
    AppErrorView,
> {
    match facts {
        LinkFacts::Missing => Ok(None),
        LinkFacts::Failed { source } => Err(
            AppErrorView::FileSystem { operation: "read symlink metadata"@, path, source: source@ },
        ),
        LinkFacts::NotLink => Err(
            AppErrorView::InvalidState {
                reason: "current path "@ + path_debug(path) + " must be a symlink"@,
            },
        ),
        LinkFacts::Unreadable { source } => Err(
            AppErrorView::FileSystem { operation: "read symlink"@, path, source: source@ },
        ),
        LinkFacts::Target(target) => if absolute(target@) {
            Ok(Some(target@))
        } else {
            Err(
                AppErrorView::InvalidState {
                    reason: "current symlink "@ + path_debug(path) + " has non-absolute target "@
                        + path_debug(target@),
                },
            )
        },
    }
}

/// Where the current link points, given what is known of it.
pub fn read_current_target(current_path: &str, facts: LinkFacts) -> (result: Result<
    Option<String>,
    AppError,
>)
    ensures
        outcome(result) == current_target(current_path@, facts),
{
    match facts {
        LinkFacts::Missing => Ok(None),
        LinkFacts::Failed { source } => Err(
            file_error("read symlink metadata", current_path.to_owned(), source),
        ),
        LinkFacts::NotLink => Err(
            invalid_state(
                cat3("current path ", debug_path(current_path).as_str(), " must be a symlink"),
            ),
        ),
        LinkFacts::Unreadable { source } => Err(
            file_error("read symlink", current_path.to_owned(), source),
        ),
        LinkFacts::Target(target) => if is_absolute(target.as_str()) {
            Ok(Some(target))
        } else {
            Err(
                invalid_state(
                    cat4(
                        "current symlink ",
                        debug_path(current_path).as_str(),
                        " has non-absolute target ",
                        debug_path(target.as_str()).as_str(),
                    ),
                ),
            )
        },
    }
}

/// What points the current link to a release at once: a new link is made beside it under a name
/// of the deployment and renamed over it.
pub open spec fn switching(
    current: Seq<char>,
    release: Seq<char>,
    deployment_id: Seq<char>,
) -> Result<Seq<FileOp<Seq<char>>>, AppErrorView> {
    if !absolute(release) {
        Err(
            AppErrorView::InvalidState {
                reason: "release path "@ + path_debug(release) + " must be absolute"@,
            },
        )
    } else {
        match parent_of(current) {
            None => Err(
                AppErrorView::InvalidState {
                    reason: "current path "@ + path_debug(current) + " has no parent"@,
                },
            ),
            Some(parent) => {
                let temporary = joined_path(parent, ".current."@ + deployment_id + ".tmp"@);
                Ok(
                    seq![
                        FileOp::CreateDirectories(parent),
                        FileOp::ClearLink(temporary),
                        FileOp::Symlink { target: release, link: temporary },
                        FileOp::RenameLink { from: temporary, to: current },
                        FileOp::SyncDirectory(parent),
                    ],
                )
            },
        }
    }
}

/// What points the current link to a release at once.
pub fn switch_current(current_path: &str, release_path: &str, deployment_id: &str) -> (result: Result<
    Vec<FileOp<String>>,
    AppError,
>)
    ensures
        outcome(result) == switching(current_path@, release_path@, deployment_id@),
{
    if !is_absolute(release_path) {
        return Err(
            invalid_state(
                cat3("release path ", debug_path(release_path).as_str(), " must be absolute"),
            ),
        );
    }
    match parent(current_path) {
        None => Err(
            invalid_state(
                cat3("current path ", debug_path(current_path).as_str(), " has no parent"),
            ),
        ),
        Some(parent) => {
            let temporary = join(
                parent.as_str(),
                cat3(".current.", deployment_id, ".tmp").as_str(),
            );
            let mut ops: Vec<FileOp<String>> = Vec::new();
            ops.push(FileOp::CreateDirectories(parent.clone()));
            ops.push(FileOp::ClearLink(temporary.clone()));
            ops.push(FileOp::Symlink { target: release_path.to_owned(), link: temporary.clone() });
            ops.push(FileOp::RenameLink { from: temporary, to: current_path.to_owned() });
            ops.push(FileOp::SyncDirectory(parent));
            assert(ops.deep_view() =~= switching(
                current_path@,
                release_path@,
                deployment_id@,
            )->Ok_0);
            Ok(ops)
        },
    }
}

/// The current link is switched by one rename over it: each other operation touches only the
/// directory that it stands in, which is another path, or the deployment's own link in that
/// directory, and this link leads to the release before it is put in the place of the current one.
pub proof fn switching_is_one_rename(
    current: Seq<char>,
    release: Seq<char>,
    deployment_id: Seq<char>,
    ops: Seq<FileOp<Seq<char>>>,
)
    requires
        switching(current, release, deployment_id) == Ok::<Seq<FileOp<Seq<char>>>, AppErrorView>(
            ops,
        ),
    ensures
        parent_of(current) matches Some(parent) && ({
            let temporary = joined_path(parent, ".current."@ + deployment_id + ".tmp"@);
            &&& !same_parts(parent, current)
            &&& ops.len() == 5
            &&& ops[2] == (FileOp::Symlink { target: release, link: temporary })
            &&& ops[3] == (FileOp::RenameLink { from: temporary, to: current })
            &&& forall|i: int|
                0 <= i < ops.len() && i != 3 ==> touched(#[trigger] ops[i]) == parent || touched(
                    ops[i],
                ) == temporary
        }),
{
    parent_drops_last_part(current);
}

/// What copies a file to a place that may need directories above it.
pub open spec fn file_copy(from: Seq<char>, to: Seq<char>, mode: u32) -> Seq<FileOp<Seq<char>>> {
    (match parent_of(to) {
        Some(parent) => seq![FileOp::CreateDirectories(parent)],
        None => Seq::empty(),
    }) + seq![FileOp::Copy { from, to }, FileOp::SetMode { path: to, mode }]
}

fn copy_file(from: String, to: String, mode: u32) -> (ops: Vec<FileOp<String>>)
    ensures
        ops.deep_view() == file_copy(from@, to@, mode),
{
    let mut ops: Vec<FileOp<String>> = Vec::new();
    match parent(to.as_str()) {
        Some(parent) => {
            ops.push(FileOp::CreateDirectories(parent));
        },
        None => {},
    }
    let target = to.clone();
    ops.push(FileOp::Copy { from, to });
    ops.push(FileOp::SetMode { path: target, mode });
    assert(ops.deep_view() =~= file_copy(from@, to@, mode));
    ops
}

/// What copies a program that the tag holds, given what is known of it.
pub open spec fn prebuilt_copy(
    source_root: Seq<char>,
    destination_root: Seq<char>,
    binary_path: Seq<char>,
    metadata: Metadata,
) -> Result<Seq<FileOp<Seq<char>>>, AppErrorView> {
    let source_path = joined_path(source_root, binary_path);
    match metadata {
        Metadata::Missing { source } | Metadata::Failed { source } => Err(
            AppErrorView::FileSystem {
                operation: "read metadata"@,
                path: source_path,
                source: source@,
            },
        ),
        Metadata::Found { kind, mode } => if !(kind is File) {
            Err(
                AppErrorView::InvalidState {
                    reason: "binary source "@ + path_debug(source_path)
                        + " is not a regular file"@,
                },
            )
        } else if !executable(mode) {
            Err(
                AppErrorView::InvalidState {
                    reason: "binary source "@ + path_debug(source_path) + " is not executable"@,
                },
            )
        } else {
            Ok(file_copy(source_path, joined_path(destination_root, binary_path), mode))
        },
    }
}

/// What copies a program that the tag holds, given what is known of it without following links.
pub fn copy_prebuilt_binary(
    source_root: &str,
    destination_root: &str,
    binary_path: &str,
    metadata: Metadata,
) -> (result: Result<Vec<FileOp<String>>, AppError>)
    ensures
        outcome(result) == prebuilt_copy(source_root@, destination_root@, binary_path@, metadata),
{
    let source_path = join(source_root, binary_path);
    match metadata {
        Metadata::Missing { source } => Err(file_error("read metadata", source_path, source)),
        Metadata::Failed { source } => Err(file_error("read metadata", source_path, source)),
        Metadata::Found { kind, mode } => if kind != FileKind::File {
            Err(
                invalid_state(
                    cat3(
                        "binary source ",
                        debug_path(source_path.as_str()).as_str(),
                        " is not a regular file",
                    ),
                ),
            )
        } else if !is_executable(mode) {
            Err(
                invalid_state(
                    cat3(
                        "binary source ",
                        debug_path(source_path.as_str()).as_str(),
                        " is not executable",
                    ),
                ),
            )
        } else {
            Ok(copy_file(source_path, join(destination_root, binary_path), mode))
        },
    }
}

/// What copies a program that Cargo has built, given what is known of it.
pub open spec fn built_copy(
    target_directory: Seq<char>,
    destination_root: Seq<char>,
    binary: Seq<char>,
    metadata: Metadata,
) -> Result<Seq<FileOp<Seq<char>>>, AppErrorView> {
    let from = joined_path(joined_path(target_directory, "release"@), binary);
    let to = joined_path(destination_root, binary);
    match metadata {
        Metadata::Missing { source } | Metadata::Failed { source } => Err(
            AppErrorView::FileSystem { operation: "read metadata"@, path: from, source: source@ },
        ),
        Metadata::Found { kind, mode } => if !(kind is File) || !executable(mode) {
            Err(
                AppErrorView::InvalidState {
                    reason: "Cargo build succeeded but expected executable binary "@ + path_debug(
                        from,
                    ) + " does not exist"@,
                },
            )
        } else {
            Ok(seq![FileOp::Copy { from, to }, FileOp::SetMode { path: to, mode }])
        },
    }
}

/// What copies a program that Cargo has built, given what is known of it.
pub fn copy_rust_binary(
    target_directory: &str,
    destination_root: &str,
    binary: &str,
    metadata: Metadata,
) -> (result: Result<Vec<FileOp<String>>, AppError>)
    ensures
        outcome(result) == built_copy(target_directory@, destination_root@, binary@, metadata),
{
    let from = join(join(target_directory, "release").as_str(), binary);
    match metadata {
        Metadata::Missing { source } => Err(file_error("read metadata", from, source)),
        Metadata::Failed { source } => Err(file_error("read metadata", from, source)),
        Metadata::Found { kind, mode } => if kind != FileKind::File || !is_executable(mode) {
            Err(
                invalid_state(
                    cat3(
                        "Cargo build succeeded but expected executable binary ",
                        debug_path(from.as_str()).as_str(),
                        " does not exist",
                    ),
                ),
            )
        } else {
            let to = join(destination_root, binary);
            let mut ops: Vec<FileOp<String>> = Vec::new();
            ops.push(FileOp::Copy { from, to: to.clone() });
            ops.push(FileOp::SetMode { path: to, mode });
            assert(ops.deep_view() =~= built_copy(
                target_directory@,
                destination_root@,
                binary@,
                metadata,
            )->Ok_0);
            Ok(ops)
        },
    }
}

/// What copies a path into a release: operations, and after them the copy of a tree.
#[derive(Debug)]
pub struct CopyPlan {
    pub ops: Vec<FileOp<String>>,
    pub tree: Option<(String, String)>,
}

/// What copies a path into a release, with the characters of its texts.
pub struct CopyPlanView {
    pub ops: Seq<FileOp<Seq<char>>>,
    pub tree: Option<(Seq<char>, Seq<char>)>,
}

impl DeepView for CopyPlan {
    type V = CopyPlanView;

    open spec fn deep_view(&self) -> CopyPlanView {
        CopyPlanView { ops: self.ops.deep_view(), tree: self.tree.deep_view() }
    }
}

/// What copies a path that the release is to hold, given what is known of it: a file as it is, a
/// directory with all that it holds, and nothing else.
pub open spec fn included_copy(
    source_root: Seq<char>,
    destination_root: Seq<char>,
    relative_path: Seq<char>,
    metadata: Metadata,
) -> Result<CopyPlanView, AppErrorView> {
    let from = joined_path(source_root, relative_path);
    let to = joined_path(destination_root, relative_path);
    match metadata {
        Metadata::Missing { source } | Metadata::Failed { source } => Err(
            AppErrorView::FileSystem { operation: "read metadata"@, path: from, source: source@ },
        ),
        Metadata::Found { kind, mode } => match kind {
            FileKind::File => Ok(CopyPlanView { ops: file_copy(from, to, mode), tree: None }),
            FileKind::Directory => Ok(
                CopyPlanView { ops: seq![FileOp::CreateDirectories(to)], tree: Some((from, to)) },
            ),
            _ => Err(
                AppErrorView::InvalidState {
                    reason: "included release path "@ + path_debug(from)
                        + " must be a regular file or directory"@,
                },
            ),
        },
    }
}

/// What copies a path that the release is to hold, given what is known of it without following
/// links.
pub fn copy_release_path(
    source_root: &str,
    destination_root: &str,
    relative_path: &str,
    metadata: Metadata,
) -> (result: Result<CopyPlan, AppError>)
    ensures
        outcome(result) == included_copy(
            source_root@,
            destination_root@,
            relative_path@,
            metadata,
        ),
{
    let from = join(source_root, relative_path);
    let to = join(destination_root, relative_path);
    match metadata {
        Metadata::Missing { source } => Err(file_error("read metadata", from, source)),
        Metadata::Failed { source } => Err(file_error("read metadata", from, source)),
        Metadata::Found { kind, mode } => match kind {
            FileKind::File => Ok(CopyPlan { ops: copy_file(from, to, mode), tree: None }),
            FileKind::Directory => {
                let mut ops: Vec<FileOp<String>> = Vec::new();
                ops.push(FileOp::CreateDirectories(to.clone()));
                assert(ops.deep_view() =~= seq![FileOp::CreateDirectories(to@)]);
                Ok(CopyPlan { ops, tree: Some((from, to)) })
            },
            _ => Err(
                invalid_state(
                    cat3(
                        "included release path ",
                        debug_path(from.as_str()).as_str(),
                        " must be a regular file or directory",
                    ),
                ),
            ),
        },
    }
}

/// Whether something with a name is copied with a tree: all but Git's own data. A walk need not
/// enter what is not.
pub fn keeps_entry(name: &str) -> (kept: bool)
    ensures
        kept == (name@ != ".git"@),
{
    !text_eq(name, ".git")
}

/// Whether an entry of a tree belongs to Git's own data: the tree itself has the name of it, or a
/// component of the place of the entry below the tree has.
pub open spec fn git_data(source: Seq<char>, below: Seq<char>) -> bool {
    ||| name_of(source) == Some(".git"@)
    ||| exists|i: int|
        0 <= i < parts(below).len() && #[trigger] parts(below)[i] == Part::Normal(".git"@)
}

fn is_git_data(source: &str, below: &str) -> (found: bool)
    ensures
        found == git_data(source@, below@),
{
    match file_name(source) {
        Some(name) => {
            if !keeps_entry(name.as_str()) {
                return true;
            }
        },
        None => {},
    }
    let list = components(below);
    let mut i: usize = 0;
    while i < list.len()
        invariant
            i <= list.len(),
            list.deep_view() == parts(below@),
            name_of(source@) != Some(".git"@),
            forall|j: int|
                0 <= j < i ==> #[trigger] parts(below@)[j] != Part::Normal(".git"@),
        decreases list.len() - i,
    {
        assert(parts(below@)[i as int] == list[i as int]@);
        match &list[i] {
            Component::Normal(name) => {
                if !keeps_entry(name.as_str()) {
                    return true;
                }
            },
            _ => {},
        }
        i += 1;
    }
    false
}

/// What an entry of a tree is.
#[derive(Debug)]
pub enum TreeEntry {
    /// A directory.
    Directory,
    /// A regular file.
    File,
    /// A symbolic link with its target.
    Link(String),
    /// A symbolic link that could not be read.
    UnreadableLink { source: String },
    /// Something else.
    Other,
}

/// What copies an entry of a tree. Links are copied as links, and only where they cannot lead
/// upwards or to an absolute path. The root of the tree is not copied itself, and neither is
/// Git's own data, at whatever depth.
pub open spec fn entry_copy(
    source: Seq<char>,
    destination: Seq<char>,
    path: Seq<char>,
    entry: TreeEntry,
) -> Result<Seq<FileOp<Seq<char>>>, AppErrorView> {
    match relative(path, source) {
        None => Err(
            AppErrorView::InvalidState {
                reason: "could not make "@ + path_debug(path) + " relative to "@ + path_debug(
                    source,
                ) + ": prefix not found"@,
            },
        ),
        Some(below) => if below.len() == 0 || git_data(source, below) {
            Ok(Seq::empty())
        } else {
            let target = joined_path(destination, below);
            match entry {
                TreeEntry::Directory => Ok(seq![FileOp::CreateDirectory(target)]),
                TreeEntry::File => Ok(
                    seq![
                        FileOp::Copy { from: path, to: target },
                        FileOp::CopyMode { from: path, to: target },
                    ],
                ),
                TreeEntry::UnreadableLink { source } => Err(
                    AppErrorView::FileSystem { operation: "read symlink"@, path, source: source@ },
                ),
                TreeEntry::Link(to) => if safe_link_target(to@) {
                    Ok(seq![FileOp::Symlink { target: to@, link: target }])
                } else {
                    Err(
                        AppErrorView::InvalidState {
                            reason: "static release symlink "@ + path_debug(path)
                                + " has unsafe target "@ + path_debug(to@),
                        },
                    )
                },
                TreeEntry::Other => Err(
                    AppErrorView::InvalidState {
                        reason: "unsupported file type in static release: "@ + path_debug(path),
                    },
                ),
            }
        },
    }
}

/// What copies an entry of a tree.
pub fn copy_static_tree(source: &str, destination: &str, path: &str, entry: TreeEntry) -> (result:
    Result<Vec<FileOp<String>>, AppError>)
    ensures
        outcome(result) == entry_copy(source@, destination@, path@, entry),
{
    let below = match relative_to(path, source) {
        Some(below) => below,
        None => {
            return Err(
                invalid_state(
                    cat5(
                        "could not make ",
                        debug_path(path).as_str(),
                        " relative to ",
                        debug_path(source).as_str(),
                        ": prefix not found",
                    ),
                ),
            );
        },
    };
    let mut ops: Vec<FileOp<String>> = Vec::new();
    assert(ops.deep_view() =~= Seq::<FileOp<Seq<char>>>::empty());
    if below.as_str().is_empty() || is_git_data(source, below.as_str()) {
        return Ok(ops);
    }
    let target = join(destination, below.as_str());
    let ghost to = target@;
    match entry {
        TreeEntry::Directory => {
            ops.push(FileOp::CreateDirectory(target));
            assert(ops.deep_view() =~= seq![FileOp::CreateDirectory(to)]);
            Ok(ops)
        },
        TreeEntry::File => {
            ops.push(FileOp::Copy { from: path.to_owned(), to: target.clone() });
            ops.push(FileOp::CopyMode { from: path.to_owned(), to: target });
            assert(ops.deep_view() =~= seq![
                FileOp::Copy { from: path@, to },
                FileOp::CopyMode { from: path@, to },
            ]);
            Ok(ops)
        },
        TreeEntry::UnreadableLink { source } => Err(
            file_error("read symlink", path.to_owned(), source),
        ),
        TreeEntry::Link(link) => if is_safe_link_target(link.as_str()) {
            let ghost leads = link@;
            ops.push(FileOp::Symlink { target: link, link: target });
            assert(ops.deep_view() =~= seq![FileOp::Symlink { target: leads, link: to }]);
            Ok(ops)
        } else {
            Err(
                invalid_state(
                    cat4(
                        "static release symlink ",
                        debug_path(path).as_str(),
                        " has unsafe target ",
                        debug_path(link.as_str()).as_str(),
                    ),
                ),
            )
        },
        TreeEntry::Other => Err(
            invalid_state(
                cat2("unsupported file type in static release: ", debug_path(path).as_str()),
            ),
        ),
    }
}

/// The error of a tree that could not be walked.
pub fn walk_error(source: &str, reason: &str) -> (error: AppError)
    ensures
        error@ == (AppErrorView::InvalidState {
            reason: "walking static source "@ + path_debug(source@) + " failed: "@ + reason@,
        }),
{
    invalid_state(
        cat4("walking static source ", debug_path(source).as_str(), " failed: ", reason),
    )
}

/// What a path of a release must lead to.
#[derive(Debug, Clone, Copy, PartialEq, Eq, Structural)]
pub enum Expected {
    /// A directory, links followed.
    Directory,
    /// A regular file, links followed.
    File,
    /// An executable file, links followed.
    Program,
    /// A regular file or a directory, and no link.
    Included,
}

impl DeepView for Expected {
    type V = Expected;

    open spec fn deep_view(&self) -> Expected {
        *self
    }
}

/// The paths that the programs of a release must lead to.
pub open spec fn program_paths(release: Seq<char>, binaries: Seq<RustBinary>) -> Seq<
    (Seq<char>, Expected),
> {
    Seq::new(
        binaries.len(),
        |i: int| (joined_path(release, binaries[i].binary@), Expected::Program),
    )
}

/// The paths that a release must hold.
pub open spec fn included_paths(release: Seq<char>, paths: Seq<String>) -> Seq<
    (Seq<char>, Expected),
> {
    Seq::new(paths.len(), |i: int| (joined_path(release, paths[i]@), Expected::Included))
}

/// The paths that make a directory a release, with what they must lead to, in the order in which
/// they are looked at.
pub open spec fn release_paths(target: DeploymentTarget, release: Seq<char>) -> Seq<
    (Seq<char>, Expected),
> {
    seq![(release, Expected::Directory)] + match target {
        DeploymentTarget::Static { entry_file } => seq![
            (joined_path(release, entry_file@), Expected::File),
        ],
        DeploymentTarget::Binary { binary_path } => seq![
            (joined_path(release, binary_path@), Expected::Program),
        ],
        DeploymentTarget::Rust { binaries, include_paths, .. } => program_paths(release, binaries@)
            + included_paths(release, include_paths@),
    }
}

/// The paths that make a directory a release, with what they must lead to.
pub fn release_checks(target: &DeploymentTarget, release: &str) -> (checks: Vec<(String, Expected)>)
    ensures
        checks.deep_view() == release_paths(*target, release@),
{
    let mut checks: Vec<(String, Expected)> = Vec::new();
    checks.push((release.to_owned(), Expected::Directory));
    match target {
        DeploymentTarget::Static { entry_file } => {
            checks.push((join(release, entry_file.as_str()), Expected::File));
            assert(checks.deep_view() =~= release_paths(*target, release@));
        },
        DeploymentTarget::Binary { binary_path } => {
            checks.push((join(release, binary_path.as_str()), Expected::Program));
            assert(checks.deep_view() =~= release_paths(*target, release@));
        },
        DeploymentTarget::Rust { binaries, include_paths, .. } => {
            let ghost wanted = release_paths(*target, release@);
            let mut i: usize = 0;
            while i < binaries.len()
                invariant
                    i <= binaries.len(),
                    wanted.len() == 1 + binaries.len() + include_paths.len(),
                    forall|j: int|
                        0 <= j < binaries.len() ==> #[trigger] wanted[j + 1] == (
                            joined_path(release@, binaries[j].binary@),
                            Expected::Program,
                        ),
                    checks.deep_view() == wanted.take(i + 1),
                decreases binaries.len() - i,
            {
                let ghost before = checks.deep_view();
                checks.push((join(release, binaries[i].binary.as_str()), Expected::Program));
                assert(wanted[i + 1] == (
                    joined_path(release@, binaries[i as int].binary@),
                    Expected::Program,
                ));
                assert(checks.deep_view() =~= before.push(wanted[i + 1]));
                assert(checks.deep_view() =~= wanted.take(i + 2));
                i += 1;
            }
            let mut k: usize = 0;
            while k < include_paths.len()
                invariant
                    k <= include_paths.len(),
                    wanted.len() == 1 + binaries.len() + include_paths.len(),
                    forall|j: int|
                        0 <= j < include_paths.len() ==> #[trigger] wanted[j + 1 + binaries.len()]
                            == (joined_path(release@, include_paths[j]@), Expected::Included),
                    checks.deep_view() == wanted.take(k + 1 + binaries.len()),
                decreases include_paths.len() - k,
            {
                let ghost before = checks.deep_view();
                checks.push((join(release, include_paths[k].as_str()), Expected::Included));
                assert(wanted[k + 1 + binaries.len()] == (
                    joined_path(release@, include_paths[k as int]@),
                    Expected::Included,
                ));
                assert(checks.deep_view() =~= before.push(wanted[k + 1 + binaries.len()]));
                assert(checks.deep_view() =~= wanted.take(k + 2 + binaries.len()));
                k += 1;
            }
            assert(wanted.take(k + 1 + binaries.len()) =~= wanted);
        },
    }
    checks
}

/// What is wrong with a path of a release.
pub open spec fn flaw(path: Seq<char>, expected: Expected, metadata: Metadata) -> Option<
    AppErrorView,
> {
    match expected {
        Expected::Directory => if metadata matches Metadata::Found { kind, .. } && kind is Directory {
            None
        } else {
            Some(
                AppErrorView::InvalidState {
                    reason: "release path "@ + path_debug(path) + " is not a directory"@,
                },
            )
        },
        _ => match metadata {
            Metadata::Missing { source } | Metadata::Failed { source } => Some(
                AppErrorView::FileSystem { operation: "read metadata"@, path, source: source@ },
            ),
            Metadata::Found { kind, mode } => if expected is Included {
                if kind is File || kind is Directory {
                    None
                } else {
                    Some(
                        AppErrorView::InvalidState {
                            reason: "included release path "@ + path_debug(path)
                                + " is not a regular file or directory"@,
                        },
                    )
                }
            } else if !(kind is File) {
                Some(
                    AppErrorView::InvalidState {
                        reason: "release entry "@ + path_debug(path) + " is not a regular file"@,
                    },
                )
            } else if expected is Program && !executable(mode) {
                Some(
                    AppErrorView::InvalidState {
                        reason: "release entry "@ + path_debug(path) + " is not executable"@,
                    },
                )
            } else {
                None
            },
        },
    }
}

fn find_flaw(path: &str, expected: Expected, metadata: &Metadata) -> (found: Option<AppError>)
    ensures
        found.deep_view() == flaw(path@, expected, *metadata),
{
    match (expected, metadata) {
        (Expected::Directory, Metadata::Found { kind: FileKind::Directory, .. }) => None,
        (Expected::Directory, _) => Some(
            invalid_state(cat3("release path ", debug_path(path).as_str(), " is not a directory")),
        ),
        (_, Metadata::Missing { source }) => Some(
            file_error("read metadata", path.to_owned(), source.clone()),
        ),
        (_, Metadata::Failed { source }) => Some(
            file_error("read metadata", path.to_owned(), source.clone()),
        ),
        (Expected::Included, Metadata::Found { kind, .. }) => if *kind == FileKind::File || *kind
            == FileKind::Directory {
            None
        } else {
            Some(
                invalid_state(
                    cat3(
                        "included release path ",
                        debug_path(path).as_str(),
                        " is not a regular file or directory",
                    ),
                ),
            )
        },
        (_, Metadata::Found { kind, mode }) => if *kind != FileKind::File {
            Some(
                invalid_state(
                    cat3("release entry ", debug_path(path).as_str(), " is not a regular file"),
                ),
            )
        } else if expected == Expected::Program && !is_executable(*mode) {
            Some(
                invalid_state(
                    cat3("release entry ", debug_path(path).as_str(), " is not executable"),
                ),
            )
        } else {
            None
        },
    }
}

/// Whether paths lead to what they must lead to; the first that does not is reported.
pub open spec fn validated(paths: Seq<(Seq<char>, Expected)>, facts: Seq<Metadata>) -> Result<
    (),
    AppErrorView,
>
    decreases paths.len(),
{
    if paths.len() == 0 {
        Ok(())
    } else {
        match validated(paths.drop_last(), facts.drop_last()) {
            Err(error) => Err(error),
            Ok(_) => match flaw(paths.last().0, paths.last().1, facts.last()) {
                Some(error) => Err(error),
                None => Ok(()),
            },
        }
    }
}

proof fn validated_stops(paths: Seq<(Seq<char>, Expected)>, facts: Seq<Metadata>, count: int)
    requires
        paths.len() == facts.len(),
        0 <= count <= paths.len(),
        validated(paths.take(count), facts.take(count)) is Err,
    ensures
        validated(paths, facts) == validated(paths.take(count), facts.take(count)),
    decreases paths.len(),
{
    if count < paths.len() {
        assert(paths.drop_last().take(count) =~= paths.take(count));
        assert(facts.drop_last().take(count) =~= facts.take(count));
        validated_stops(paths.drop_last(), facts.drop_last(), count);
    } else {
        assert(paths.take(count) =~= paths);
        assert(facts.take(count) =~= facts);
    }
}

/// Whether a directory is a release of the target, given what is known of each of its paths.
pub fn validate_release(target: &DeploymentTarget, release_path: &str, facts: &Vec<Metadata>) -> (result:
    Result<(), AppError>)
    requires
        facts.len() == release_paths(*target, release_path@).len(),
    ensures
        outcome(result) == validated(release_paths(*target, release_path@), facts@),
{
    let checks = release_checks(target, release_path);
    let ghost paths = checks.deep_view();
    let mut i: usize = 0;
    assert(paths.take(0) =~= Seq::<(Seq<char>, Expected)>::empty());
    while i < checks.len()
        invariant
            i <= checks.len(),
            checks.len() == facts.len(),
            paths == checks.deep_view(),
            paths == release_paths(*target, release_path@),
            validated(paths.take(i as int), facts@.take(i as int)) is Ok,
        decreases checks.len() - i,
    {
        assert(paths.take(i + 1).drop_last() =~= paths.take(i as int));
        assert(facts@.take(i + 1).drop_last() =~= facts@.take(i as int));
        assert(paths[i as int] == (checks[i as int].0@, checks[i as int].1));
        match find_flaw(checks[i].0.as_str(), checks[i].1, &facts[i]) {
            Some(error) => {
                proof {
                    validated_stops(paths, facts@, i + 1);
                }
                return Err(error);
            },
            None => {},
        }
        i += 1;
    }
    assert(paths.take(i as int) =~= paths);
    assert(facts@.take(i as int) =~= facts@);
    Ok(())
}

} // verus!
