//! What holds of releases on disk: what makes a directory a release, and what fills one.
use vstd::prelude::*;

#[allow(unused_imports)]
use crate::config::{DeploymentTarget, RustBinary};
#[allow(unused_imports)]
use crate::error::AppErrorView;
#[allow(unused_imports)]
use crate::path::laws::safe_links_never_lead_up;
#[allow(unused_imports)]
use crate::path::{
    a_relative_path_leads_back, absolute, joined_path, joined_path_stays_inside, parent_of, parts,
    plain_relative, relative, under, Part,
};
#[allow(unused_imports)]
use crate::release::{
    built_copy, current_target, entry_copy, executable, file_copy, flaw, git_data,
    included_copy, op_failure, prebuilt_copy, release_paths, removal, switching, touched,
    validated, Expected, FileKind, FileOp, LinkFacts, Metadata, TreeEntry,
};

verus! {

/// Whether the owner, the group or the others may execute a file with permission bits.
pub open spec fn someone_may_execute(mode: u32) -> bool {
    mode & 0o100 != 0 || mode & 0o010 != 0 || mode & 0o001 != 0
}

/// A file counts as executable exactly if the owner, the group or the others may execute it.
pub proof fn executable_is_for_someone(mode: u32)
    ensures
        executable(mode) <==> someone_may_execute(mode),
{
    assert((mode & 0o111 != 0) <==> (mode & 0o100 != 0 || mode & 0o010 != 0 || mode & 0o001 != 0))
        by (bit_vector);
}

/// Whether a path was found to lead to a directory.
pub open spec fn found_directory(metadata: Metadata) -> bool {
    metadata matches Metadata::Found { kind, .. } && kind is Directory
}

/// Whether a path was found to lead to a regular file.
pub open spec fn found_file(metadata: Metadata) -> bool {
    metadata matches Metadata::Found { kind, .. } && kind is File
}

/// Whether a path was found to lead to a regular file that someone may execute.
pub open spec fn found_program(metadata: Metadata) -> bool {
    metadata matches Metadata::Found { kind, mode } && kind is File && someone_may_execute(mode)
}

proof fn valid_without_flaws(paths: Seq<(Seq<char>, Expected)>, facts: Seq<Metadata>)
    requires
        paths.len() == facts.len(),
    ensures
        validated(paths, facts) is Ok <==> forall|i: int|
            0 <= i < paths.len() ==> flaw(paths[i].0, paths[i].1, #[trigger] facts[i]) is None,
    decreases paths.len(),
{
    if paths.len() > 0 {
        let fewer = paths.drop_last();
        let known = facts.drop_last();
        valid_without_flaws(fewer, known);
        assert forall|i: int| 0 <= i < fewer.len() implies fewer[i] == paths[i]
            && #[trigger] known[i] == facts[i] by {}
        if validated(paths, facts) is Ok {
            assert forall|i: int| 0 <= i < paths.len() implies flaw(
                paths[i].0,
                paths[i].1,
                #[trigger] facts[i],
            ) is None by {
                if i < fewer.len() {
                    assert(known[i] == facts[i]);
                }
            }
        }
        if forall|i: int|
            0 <= i < paths.len() ==> flaw(paths[i].0, paths[i].1, #[trigger] facts[i]) is None {
            assert(flaw(paths.last().0, paths.last().1, facts[paths.len() - 1]) is None);
            assert forall|i: int| 0 <= i < fewer.len() implies flaw(
                fewer[i].0,
                fewer[i].1,
                #[trigger] known[i],
            ) is None by {
                assert(known[i] == facts[i]);
            }
        }
    }
}

/// Whether what was found fits what a path must lead to.
spec fn fits(expected: Expected, metadata: Metadata) -> bool {
    match expected {
        Expected::Directory => found_directory(metadata),
        Expected::File => found_file(metadata),
        Expected::Program => found_program(metadata),
        Expected::Included => found_file(metadata) || found_directory(metadata),
    }
}

proof fn flaws_are_misfits(path: Seq<char>, expected: Expected, metadata: Metadata)
    ensures
        flaw(path, expected, metadata) is None <==> fits(expected, metadata),
{
    if let Metadata::Found { kind, mode } = metadata {
        executable_is_for_someone(mode);
    }
}

/// A directory is a release of a target exactly if it was found to be a directory and each path
/// of the target leads to what it must: the entry file to a regular file; the program, and each
/// program that is built from source, to a regular file that someone may execute; and each further
/// path to a regular file or a directory.
pub proof fn a_release_is_what_was_found(
    target: DeploymentTarget,
    release: Seq<char>,
    facts: Seq<Metadata>,
)
    requires
        facts.len() == release_paths(target, release).len(),
    ensures
        facts.len() == (match target {
            DeploymentTarget::Rust { binaries, include_paths, .. } => 1 + binaries@.len()
                + include_paths@.len(),
            _ => 2,
        }),
        validated(release_paths(target, release), facts) is Ok <==> found_directory(facts[0]) && (
        match target {
            DeploymentTarget::Static { .. } => found_file(facts[1]),
            DeploymentTarget::Binary { .. } => found_program(facts[1]),
            DeploymentTarget::Rust { binaries, include_paths, .. } => (forall|i: int|
                1 <= i <= binaries@.len() ==> found_program(#[trigger] facts[i])) && (forall|i: int|
                1 + binaries@.len() <= i < facts.len() ==> found_file(#[trigger] facts[i])
                    || found_directory(facts[i])),
        }),
{
    let paths = release_paths(target, release);
    valid_without_flaws(paths, facts);
    assert forall|i: int| 0 <= i < paths.len() implies (flaw(
        paths[i].0,
        paths[i].1,
        #[trigger] facts[i],
    ) is None <==> fits(paths[i].1, facts[i])) by {
        flaws_are_misfits(paths[i].0, paths[i].1, facts[i]);
    }
    assert(paths[0].1 == Expected::Directory);
    let fitting = forall|i: int| 0 <= i < paths.len() ==> fits(paths[i].1, #[trigger] facts[i]);
    assert(validated(paths, facts) is Ok <==> fitting);
    match target {
        DeploymentTarget::Static { .. } => {
            assert(paths[1].1 == Expected::File);
            if found_directory(facts[0]) && found_file(facts[1]) {
                assert forall|i: int| 0 <= i < paths.len() implies fits(
                    paths[i].1,
                    #[trigger] facts[i],
                ) by {
                    assert(i == 0 || i == 1);
                }
            }
        },
        DeploymentTarget::Binary { .. } => {
            assert(paths[1].1 == Expected::Program);
            if found_directory(facts[0]) && found_program(facts[1]) {
                assert forall|i: int| 0 <= i < paths.len() implies fits(
                    paths[i].1,
                    #[trigger] facts[i],
                ) by {
                    assert(i == 0 || i == 1);
                }
            }
        },
        DeploymentTarget::Rust { binaries, include_paths, .. } => {
            assert forall|i: int| 1 <= i <= binaries@.len() implies paths[i].1
                == Expected::Program && #[trigger] facts[i] == facts[i] by {}
            assert forall|i: int| 1 + binaries@.len() <= i < facts.len() implies paths[i].1
                == Expected::Included && #[trigger] facts[i] == facts[i] by {}
        },
    }
}

/// The paths that are looked at to see whether a directory is a release: the directory, and in it
/// the entry file or the program, or every program and every further path of the settings.
pub proof fn every_path_of_a_release_is_looked_at(target: DeploymentTarget, release: Seq<char>)
    ensures
        release_paths(target, release)[0].0 == release,
        match target {
            DeploymentTarget::Static { entry_file } => release_paths(target, release)[1].0
                == joined_path(release, entry_file@),
            DeploymentTarget::Binary { binary_path } => release_paths(target, release)[1].0
                == joined_path(release, binary_path@),
            DeploymentTarget::Rust { binaries, include_paths, .. } => (forall|i: int|
                0 <= i < binaries@.len() ==> release_paths(target, release)[1 + i].0 == joined_path(
                    release,
                    (#[trigger] binaries@[i]).binary@,
                )) && (forall|i: int|
                0 <= i < include_paths@.len() ==> release_paths(target, release)[1
                    + binaries@.len() + i].0 == joined_path(
                    release,
                    (#[trigger] include_paths@[i])@,
                )),
        },
{
}

proof fn validation_goes_by_order(
    paths: Seq<(Seq<char>, Expected)>,
    facts: Seq<Metadata>,
    index: int,
)
    requires
        paths.len() == facts.len(),
        0 <= index < paths.len(),
        forall|i: int|
            0 <= i < index ==> flaw(paths[i].0, paths[i].1, #[trigger] facts[i]) is None,
        flaw(paths[index].0, paths[index].1, facts[index]) is Some,
    ensures
        validated(paths, facts) == Err::<(), AppErrorView>(
            flaw(paths[index].0, paths[index].1, facts[index])->0,
        ),
    decreases paths.len(),
{
    let fewer = paths.drop_last();
    let known = facts.drop_last();
    assert forall|i: int| 0 <= i < fewer.len() implies fewer[i] == paths[i]
        && #[trigger] known[i] == facts[i] by {}
    if index < paths.len() - 1 {
        assert forall|i: int| 0 <= i < index implies flaw(
            fewer[i].0,
            fewer[i].1,
            #[trigger] known[i],
        ) is None by {
            assert(known[i] == facts[i]);
        }
        assert(known[index] == facts[index]);
        validation_goes_by_order(fewer, known, index);
    } else {
        assert forall|i: int| 0 <= i < fewer.len() implies flaw(
            fewer[i].0,
            fewer[i].1,
            #[trigger] known[i],
        ) is None by {
            assert(known[i] == facts[i]);
        }
        valid_without_flaws(fewer, known);
    }
}

/// Where a directory is no release, the answer is about the first of its paths that does not lead
/// to what it must: that looking at it failed, for the reason that was given, or that something
/// else was found.
pub proof fn the_first_flaw_is_reported(
    target: DeploymentTarget,
    release: Seq<char>,
    facts: Seq<Metadata>,
    index: int,
)
    requires
        facts.len() == release_paths(target, release).len(),
        1 <= index < facts.len(),
        validated(release_paths(target, release).take(index), facts.take(index)) is Ok,
        validated(
            release_paths(target, release).take(index + 1),
            facts.take(index + 1),
        ) is Err,
    ensures
        validated(release_paths(target, release), facts) matches Err(error) && match facts[index] {
            Metadata::Missing { source } | Metadata::Failed { source } => error == (
            AppErrorView::FileSystem {
                operation: "read metadata"@,
                path: release_paths(target, release)[index].0,
                source: source@,
            }),
            _ => error is InvalidState,
        },
{
    let paths = release_paths(target, release);
    valid_without_flaws(paths.take(index), facts.take(index));
    valid_without_flaws(paths.take(index + 1), facts.take(index + 1));
    let bad = choose|i: int|
        0 <= i < index + 1 && !(flaw(
            paths.take(index + 1)[i].0,
            paths.take(index + 1)[i].1,
            #[trigger] facts.take(index + 1)[i],
        ) is None);
    if bad < index {
        assert(facts.take(index)[bad] == facts[bad]);
    }
    assert forall|i: int| 0 <= i < index implies flaw(
        paths[i].0,
        paths[i].1,
        #[trigger] facts[i],
    ) is None by {
        assert(facts.take(index)[i] == facts[i]);
    }
    validation_goes_by_order(paths, facts, index);
    assert(!(paths[index].1 is Directory));
}

/// A directory is removed where there is one, nothing is done where there is nothing, and
/// anything else in its place is left alone and reported.
pub proof fn only_directories_are_removed(path: Seq<char>, metadata: Metadata)
    ensures
        removal(path, metadata) is Ok <==> found_directory(metadata) || metadata is Missing,
        removal(path, metadata) matches Ok(ops) ==> if found_directory(metadata) {
            ops.len() == 1 && ops[0] == FileOp::RemoveTree(path)
        } else {
            ops.len() == 0
        },
{
}

/// The current link leads nowhere exactly if it does not exist, and to a path exactly if it was
/// read and that path is absolute.
pub proof fn the_current_link_leads_where_it_was_read(path: Seq<char>, facts: LinkFacts)
    ensures
        current_target(path, facts) is Ok <==> facts is Missing || (facts matches LinkFacts::Target(
            target,
        ) && target@.len() > 0 && target@[0] == '/'),
        current_target(path, facts) matches Ok(found) ==> match (found, facts) {
            (None, LinkFacts::Missing) => true,
            (Some(found), LinkFacts::Target(target)) => found == target@,
            _ => false,
        },
{
}

/// Whether operations copy a file, as it is and with the permission bits that were found, and
/// beyond that touch at most the directory that it comes to stand in.
pub open spec fn copies_file(
    ops: Seq<FileOp<Seq<char>>>,
    from: Seq<char>,
    to: Seq<char>,
    mode: u32,
) -> bool {
    &&& ops.len() >= 2
    &&& ops[ops.len() - 2] == (FileOp::Copy { from, to })
    &&& ops[ops.len() - 1] == (FileOp::SetMode { path: to, mode })
    &&& forall|i: int|
        0 <= i < ops.len() - 2 ==> (#[trigger] ops[i] matches FileOp::CreateDirectories(directory)
            && parent_of(to) == Some(directory))
}

/// A program that the tag holds is copied exactly if it was found to be a regular file that
/// someone may execute: from its place in the tag to the same place in the release, with the
/// directory that it stands in there and with its permission bits.
pub proof fn only_programs_are_copied_from_the_tag(
    source_root: Seq<char>,
    destination_root: Seq<char>,
    binary_path: Seq<char>,
    metadata: Metadata,
)
    ensures
        prebuilt_copy(source_root, destination_root, binary_path, metadata) is Ok <==> found_program(
            metadata,
        ),
        prebuilt_copy(source_root, destination_root, binary_path, metadata) matches Ok(ops) ==> (
        metadata matches Metadata::Found { mode, .. } && copies_file(
            ops,
            joined_path(source_root, binary_path),
            joined_path(destination_root, binary_path),
            mode,
        )) && (parent_of(joined_path(destination_root, binary_path)) matches Some(directory)
            ==> ops[0] == FileOp::CreateDirectories(directory)),
{
    if let Metadata::Found { kind, mode } = metadata {
        executable_is_for_someone(mode);
    }
}

/// A program that Cargo has built is copied exactly if it was found to be a regular file that
/// someone may execute: from the release directory of the build to the root of the release, under
/// its name and with its permission bits.
pub proof fn only_programs_are_copied_from_the_build(
    target_directory: Seq<char>,
    destination_root: Seq<char>,
    binary: Seq<char>,
    metadata: Metadata,
)
    ensures
        built_copy(target_directory, destination_root, binary, metadata) is Ok <==> found_program(
            metadata,
        ),
        built_copy(target_directory, destination_root, binary, metadata) matches Ok(ops) ==> (
        metadata matches Metadata::Found { mode, .. } && ops.len() == 2 && copies_file(
            ops,
            joined_path(joined_path(target_directory, "release"@), binary),
            joined_path(destination_root, binary),
            mode,
        )),
{
    if let Metadata::Found { kind, mode } = metadata {
        executable_is_for_someone(mode);
    }
}

/// A further path of the settings is copied exactly if it was found to be a regular file or a
/// directory: a file as it is, and a directory with its tree, each to the same place in the
/// release.
pub proof fn files_and_directories_are_copied(
    source_root: Seq<char>,
    destination_root: Seq<char>,
    path: Seq<char>,
    metadata: Metadata,
)
    ensures
        included_copy(source_root, destination_root, path, metadata) is Ok <==> found_file(metadata)
            || found_directory(metadata),
        included_copy(source_root, destination_root, path, metadata) matches Ok(plan) ==> ({
            let from = joined_path(source_root, path);
            let to = joined_path(destination_root, path);
            if found_file(metadata) {
                (metadata matches Metadata::Found { mode, .. } && copies_file(
                    plan.ops,
                    from,
                    to,
                    mode,
                )) && plan.tree is None && (parent_of(to) matches Some(directory) ==> plan.ops[0]
                    == FileOp::CreateDirectories(directory))
            } else {
                plan.ops.len() == 1 && plan.ops[0] == FileOp::CreateDirectories(to) && plan.tree
                    == Some((from, to))
            }
        }),
{
}

/// An entry below a tree that is no data of Git is copied to the same place below the destination
/// by what it is: a directory is made, a file is copied with its permission bits, and a link is
/// made anew with its own target, exactly if that target neither begins at the root nor goes up;
/// anything else is refused.
pub proof fn entries_are_copied_by_what_they_are(
    source: Seq<char>,
    destination: Seq<char>,
    path: Seq<char>,
    entry: TreeEntry,
)
    requires
        source.len() > 0,
        parts(source).len() > 0,
        destination.len() > 0,
        under(path, source),
        parts(source).len() < parts(path).len(),
        forall|i: int|
            parts(source).len() <= i < parts(path).len() ==> (#[trigger] parts(path)[i]) is Normal,
        forall|i: int|
            parts(source).len() - 1 <= i < parts(path).len() ==> #[trigger] parts(path)[i]
                != Part::Normal(".git"@),
    ensures
        relative(path, source) matches Some(below) && ({
            let to = joined_path(destination, below);
            let result = entry_copy(source, destination, path, entry);
            &&& parts(to) == parts(destination) + parts(path).skip(parts(source).len() as int)
            &&& match entry {
                TreeEntry::Directory => result matches Ok(ops) && ops.len() == 1 && ops[0]
                    == FileOp::CreateDirectory(to),
                TreeEntry::File => result matches Ok(ops) && ops.len() == 2 && ops[0] == (
                FileOp::Copy { from: path, to }) && ops[1] == (FileOp::CopyMode { from: path, to }),
                TreeEntry::Link(target) => if !absolute(target@) && (forall|i: int|
                    0 <= i < parts(target@).len() ==> !((#[trigger] parts(target@)[i]) is Parent)) {
                    result matches Ok(ops) && ops.len() == 1 && ops[0] == (FileOp::Symlink {
                        target: target@,
                        link: to,
                    })
                } else {
                    result matches Err(error) && error is InvalidState
                },
                TreeEntry::UnreadableLink { .. } => result matches Err(error) && error
                    is FileSystem,
                TreeEntry::Other => result matches Err(error) && error is InvalidState,
            }
        }),
{
    a_relative_path_leads_back(path, source);
    let below = relative(path, source)->0;
    joined_path_stays_inside(source, below);
    joined_path_stays_inside(destination, below);
    let last = parts(source).len() - 1;
    assert(parts(below) =~= parts(path).skip(parts(source).len() as int));
    assert(parts(path)[last] == parts(source)[last]);
    assert forall|j: int| 0 <= j < parts(below).len() implies #[trigger] parts(below)[j]
        != Part::Normal(".git"@) by {
        assert(parts(below)[j] == parts(path)[j + parts(source).len()]);
    }
    assert(!git_data(source, below));
    if let TreeEntry::Link(target) = entry {
        safe_links_never_lead_up(target@);
    }
}

/// What stands outside of the tree is not copied, and the root of the tree is not copied itself.
pub proof fn only_what_stands_in_the_tree_is_copied(
    source: Seq<char>,
    destination: Seq<char>,
    path: Seq<char>,
    entry: TreeEntry,
)
    ensures
        !under(path, source) ==> entry_copy(source, destination, path, entry) is Err,
        parts(source).len() > 0 && parts(path) == parts(source) ==> (entry_copy(
            source,
            destination,
            path,
            entry,
        ) matches Ok(ops) && ops.len() == 0),
{
    if parts(source).len() > 0 && parts(path) == parts(source) {
        assert(parts(path).take(parts(source).len() as int) =~= parts(source));
        assert(parts(path).skip(parts(source).len() as int).len() == 0);
        assert(relative(path, source)->0.len() == 0);
    }
}

/// The current link is switched exactly if the release is an absolute path and the link stands in
/// a directory: that directory is made, a link that was left behind is cleared away, the new link
/// is made and put in the place of the current one, and the directory is flushed.
pub proof fn links_are_switched_step_by_step(
    current: Seq<char>,
    release: Seq<char>,
    deployment_id: Seq<char>,
)
    ensures
        switching(current, release, deployment_id) is Ok <==> release.len() > 0 && release[0] == '/'
            && parent_of(current) is Some,
        switching(current, release, deployment_id) matches Ok(ops) ==> (parent_of(
            current,
        ) matches Some(parent) && ({
            let aside = joined_path(parent, ".current."@ + deployment_id + ".tmp"@);
            ops =~= seq![
                FileOp::CreateDirectories(parent),
                FileOp::ClearLink(aside),
                FileOp::Symlink { target: release, link: aside },
                FileOp::RenameLink { from: aside, to: current },
                FileOp::SyncDirectory(parent),
            ]
        })),
{
}

/// An operation that fails is told with its reason and with the path that it was about: where
/// something is copied or renamed, that it came from; where permission bits were to be set, that
/// which was to get them; and else the path that it was to create, remove or flush.
pub proof fn failed_operations_name_their_path(
    op: FileOp<Seq<char>>,
    second: bool,
    reason: Seq<char>,
)
    ensures
        op_failure(op, second, reason) matches AppErrorView::FileSystem { operation, path, source }
            && source == reason && match op {
            FileOp::CreateDirectories(at) => path == at && operation == "create directory"@,
            FileOp::CreateDirectory(at) => path == at && operation == "create directory"@,
            FileOp::RemoveTree(at) => path == at && operation == "remove directory"@,
            FileOp::ClearLink(at) => path == at && operation == "remove stale symlink"@,
            FileOp::Copy { from, .. } => path == from && operation == "copy"@,
            FileOp::SetMode { path: at, .. } => path == at && operation == "set permissions"@,
            FileOp::CopyMode { from, to } => if second {
                path == to && operation == "set permissions"@
            } else {
                path == from && operation == "read metadata"@
            },
            FileOp::Symlink { link, .. } => path == link && operation == "create symlink"@,
            FileOp::Rename { from, .. } => path == from && operation == "rename"@,
            FileOp::RenameLink { from, .. } => path == from && operation == "rename symlink"@,
            FileOp::SyncDirectory(at) => path == at && operation == (if second {
                "sync directory"@
            } else {
                "open directory"@
            }),
        },
{
}

} // verus!
