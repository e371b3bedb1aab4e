//! What holds of every valid configuration.
use vstd::prelude::*;

#[allow(unused_imports)]
use crate::config::load::{
    binaries_flaw, builds, deployment_flaw, included_flaw, overlap, overlaps_one, program_path,
    target_of, DeploymentConfig,
};
#[allow(unused_imports)]
use crate::config::RustBinary;
#[allow(unused_imports)]
use crate::deploy::place::Context;
#[allow(unused_imports)]
use crate::environment::EnvironmentSource;
#[allow(unused_imports)]
use crate::error::AppErrorView;
#[allow(unused_imports)]
use crate::path::{
    a_plain_name_is_one_part, a_relative_path_leads_back, joined_path, joined_path_stays_inside,
    parts, plain_name, plain_relative, relative, same_parts, under, Part,
};
#[allow(unused_imports)]
use crate::pattern::{name_char, name_text};
#[allow(unused_imports)]
use crate::release::{entry_copy, git_data, release_paths, touched, FileOp, TreeEntry};
#[allow(unused_imports)]
use crate::stamp::uuid_text;
#[allow(unused_imports)]
use crate::text::{is_hex, is_lower_hex, object_id};

verus! {

proof fn no_separator(text: Seq<char>)
    requires
        forall|i: int| 0 <= i < text.len() ==> (#[trigger] text[i]) != '/',
    ensures
        !text.contains('/'),
{
}

/// The name of a program is a relative path with one component.
pub proof fn program_names_are_plain(name: Seq<char>)
    requires
        name_text(name),
    ensures
        plain_name(name),
        plain_relative(name),
        parts(name) == seq![Part::Normal(name)],
{
    assert(name_char(name[0]));
    assert forall|i: int| 0 <= i < name.len() implies (#[trigger] name[i]) != '/' by {
        assert(name_char(name[i]));
    }
    no_separator(name);
    a_plain_name_is_one_part(name);
}

/// A Git object identifier is a relative path with one component, so the release of a commit
/// stands in the directory of the releases.
pub proof fn releases_stand_in_their_directory(ctx: Context, commit: Seq<char>)
    requires
        object_id(commit),
        ctx.releases().len() > 0,
    ensures
        parts(ctx.release(commit)) == parts(ctx.releases()).push(Part::Normal(commit)),
        under(ctx.release(commit), ctx.releases()),
{
    assert forall|i: int| 0 <= i < commit.len() implies (#[trigger] commit[i]) != '/' by {
        assert(is_hex(commit[i]));
    }
    no_separator(commit);
    assert(is_hex(commit[0]));
    a_plain_name_is_one_part(commit);
    joined_path_stays_inside(ctx.releases(), commit);
    assert(parts(ctx.releases()) + seq![Part::Normal(commit)] =~= parts(ctx.releases()).push(
        Part::Normal(commit),
    ));
}

/// A word of the layout of the state directory is the name of one directory.
proof fn layout_names_are_plain()
    ensures
        plain_name("worktrees"@),
        plain_name("targets"@),
        plain_name("projects"@),
        "projects"@ != "worktrees"@,
        "projects"@ != "targets"@,
{
    reveal_strlit("worktrees");
    reveal_strlit("targets");
    reveal_strlit("projects");
    assert("worktrees"@.len() == 9 && "targets"@.len() == 7 && "projects"@.len() == 8);
    assert forall|i: int| 0 <= i < "worktrees"@.len() implies (#[trigger] "worktrees"@[i]) != '/' by {}
    assert forall|i: int| 0 <= i < "targets"@.len() implies (#[trigger] "targets"@[i]) != '/' by {}
    assert forall|i: int| 0 <= i < "projects"@.len() implies (#[trigger] "projects"@[i]) != '/' by {}
    no_separator("worktrees"@);
    no_separator("targets"@);
    no_separator("projects"@);
}

/// The worktree and the target directory of an identifier of the service stand below the
/// directory of the state, each in a directory that holds no projects.
pub proof fn leftovers_stand_beside_the_projects(state: Seq<char>, id: Seq<char>)
    requires
        uuid_text(id),
        state.len() > 0,
    ensures
        parts(joined_path(joined_path(state, "worktrees"@), id)) == parts(state) + seq![
            Part::Normal("worktrees"@),
            Part::Normal(id),
        ],
        parts(joined_path(joined_path(state, "targets"@), id)) == parts(state) + seq![
            Part::Normal("targets"@),
            Part::Normal(id),
        ],
        parts(joined_path(state, "projects"@)) == parts(state) + seq![Part::Normal("projects"@)],
        "projects"@ != "worktrees"@,
        "projects"@ != "targets"@,
{
    assert forall|i: int| 0 <= i < id.len() implies (#[trigger] id[i]) != '/' by {
        assert(id[i] == '-' || is_lower_hex(id[i]));
    }
    no_separator(id);
    a_plain_name_is_one_part(id);
    layout_names_are_plain();
    a_plain_name_is_one_part("worktrees"@);
    a_plain_name_is_one_part("targets"@);
    a_plain_name_is_one_part("projects"@);
    joined_path_stays_inside(state, "worktrees"@);
    joined_path_stays_inside(state, "targets"@);
    joined_path_stays_inside(state, "projects"@);
    joined_path_stays_inside(joined_path(state, "worktrees"@), id);
    joined_path_stays_inside(joined_path(state, "targets"@), id);
    assert(parts(state) + seq![Part::Normal("worktrees"@)] + seq![Part::Normal(id)] =~= parts(state)
        + seq![Part::Normal("worktrees"@), Part::Normal(id)]);
    assert(parts(state) + seq![Part::Normal("targets"@)] + seq![Part::Normal(id)] =~= parts(state)
        + seq![Part::Normal("targets"@), Part::Normal(id)]);
}

/// A deployment with an identifier of the service has a worktree and a target directory of its
/// own below the directory of the state.
pub proof fn worktrees_stand_in_the_state_directory(ctx: Context)
    requires
        uuid_text(ctx.deployment.id@),
        ctx.global.state_directory@.len() > 0,
    ensures
        parts(ctx.worktree()) == parts(ctx.global.state_directory@) + seq![
            Part::Normal("worktrees"@),
            Part::Normal(ctx.deployment.id@),
        ],
        parts(ctx.target()) == parts(ctx.global.state_directory@) + seq![
            Part::Normal("targets"@),
            Part::Normal(ctx.deployment.id@),
        ],
{
    leftovers_stand_beside_the_projects(ctx.global.state_directory@, ctx.deployment.id@);
}

proof fn valid_binaries(path: Seq<char>, binaries: Seq<RustBinary>)
    requires
        binaries_flaw(path, binaries) is None,
    ensures
        forall|i: int|
            0 <= i < binaries.len() ==> name_text((#[trigger] binaries[i]).package@) && name_text(
                binaries[i].binary@,
            ),
        forall|i: int, j: int|
            0 <= i < j < binaries.len() ==> (#[trigger] binaries[i]).binary@ != (
            #[trigger] binaries[j]).binary@,
    decreases binaries.len(),
{
    if binaries.len() > 0 {
        let before = binaries.drop_last();
        valid_binaries(path, before);
        let last = binaries.len() - 1;
        assert forall|i: int| 0 <= i < binaries.len() implies name_text(
            (#[trigger] binaries[i]).package@,
        ) && name_text(binaries[i].binary@) by {
            if i < last {
                assert(before[i] == binaries[i]);
            }
        }
        assert forall|i: int, j: int| 0 <= i < j < binaries.len() implies (
        #[trigger] binaries[i]).binary@ != (#[trigger] binaries[j]).binary@ by {
            if j < last {
                assert(before[i] == binaries[i] && before[j] == binaries[j]);
            } else {
                assert(before[i] == binaries[i]);
                assert(!builds(before, binaries[j].binary@));
            }
        }
    }
}

proof fn valid_included(path: Seq<char>, paths: Seq<Seq<char>>, binaries: Seq<RustBinary>)
    requires
        included_flaw(path, paths, binaries) is None,
    ensures
        forall|i: int|
            0 <= i < paths.len() ==> plain_relative(#[trigger] paths[i]) && !program_path(
                binaries,
                paths[i],
            ),
        forall|i: int, j: int|
            0 <= i < j < paths.len() ==> !overlap(#[trigger] paths[j], #[trigger] paths[i]),
    decreases paths.len(),
{
    if paths.len() > 0 {
        let before = paths.drop_last();
        valid_included(path, before, binaries);
        let last = paths.len() - 1;
        assert forall|i: int| 0 <= i < paths.len() implies plain_relative(#[trigger] paths[i])
            && !program_path(binaries, paths[i]) by {
            if i < last {
                assert(before[i] == paths[i]);
            }
        }
        assert forall|i: int, j: int| 0 <= i < j < paths.len() implies !overlap(
            #[trigger] paths[j],
            #[trigger] paths[i],
        ) by {
            if j < last {
                assert(before[i] == paths[i] && before[j] == paths[j]);
            } else {
                assert(before[i] == paths[i]);
                assert(!overlaps_one(before, paths[j]));
            }
        }
    }
}

/// Whatever a valid project says that a release is made of, every path of the release that is
/// filled or looked at lies in the release.
pub proof fn releases_hold_their_paths(
    path: Seq<char>,
    config: DeploymentConfig,
    environment: EnvironmentSource,
    release: Seq<char>,
    index: int,
)
    requires
        deployment_flaw(path, config, environment) is None,
        release.len() > 0,
        0 <= index < release_paths(target_of(config), release).len(),
    ensures
        under(release_paths(target_of(config), release)[index].0, release),
{
    assert(parts(release).take(parts(release).len() as int) =~= parts(release));
    match config {
        DeploymentConfig::Static { entry_file } => {
            joined_path_stays_inside(release, entry_file@);
        },
        DeploymentConfig::Binary { binary_path } => {
            joined_path_stays_inside(release, binary_path@);
        },
        DeploymentConfig::Rust { binaries, include_paths, .. } => {
            valid_binaries(path, binaries@);
            valid_included(path, include_paths.deep_view(), binaries@);
            if index > 0 && index <= binaries@.len() {
                let binary = binaries@[index - 1];
                program_names_are_plain(binary.binary@);
                joined_path_stays_inside(release, binary.binary@);
            } else if index > binaries@.len() {
                let included = include_paths@[index - 1 - binaries@.len()];
                assert(include_paths.deep_view()[index - 1 - binaries@.len()] == included@);
                joined_path_stays_inside(release, included@);
            }
        },
    }
}

/// The programs of a valid project have different names, and no path that its releases hold
/// beside them is that of a program or overlaps another: nothing in a release overwrites
/// anything else.
pub proof fn nothing_in_a_release_overlaps(
    path: Seq<char>,
    config: DeploymentConfig,
    environment: EnvironmentSource,
)
    requires
        deployment_flaw(path, config, environment) is None,
    ensures
        config matches DeploymentConfig::Rust { binaries, include_paths, .. } ==> {
            &&& binaries@.len() > 0
            &&& forall|i: int, j: int|
                0 <= i < j < binaries@.len() ==> (#[trigger] binaries@[i]).binary@ != (
                #[trigger] binaries@[j]).binary@
            &&& forall|i: int, j: int|
                0 <= i < j < include_paths@.len() ==> !overlap(
                    #[trigger] include_paths@[j]@,
                    #[trigger] include_paths@[i]@,
                )
            &&& forall|i: int, j: int|
                0 <= i < binaries@.len() && 0 <= j < include_paths@.len() ==> !same_parts(
                    (#[trigger] include_paths@[j])@,
                    (#[trigger] binaries@[i]).binary@,
                )
        },
{
    if let DeploymentConfig::Rust { binaries, include_paths, .. } = config {
        valid_binaries(path, binaries@);
        let paths = include_paths.deep_view();
        valid_included(path, paths, binaries@);
        assert forall|i: int, j: int| 0 <= i < j < include_paths@.len() implies !overlap(
            #[trigger] include_paths@[j]@,
            #[trigger] include_paths@[i]@,
        ) by {
            assert(paths[i] == include_paths@[i]@ && paths[j] == include_paths@[j]@);
        }
        assert forall|i: int, j: int|
            0 <= i < binaries@.len() && 0 <= j < include_paths@.len() implies !same_parts(
            (#[trigger] include_paths@[j])@,
            (#[trigger] binaries@[i]).binary@,
        ) by {
            assert(paths[j] == include_paths@[j]@);
            assert(!program_path(binaries@, paths[j]));
        }
    }
}

/// Copying an entry of a tree touches only what lies below the destination, at the same place as
/// the entry lies below the source.
pub proof fn tree_copies_stay_inside(
    source: Seq<char>,
    destination: Seq<char>,
    path: Seq<char>,
    entry: TreeEntry,
    ops: Seq<FileOp<Seq<char>>>,
    index: int,
)
    requires
        source.len() > 0,
        parts(source).len() > 0,
        destination.len() > 0,
        under(path, source),
        parts(source).len() < parts(path).len(),
        forall|i: int|
            parts(source).len() <= i < parts(path).len() ==> (#[trigger] parts(path)[i]) is Normal,
        entry_copy(source, destination, path, entry) == Ok::<
            Seq<FileOp<Seq<char>>>,
            AppErrorView,
        >(ops),
        0 <= index < ops.len(),
    ensures
        under(touched(ops[index]), destination),
        parts(touched(ops[index])) == parts(destination) + parts(path).skip(
            parts(source).len() as int,
        ),
{
    a_relative_path_leads_back(path, source);
    let below = relative(path, source)->0;
    joined_path_stays_inside(source, below);
    joined_path_stays_inside(destination, below);
    assert(parts(below) =~= parts(path).skip(parts(source).len() as int));
    assert(touched(ops[index]) == joined_path(destination, below));
}

/// Git's own data is left out of a copy at every depth: of an entry whose path holds the name of
/// it, from the tree itself on, nothing is copied, whatever the entry is. Every other entry that
/// is not refused is copied.
pub proof fn git_data_is_left_out(
    source: Seq<char>,
    destination: Seq<char>,
    path: Seq<char>,
    entry: TreeEntry,
)
    requires
        source.len() > 0,
        parts(source).len() > 0,
        under(path, source),
        parts(source).len() < parts(path).len(),
        forall|i: int|
            parts(source).len() <= i < parts(path).len() ==> (#[trigger] parts(path)[i]) is Normal,
    ensures
        (exists|i: int|
            parts(source).len() - 1 <= i < parts(path).len() && #[trigger] parts(path)[i]
                == Part::Normal(".git"@)) ==> entry_copy(source, destination, path, entry) == Ok::<
            Seq<FileOp<Seq<char>>>,
            AppErrorView,
        >(Seq::empty()),
        (forall|i: int|
            parts(source).len() - 1 <= i < parts(path).len() ==> #[trigger] parts(path)[i]
                != Part::Normal(".git"@)) ==> (entry_copy(source, destination, path, entry) matches Ok(
            ops,
        ) ==> ops.len() > 0),
{
    a_relative_path_leads_back(path, source);
    let below = relative(path, source)->0;
    joined_path_stays_inside(source, below);
    let rest = parts(path).skip(parts(source).len() as int);
    let last = parts(source).len() - 1;
    assert(parts(below) =~= rest);
    assert(parts(path)[last] == parts(source)[last]);
    if exists|i: int| last <= i < parts(path).len() && #[trigger] parts(path)[i] == Part::Normal(
        ".git"@,
    ) {
        let i = choose|i: int|
            last <= i < parts(path).len() && #[trigger] parts(path)[i] == Part::Normal(".git"@);
        if i > last {
            assert(parts(below)[i - parts(source).len()] == Part::Normal(".git"@));
        }
        assert(git_data(source, below));
    } else {
        assert forall|j: int| 0 <= j < parts(below).len() implies #[trigger] parts(below)[j]
            != Part::Normal(".git"@) by {
            assert(parts(below)[j] == parts(path)[j + parts(source).len()]);
        }
        assert(!git_data(source, below));
    }
}

} // verus!
