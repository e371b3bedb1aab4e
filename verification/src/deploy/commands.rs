//! What the commands of a deployment name, and where it keeps its files.
use vstd::prelude::*;

#[allow(unused_imports)]
use crate::config::{ConfiguredCommand, DeploymentTarget, RustBinary};
#[allow(unused_imports)]
use crate::deploy::place::{binary_args, configured, Context};
#[allow(unused_imports)]
use crate::path::{
    a_plain_name_is_one_part, joined_path, joined_path_stays_inside, parts, plain_name, Part,
};
#[allow(unused_imports)]
use crate::pattern::{lower_or_digit, project_id_text};
#[allow(unused_imports)]
use crate::process::CommandView;
#[allow(unused_imports)]
use crate::stamp::uuid_text;
#[allow(unused_imports)]
use crate::text::{is_hex, is_lower_hex, object_id};

verus! {

/// Whether a command is one of Git for a repository: the configured program, told where the
/// repository is, in no directory of its own.
pub open spec fn git_in(ctx: Context, command: CommandView, repository: Seq<char>) -> bool {
    &&& command.program == ctx.global.git_command@
    &&& command.args.len() > 2 && command.args[0] == "--git-dir"@ && command.args[1] == repository
    &&& command.current_directory is None
}

/// Every Git command but the creation of the mirror and the check of a name works on the mirror of
/// the project, which that creation makes, and none but the fetch is given variables.
pub proof fn git_works_on_the_mirror(ctx: Context, commit: Seq<char>)
    ensures
        git_in(ctx, ctx.read_origin(), ctx.mirror()),
        git_in(ctx, ctx.add_origin(), ctx.mirror()),
        git_in(ctx, ctx.fetch(), ctx.mirror()),
        git_in(ctx, ctx.resolve_tag(), ctx.mirror()),
        git_in(ctx, ctx.resolve_commit(), ctx.mirror()),
        git_in(ctx, ctx.prune_worktrees(), ctx.mirror()),
        git_in(ctx, ctx.add_worktree(commit), ctx.mirror()),
        git_in(ctx, ctx.remove_worktree(), ctx.mirror()),
        ctx.init_mirror().program == ctx.global.git_command@,
        ctx.init_mirror().args == seq!["init"@, "--bare"@, ctx.mirror()],
        ctx.check_tag_ref().program == ctx.global.git_command@,
        ctx.read_origin().environment.len() == 0,
        ctx.add_origin().environment.len() == 0,
        ctx.resolve_tag().environment.len() == 0,
        ctx.resolve_commit().environment.len() == 0,
        ctx.prune_worktrees().environment.len() == 0,
        ctx.add_worktree(commit).environment.len() == 0,
        ctx.remove_worktree().environment.len() == 0,
        ctx.init_mirror().environment.len() == 0,
        ctx.check_tag_ref().environment.len() == 0,
{
}

/// The fetch and all that asks for the tag name the tag of the deployment by its full name and no
/// other: the fetch takes it from the origin to the same name and brings no other tags, and never
/// asks at a terminal.
pub proof fn the_tag_of_the_deployment_is_named(ctx: Context)
    ensures
        ({
            let name = "refs/tags/"@ + ctx.deployment.tag@;
            &&& ctx.fetch().args.skip(2) == seq![
                "fetch"@,
                "--no-tags"@,
                "origin"@,
                name + ":"@ + name,
            ]
            &&& ctx.fetch().environment == seq![("GIT_TERMINAL_PROMPT"@, "0"@)]
            &&& ctx.check_tag_ref().args == seq!["check-ref-format"@, name]
            &&& ctx.resolve_tag().args.skip(2) == seq!["rev-parse"@, "--verify"@, name]
            &&& ctx.resolve_commit().args.skip(2) == seq![
                "rev-parse"@,
                "--verify"@,
                name + "^{commit}"@,
            ]
        }),
{
    let name = "refs/tags/"@ + ctx.deployment.tag@;
    assert(ctx.fetch().args.skip(2) =~= seq!["fetch"@, "--no-tags"@, "origin"@, name + ":"@ + name]);
    assert(ctx.resolve_tag().args.skip(2) =~= seq!["rev-parse"@, "--verify"@, name]);
    assert(ctx.resolve_commit().args.skip(2) =~= seq![
        "rev-parse"@,
        "--verify"@,
        name + "^{commit}"@,
    ]);
}

/// The mirror gets the repository of the project as its origin, and is asked for that origin; the
/// worktree is made of the commit, belongs to no branch, and is the one that is removed.
pub proof fn worktrees_and_origins_are_named(ctx: Context, commit: Seq<char>)
    ensures
        ctx.read_origin().args.skip(2) == seq!["remote"@, "get-url"@, "origin"@],
        ctx.add_origin().args.skip(2) == seq![
            "remote"@,
            "add"@,
            "origin"@,
            ctx.project.repository_url@,
        ],
        ctx.prune_worktrees().args.skip(2) == seq!["worktree"@, "prune"@],
        ctx.add_worktree(commit).args.skip(2) == seq![
            "worktree"@,
            "add"@,
            "--detach"@,
            ctx.worktree(),
            commit,
        ],
        ctx.remove_worktree().args.skip(2) == seq![
            "worktree"@,
            "remove"@,
            "--force"@,
            ctx.worktree(),
        ],
{
    assert(ctx.read_origin().args.skip(2) =~= seq!["remote"@, "get-url"@, "origin"@]);
    assert(ctx.add_origin().args.skip(2) =~= seq![
        "remote"@,
        "add"@,
        "origin"@,
        ctx.project.repository_url@,
    ]);
    assert(ctx.prune_worktrees().args.skip(2) =~= seq!["worktree"@, "prune"@]);
    assert(ctx.add_worktree(commit).args.skip(2) =~= seq![
        "worktree"@,
        "add"@,
        "--detach"@,
        ctx.worktree(),
        commit,
    ]);
    assert(ctx.remove_worktree().args.skip(2) =~= seq![
        "worktree"@,
        "remove"@,
        "--force"@,
        ctx.worktree(),
    ]);
}

proof fn each_program_is_selected(binaries: Seq<RustBinary>, index: int)
    requires
        0 <= index < binaries.len(),
    ensures
        binary_args(binaries).len() == 4 * binaries.len(),
        binary_args(binaries)[4 * index] == "--package"@,
        binary_args(binaries)[4 * index + 1] == binaries[index].package@,
        binary_args(binaries)[4 * index + 2] == "--bin"@,
        binary_args(binaries)[4 * index + 3] == binaries[index].binary@,
    decreases binaries.len(),
{
    let before = binaries.drop_last();
    if before.len() > 0 {
        if index < before.len() {
            each_program_is_selected(before, index);
        } else {
            each_program_is_selected(before, 0);
        }
    } else {
        assert(binary_args(before).len() == 0);
    }
}

/// All programs of a project are built by one Cargo command: a locked release build of the
/// manifest in the worktree, run there, that names the package and the program of each and nothing
/// more, with the given variables and the build directory of the deployment.
pub proof fn cargo_builds_every_program(
    ctx: Context,
    environment: Seq<(Seq<char>, Seq<char>)>,
    index: int,
)
    requires
        ctx.project.deployment matches DeploymentTarget::Rust { binaries, .. } && 0 <= index
            < binaries@.len(),
    ensures
        ctx.project.deployment matches DeploymentTarget::Rust { cargo_manifest, binaries, .. } && ({
            let command = ctx.cargo(environment);
            &&& command.program == ctx.global.cargo_command@
            &&& command.current_directory == Some(ctx.worktree())
            &&& command.args.len() == 5 + 4 * binaries@.len()
            &&& command.args.take(5) == seq![
                "build"@,
                "--release"@,
                "--locked"@,
                "--manifest-path"@,
                joined_path(ctx.worktree(), cargo_manifest@),
            ]
            &&& command.args.subrange(5 + 4 * index, 9 + 4 * index) == seq![
                "--package"@,
                binaries@[index].package@,
                "--bin"@,
                binaries@[index].binary@,
            ]
            &&& command.environment.drop_last() == environment
            &&& command.environment.last() == ("CARGO_TARGET_DIR"@, ctx.target())
        }),
{
    if let DeploymentTarget::Rust { cargo_manifest, binaries, .. } = ctx.project.deployment {
        each_program_is_selected(binaries@, index);
        let command = ctx.cargo(environment);
        assert(command.args.take(5) =~= seq![
            "build"@,
            "--release"@,
            "--locked"@,
            "--manifest-path"@,
            joined_path(ctx.worktree(), cargo_manifest@),
        ]);
        assert(command.args.subrange(5 + 4 * index, 9 + 4 * index) =~= seq![
            "--package"@,
            binaries@[index].package@,
            "--bin"@,
            binaries@[index].binary@,
        ]);
        assert(command.environment.drop_last() =~= environment);
    }
}

/// A configured command is run with its program and its arguments as they are, in the given
/// directory and with the given variables.
pub proof fn commands_run_as_configured(
    command: ConfiguredCommand,
    directory: Option<Seq<char>>,
    environment: Seq<(Seq<char>, Seq<char>)>,
)
    ensures
        ({
            let run = configured(command, directory, environment);
            &&& run.program == command.program@
            &&& run.args.len() == command.args@.len()
            &&& forall|i: int|
                0 <= i < command.args@.len() ==> run.args[i] == (#[trigger] command.args@[i])@
            &&& run.current_directory == directory && run.environment == environment
        }),
{
}

proof fn without_separator(name: Seq<char>)
    requires
        name.len() > 2,
        forall|i: int| 0 <= i < name.len() ==> (#[trigger] name[i]) != '/',
    ensures
        plain_name(name),
{
    if name.contains('/') {
        let i = choose|i: int| 0 <= i < name.len() && name[i] == '/';
        assert(name[i] != '/');
    }
}

proof fn one_down(base: Seq<char>, name: Seq<char>)
    requires
        base.len() > 0,
        plain_name(name),
    ensures
        parts(joined_path(base, name)) == parts(base).push(Part::Normal(name)),
        joined_path(base, name).len() > 0,
{
    a_plain_name_is_one_part(name);
    joined_path_stays_inside(base, name);
    assert(parts(base) + parts(name) =~= parts(base).push(Part::Normal(name)));
    assert(name.len() > 0);
}

proof fn layout_words()
    ensures
        plain_name("mirrors"@),
        plain_name("projects"@),
        plain_name("releases"@),
        plain_name("current"@),
{
    reveal_strlit("mirrors");
    reveal_strlit("projects");
    reveal_strlit("releases");
    reveal_strlit("current");
    assert forall|i: int| 0 <= i < "mirrors"@.len() implies (#[trigger] "mirrors"@[i]) != '/' by {}
    assert forall|i: int| 0 <= i < "projects"@.len() implies (#[trigger] "projects"@[i]) != '/' by {}
    assert forall|i: int| 0 <= i < "releases"@.len() implies (#[trigger] "releases"@[i]) != '/' by {}
    assert forall|i: int| 0 <= i < "current"@.len() implies (#[trigger] "current"@[i]) != '/' by {}
    without_separator("mirrors"@);
    without_separator("projects"@);
    without_separator("releases"@);
    without_separator("current"@);
}

proof fn identifiers_are_names(project_id: Seq<char>)
    requires
        project_id_text(project_id),
    ensures
        plain_name(project_id),
        plain_name(project_id + ".git"@),
{
    reveal_strlit(".git");
    assert forall|i: int| 0 <= i < project_id.len() implies (#[trigger] project_id[i]) != '/' by {
        assert(lower_or_digit(project_id[i]) || project_id[i] == '-');
    }
    if project_id.contains('/') {
        let i = choose|i: int| 0 <= i < project_id.len() && project_id[i] == '/';
        assert(project_id[i] != '/');
    }
    assert(lower_or_digit(project_id[0]));
    let mirror = project_id + ".git"@;
    assert forall|i: int| 0 <= i < mirror.len() implies (#[trigger] mirror[i]) != '/' by {
        if i < project_id.len() {
            assert(mirror[i] == project_id[i]);
        } else {
            assert(mirror[i] == ".git"@[i - project_id.len()]);
        }
    }
    without_separator(mirror);
}

/// The mirror and the releases of a project have a place of their own in the state directory, by
/// the identifier of the project.
pub proof fn projects_have_their_places(ctx: Context)
    requires
        project_id_text(ctx.project.project_id@),
        ctx.global.state_directory@.len() > 0,
    ensures
        ({
            let state = parts(ctx.global.state_directory@);
            let id = ctx.project.project_id@;
            &&& parts(ctx.mirror()) == state + seq![
                Part::Normal("mirrors"@),
                Part::Normal(id + ".git"@),
            ]
            &&& parts(ctx.releases()) == state + seq![
                Part::Normal("projects"@),
                Part::Normal(id),
                Part::Normal("releases"@),
            ]
        }),
{
    let state = ctx.global.state_directory@;
    let id = ctx.project.project_id@;
    layout_words();
    identifiers_are_names(id);
    let mirrors = joined_path(state, "mirrors"@);
    let projects = joined_path(state, "projects"@);
    let project = joined_path(projects, id);
    one_down(state, "mirrors"@);
    one_down(mirrors, id + ".git"@);
    one_down(state, "projects"@);
    one_down(projects, id);
    one_down(project, "releases"@);
    assert(parts(ctx.mirror()) =~= parts(state) + seq![
        Part::Normal("mirrors"@),
        Part::Normal(id + ".git"@),
    ]);
    assert(parts(ctx.releases()) =~= parts(state) + seq![
        Part::Normal("projects"@),
        Part::Normal(id),
        Part::Normal("releases"@),
    ]);
}

/// A release is built in a hidden directory beside the releases that is named by the object that
/// was asked for and by the deployment; so no two deployments build in the same place, and none in
/// the place of a release.
pub proof fn releases_are_built_aside(ctx: Context, parent: Seq<char>, commit: Seq<char>)
    requires
        parent.len() > 0,
        object_id(ctx.deployment.requested_sha@),
        uuid_text(ctx.deployment.id@),
        object_id(commit),
    ensures
        parts(ctx.temporary(parent)) == parts(parent).push(
            Part::Normal(
                "."@ + ctx.deployment.requested_sha@ + "."@ + ctx.deployment.id@ + ".tmp"@,
            ),
        ),
        parts(ctx.temporary(parent)) != parts(joined_path(parent, commit)),
{
    reveal_strlit(".");
    reveal_strlit(".tmp");
    let sha = ctx.deployment.requested_sha@;
    let id = ctx.deployment.id@;
    let name = "."@ + sha + "."@ + id + ".tmp"@;
    assert(name.len() == 1 + sha.len() + 1 + id.len() + 4);
    assert forall|i: int| 0 <= i < name.len() implies (#[trigger] name[i]) != '/' by {
        if i == 0 {
        } else if i < 1 + sha.len() {
            assert(name[i] == sha[i - 1]);
            assert(is_hex(sha[i - 1]));
        } else if i == 1 + sha.len() {
        } else if i < 2 + sha.len() + id.len() {
            assert(name[i] == id[i - 2 - sha.len()]);
            assert(id[i - 2 - sha.len()] == '-' || is_lower_hex(id[i - 2 - sha.len()]));
        } else {
            assert(name[i] == ".tmp"@[i - 2 - sha.len() - id.len()]);
        }
    }
    without_separator(name);
    one_down(parent, name);
    assert forall|i: int| 0 <= i < commit.len() implies (#[trigger] commit[i]) != '/' by {
        assert(is_hex(commit[i]));
    }
    without_separator(commit);
    one_down(parent, commit);
    assert(name[0] == '.');
    assert(is_hex(commit[0]));
    assert(parts(ctx.temporary(parent)).last() == Part::Normal(name));
    assert(parts(joined_path(parent, commit)).last() == Part::Normal(commit));
}

/// Only a project that is built from source has an environment file and a manifest: the file that
/// its settings name, and the manifest at its place in the worktree.
pub proof fn source_projects_name_their_files(ctx: Context)
    ensures
        match ctx.project.deployment {
            DeploymentTarget::Rust { cargo_manifest, environment_file, .. } => {
                &&& ctx.manifest() == joined_path(ctx.worktree(), cargo_manifest@)
                &&& match environment_file {
                    Some(file) => ctx.environment_file() == Some(file@),
                    None => ctx.environment_file() is None,
                }
            },
            _ => ctx.environment_file() is None,
        },
{
}

} // verus!
