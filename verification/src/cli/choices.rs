//! What the commands choose and refuse, by what they are asked for and what is found.
use vstd::prelude::*;

#[allow(unused_imports)]
use crate::cli::{
    addition, adoption, bootstrap_of, clean_type, config_file, config_home, default_current_path,
    global_text, initial_home, normalized, residue, sha_flaw, state_directory, DeploymentType,
    Pointer,
};
#[allow(unused_imports)]
use crate::config::accept::{from_root, the_root_alone};
#[allow(unused_imports)]
use crate::deploy::place::Context;
#[allow(unused_imports)]
use crate::error::AppErrorView;
#[allow(unused_imports)]
use crate::model::{CleanDeploymentType, DeploymentStatus, DeploymentView};
#[allow(unused_imports)]
use crate::path::laws::the_root_comes_first;
#[allow(unused_imports)]
use crate::path::{
    a_plain_name_is_one_part, absolute, has_dots, joined_path, joined_path_stays_inside, name_of,
    normal_parts_are_plain_names, parent_drops_last_part, parent_of, parts, plain_name, same_parts,
    Part,
};
#[allow(unused_imports)]
use crate::pattern::project_id_text;
#[allow(unused_imports)]
use crate::release::{FileKind, FileOp, Metadata};
#[allow(unused_imports)]
use crate::text::laws::beginnings_and_endings;
#[allow(unused_imports)]
use crate::text::{begins_with, ends_with, trimmed};
#[allow(unused_imports)]
use crate::web::laws::names_object;

verus! {

/// The settings of a user are found in the directory for settings where that is given and not
/// empty, else in the home directory; only where neither is given is there an error.
pub proof fn settings_stand_with_the_user(xdg: Option<Seq<char>>, home: Option<Seq<char>>)
    ensures
        config_home(xdg, home) is Err <==> (xdg is None || xdg == Some(Seq::<char>::empty())) && home
            is None,
        forall|directory: Seq<char>|
            xdg == Some(directory) && directory.len() > 0 ==> config_home(xdg, home) == Ok::<
                Seq<char>,
                AppErrorView,
            >(#[trigger] joined_path(directory, "aynur-deploy"@)),
        forall|directory: Seq<char>|
            (xdg is None || xdg == Some(Seq::<char>::empty())) && home == Some(directory)
                ==> config_home(xdg, home) == Ok::<Seq<char>, AppErrorView>(
                #[trigger] joined_path(directory, ".config/aynur-deploy"@),
            ),
{
    if let Some(directory) = xdg {
        if directory.len() == 0 {
            assert(directory =~= Seq::<char>::empty());
        }
    }
}

/// The configuration file of the directory that was chosen comes first and must be there; without
/// such a choice that of the user comes before that of the machine, and where neither exists there
/// is none.
pub proof fn a_chosen_directory_comes_first(
    settings: Seq<char>,
    pointer: Pointer,
    user_exists: bool,
    default_exists: bool,
)
    ensures
        config_file(settings, pointer, user_exists, default_exists) is Err <==> pointer
            is Unreadable || (pointer matches Pointer::Text { holds_config, .. } && !holds_config),
        pointer matches Pointer::Text { text, holds_config } ==> (holds_config ==> config_file(
            settings,
            pointer,
            user_exists,
            default_exists,
        ) == Ok::<Option<Seq<char>>, AppErrorView>(
            Some(joined_path(trimmed(text@), "config.toml"@)),
        )),
        pointer is Absent ==> config_file(settings, pointer, user_exists, default_exists) == Ok::<
            Option<Seq<char>>,
            AppErrorView,
        >(
            if user_exists {
                Some(joined_path(settings, "config.toml"@))
            } else if default_exists {
                Some("/etc/aynur-deploy/config.toml"@)
            } else {
                None
            },
        ),
{
}

/// The directory that is asked for is initialized, else that of the configuration that was found,
/// else the default one.
pub proof fn the_requested_directory_is_initialized(
    requested: Option<Seq<char>>,
    found: Option<Seq<char>>,
)
    ensures
        requested matches Some(home) ==> initial_home(requested, found) == Ok::<
            Seq<char>,
            AppErrorView,
        >(home),
        requested is None && found is None ==> initial_home(requested, found) == Ok::<
            Seq<char>,
            AppErrorView,
        >("/etc/aynur-deploy"@),
        requested is None ==> (found matches Some(path) ==> match initial_home(requested, found) {
            Ok(home) => parent_of(path) == Some(home) && parts(home) == parts(path).drop_last(),
            Err(_) => parent_of(path) is None,
        }),
{
    if let Some(path) = found {
        parent_drops_last_part(path);
    }
}

/// The state stands in its own place for the default directory, and inside of any other.
pub proof fn the_state_stands_with_the_configuration(home: Seq<char>)
    ensures
        parts(home) == parts("/etc/aynur-deploy"@) ==> state_directory(home)
            == "/var/lib/aynur-deploy"@,
        parts(home) != parts("/etc/aynur-deploy"@) ==> state_directory(home) == joined_path(
            home,
            "state"@,
        ),
{
}

/// A project is added exactly if its identifier is one and the place of its current link, which is
/// the requested one or else stands with its releases, is absolute, not the root, and without `.`
/// and `..`. Its file is named by the identifier.
pub proof fn projects_are_added_by_their_identifier(
    project_id: Seq<char>,
    deployment_type: DeploymentType,
    requested: Option<Seq<char>>,
    projects_directory: Seq<char>,
    state: Seq<char>,
    token: Seq<char>,
)
    ensures
        ({
            let place = match requested {
                Some(path) => path,
                None => joined_path(
                    joined_path(joined_path(state, "projects"@), project_id),
                    "current"@,
                ),
            };
            let result = addition(
                project_id,
                deployment_type,
                requested,
                projects_directory,
                state,
                token,
            );
            &&& result is Ok <==> project_id_text(project_id) && from_root(place) && parts(
                place,
            ).len() > 1 && !has_dots(place)
            &&& result matches Err(error) ==> error is RequestValidation
            &&& result matches Ok(plan) ==> plan.current_path == place && plan.project_config_path
                == joined_path(projects_directory, project_id + ".toml"@)
        }),
{
    let place = match requested {
        Some(path) => path,
        None => default_current_path(state, project_id),
    };
    the_root_alone();
    the_root_comes_first(place);
    if absolute(place) && parts(place).len() == 1 {
        assert(parts(place) =~= seq![Part::Root]);
    }
}

/// The place of a current link is taken over exactly if nothing or a link is there, which is left
/// alone, or a directory that can be moved aside: beside it, under its name with an ending, where
/// nothing may be yet.
pub proof fn only_directories_are_moved_aside(
    current_path: Seq<char>,
    current: Metadata,
    bootstrap: Metadata,
)
    ensures
        ({
            let result = adoption(current_path, current, bootstrap);
            let directory = current matches Metadata::Found { kind, .. } && kind is Directory;
            let link = current matches Metadata::Found { kind, .. } && kind is Symlink;
            &&& result is Ok <==> current is Missing || link || (directory && bootstrap is Missing
                && bootstrap_of(current_path) is Some)
            &&& result matches Ok(adopted) ==> (adopted.bootstrap_path is Some <==> directory)
                && (adopted.ops.len() == 0 <==> !directory)
            &&& result matches Ok(adopted) ==> (adopted.bootstrap_path matches Some(aside)
                ==> adopted.bootstrap_path == bootstrap_of(current_path) && adopted.ops.len() == 2
                && adopted.ops[0] == (FileOp::Rename { from: current_path, to: aside })
                && adopted.ops[1] == (FileOp::Symlink { target: aside, link: current_path }))
        }),
{
}

/// What is moved aside comes to stand in the same directory, under its name with an ending.
pub proof fn what_is_moved_aside_keeps_its_name(current_path: Seq<char>)
    requires
        absolute(current_path),
        parts(current_path).len() > 1,
        parts(current_path).last() is Normal,
    ensures
        bootstrap_of(current_path) matches Some(aside) && parts(aside) == parts(
            current_path,
        ).drop_last().push(
            Part::Normal(parts(current_path).last()->Normal_0 + ".before-aynur-deploy"@),
        ),
{
    reveal_strlit(".before-aynur-deploy");
    parent_drops_last_part(current_path);
    let above = parent_of(current_path)->0;
    let name = name_of(current_path)->0;
    normal_parts_are_plain_names(current_path);
    let last = parts(current_path).len() - 1;
    assert(parts(current_path)[last] == Part::Normal(name));
    let renamed = name + ".before-aynur-deploy"@;
    assert forall|i: int| 0 <= i < renamed.len() implies (#[trigger] renamed[i]) != '/' by {
        if i < name.len() {
            assert(renamed[i] == name[i]);
            assert(name.contains(name[i]));
        } else {
            assert(renamed[i] == ".before-aynur-deploy"@[i - name.len()]);
        }
    }
    assert(plain_name(renamed)) by {
        if renamed.contains('/') {
            let i = choose|i: int| 0 <= i < renamed.len() && renamed[i] == '/';
            assert(renamed[i] != '/');
        }
    }
    a_plain_name_is_one_part(renamed);
    if above.len() == 0 {
        assert(parts(above)[0] is Root);
        the_root_comes_first(above);
    }
    joined_path_stays_inside(above, renamed);
    assert(parts(above) + parts(renamed) =~= parts(current_path).drop_last().push(
        Part::Normal(renamed),
    ));
}

/// What is left behind is, for each deployment, its worktree and its build directory, and nothing
/// else.
pub proof fn leftovers_are_those_of_the_deployments(
    state: Seq<char>,
    deployments: Seq<DeploymentView>,
)
    ensures
        residue(state, deployments).len() == 2 * deployments.len(),
        forall|i: int|
            0 <= i < deployments.len() ==> residue(state, deployments)[2 * i] == joined_path(
                joined_path(state, "worktrees"@),
                (#[trigger] deployments[i]).id,
            ) && residue(state, deployments)[2 * i + 1] == joined_path(
                joined_path(state, "targets"@),
                deployments[i].id,
            ),
    decreases deployments.len(),
{
    if deployments.len() > 0 {
        let before = deployments.drop_last();
        leftovers_are_those_of_the_deployments(state, before);
        assert forall|i: int| 0 <= i < deployments.len() implies residue(state, deployments)[2 * i]
            == joined_path(joined_path(state, "worktrees"@), (#[trigger] deployments[i]).id)
            && residue(state, deployments)[2 * i + 1] == joined_path(
            joined_path(state, "targets"@),
            deployments[i].id,
        ) by {
            if i < before.len() {
                assert(before[i] == deployments[i]);
            }
        }
    }
}

/// What a deployment works in is what is removed after it: its worktree and its build directory
/// are those that count as left behind.
pub proof fn a_deployment_works_where_it_is_cleaned(ctx: Context, deployment: DeploymentView)
    requires
        deployment.id == ctx.deployment.id@,
    ensures
        residue(ctx.global.state_directory@, seq![deployment]) == seq![
            ctx.worktree(),
            ctx.target(),
        ],
{
    leftovers_are_those_of_the_deployments(ctx.global.state_directory@, seq![deployment]);
    assert(seq![deployment][0].id == ctx.deployment.id@);
    assert(residue(ctx.global.state_directory@, seq![deployment]) =~= seq![
        ctx.worktree(),
        ctx.target(),
    ]);
}

/// The words of the command line for what is cleaned: failures, successes or all that has ended;
/// any other word means nothing.
pub proof fn words_say_what_is_cleaned(word: Seq<char>, status: DeploymentStatus)
    ensures
        clean_type(word) is Some <==> word == "failed"@ || word == "succeeded"@ || word == "all"@,
        clean_type("failed"@) matches Some(meant) && (meant.covers(status) <==> status is Failed
            || status is RollbackFailed),
        clean_type("succeeded"@) matches Some(meant) && (meant.covers(status) <==> status
            is Succeeded),
        clean_type("all"@) matches Some(meant) && (meant.covers(status) <==> status is Failed
            || status is RollbackFailed || status is Succeeded),
{
    reveal_strlit("failed");
    reveal_strlit("succeeded");
    reveal_strlit("all");
    assert("failed"@.len() == 6 && "succeeded"@.len() == 9 && "all"@.len() == 3);
}

/// A commit on the command line is accepted exactly if it is the name of an object in lowercase.
pub proof fn commits_are_named_in_full(value: Seq<char>)
    ensures
        sha_flaw(value) is None <==> names_object(value),
        sha_flaw(value) matches Some(error) ==> error is RequestValidation,
{
}

/// A new configuration file listens on the machine itself, keeps the database in the state
/// directory and the project files beside itself, and ends with settings that are the same for
/// every directory.
pub proof fn new_configurations_differ_only_in_their_places(home: Seq<char>)
    ensures
        ({
            let state = state_directory(home);
            let head = "listenAddress = \"127.0.0.1:9091\"\ndatabasePath = \""@ + joined_path(
                state,
                "deployments.sqlite3"@,
            ) + "\"\nstateDirectory = \""@ + state + "\"\nprojectsDirectory = \""@ + joined_path(
                home,
                "projects"@,
            );
            let rest =
                "\"\ngitCommand = \"/usr/bin/git\"\ncargoCommand = \"/usr/bin/cargo\"\ngitFetchAttempts = 3\ngitFetchRetryDelayMs = 2000\ncommandTimeoutSeconds = 1800\nmaxWebhookBodyBytes = 65536\nworkerPollIntervalMs = 1000\n"@;
            &&& begins_with(global_text(home), head)
            &&& ends_with(global_text(home), rest)
            &&& global_text(home).len() == head.len() + rest.len()
        }),
{
    let state = state_directory(home);
    let head = "listenAddress = \"127.0.0.1:9091\"\ndatabasePath = \""@ + joined_path(
        state,
        "deployments.sqlite3"@,
    ) + "\"\nstateDirectory = \""@ + state + "\"\nprojectsDirectory = \""@ + joined_path(
        home,
        "projects"@,
    );
    let rest =
        "\"\ngitCommand = \"/usr/bin/git\"\ncargoCommand = \"/usr/bin/cargo\"\ngitFetchAttempts = 3\ngitFetchRetryDelayMs = 2000\ncommandTimeoutSeconds = 1800\nmaxWebhookBodyBytes = 65536\nworkerPollIntervalMs = 1000\n"@;
    assert(global_text(home) =~= head + rest);
    beginnings_and_endings(head, head, rest);
    beginnings_and_endings(rest, rest, head);
}

} // verus!
