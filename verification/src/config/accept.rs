//! Which configurations are accepted, by what they say and by what is found on disk.
use vstd::prelude::*;

#[allow(unused_imports)]
use crate::config::load::{
    absolute_flaw, binaries_flaw, builds, command_flaw, command_of, commands_flaw,
    current_path_flaw, deployment_flaw, executable_flaw, first_of, global_flaw, health_flaw,
    included_flaw, listen_flaw, loopback, name_flaw, overlap, overlaps_one, positive_flaw,
    private_flaw, program_path, relative_flaw, reload_flaw, repository_flaw, url_parts,
    DeploymentConfig, HealthCheckConfig, ProjectConfig,
};
#[allow(unused_imports)]
use crate::config::project::{
    config_flaw, conflict, id_used, identity_flaw, migration_flaw, path_holder, place_of, places,
    printable_flaw, project_flaw, project_id_flaw, project_of, project_paths, source_flaw,
    sources_flaw, tag_pattern_flaw, Listing, Place, ProjectSource, ProjectText,
};
#[allow(unused_imports)]
use crate::config::{
    ConfiguredCommand, DeploymentTarget, GlobalConfig, IpAddress, Project, RustBinary,
};
#[allow(unused_imports)]
use crate::environment::{
    access_flaw, environment_flaw, names, variables, Entry, EnvironmentSource, FileBytes,
};
#[allow(unused_imports)]
use crate::error::AppErrorView;
#[allow(unused_imports)]
use crate::path::laws::{plain_paths_have_no_dots, the_root_comes_first};
#[allow(unused_imports)]
use crate::path::{
    absolute, has_dots, parts, parts_of, pieces, plain_relative, same_parts, toml_file, under, Part,
};
#[allow(unused_imports)]
use crate::pattern::{name_text, pattern_error, project_id_text, repository_text};
#[allow(unused_imports)]
use crate::release::laws::{executable_is_for_someone, found_program};
#[allow(unused_imports)]
use crate::release::Metadata;
#[allow(unused_imports)]
use crate::text::has_control;

verus! {

/// Whether a text begins with a slash.
pub open spec fn from_root(text: Seq<char>) -> bool {
    text.len() > 0 && text[0] == '/'
}

/// Whether an address is that of the machine itself: 127 first, or all zero but a last one.
pub open spec fn own_address(ip: IpAddress) -> bool {
    match ip {
        IpAddress::V4(octets) => octets@[0] == 127,
        IpAddress::V6(segments) => segments@[7] == 1 && forall|i: int|
            0 <= i < 7 ==> #[trigger] segments@[i] == 0,
    }
}

/// The configuration of the service is accepted exactly if it listens on the machine itself, all
/// of its paths are absolute, the Git program was found to be one, and none of its numbers is
/// zero.
pub proof fn accepted_services(path: Seq<char>, config: GlobalConfig, git: Metadata)
    ensures
        global_flaw(path, config, git) is None <==> {
            &&& own_address(config.listen_address.ip)
            &&& from_root(config.database_path@) && from_root(config.state_directory@)
            &&& from_root(config.projects_directory@) && from_root(config.git_command@)
            &&& from_root(config.cargo_command@)
            &&& found_program(git)
            &&& config.git_fetch_attempts > 0 && config.git_fetch_retry_delay_ms > 0
            &&& config.command_timeout_seconds > 0 && config.max_webhook_body_bytes > 0
            &&& config.worker_poll_interval_ms > 0
        },
{
    if let Metadata::Found { mode, .. } = git {
        executable_is_for_someone(mode);
    }
    if let IpAddress::V6(segments) = config.listen_address.ip {
        if own_address(config.listen_address.ip) {
            assert(segments@ =~= seq![0u16, 0, 0, 0, 0, 0, 0, 1]);
        }
    }
}

/// Whether a file was found to be a regular one that its owner may read and write and nobody may
/// do anything else with.
pub open spec fn found_private(metadata: Metadata) -> bool {
    metadata matches Metadata::Found { kind, mode } && kind is File && mode & 0o400 != 0 && mode
        & 0o200 != 0 && mode & 0o177 == 0
}

proof fn private_bits(mode: u32)
    ensures
        mode & 0o777 == 0o600 <==> mode & 0o400 != 0 && mode & 0o200 != 0 && mode & 0o177 == 0,
{
    assert((mode & 0o777 == 0o600) <==> (mode & 0o400 != 0 && mode & 0o200 != 0 && mode & 0o177
        == 0)) by (bit_vector);
}

/// A project file, or an environment file, is taken exactly if it was found to be a regular file
/// that only its owner may read and write.
pub proof fn only_private_files_are_taken(
    config_path: Seq<char>,
    field: Seq<char>,
    path: Seq<char>,
    metadata: Metadata,
)
    ensures
        private_flaw(config_path, field, path, metadata) is None <==> found_private(metadata),
        access_flaw(path, metadata) is None <==> found_private(metadata),
{
    if let Metadata::Found { mode, .. } = metadata {
        private_bits(mode);
    }
}

/// Whether an entry of an environment file is a variable with a name and a value.
pub open spec fn is_variable(entry: Entry<Seq<char>>, pair: (Seq<char>, Seq<char>)) -> bool {
    entry == (Entry::Variable { name: pair.0, value: pair.1 })
}

/// The entries of an environment file give variables exactly if each of them is a variable and no
/// two have the same name; they then are those variables in their order.
pub proof fn variables_are_the_entries(path: Seq<char>, entries: Seq<Entry<Seq<char>>>)
    ensures
        variables(path, entries) matches Ok(list) ==> list.len() == entries.len() && forall|i: int|
            0 <= i < entries.len() ==> is_variable(#[trigger] entries[i], list[i]),
        variables(path, entries) is Ok <==> (forall|i: int|
            0 <= i < entries.len() ==> (#[trigger] entries[i]) is Variable) && (forall|i: int, j: int|
            0 <= i < j < entries.len() ==> (#[trigger] entries[i])->Variable_name != (
            #[trigger] entries[j])->Variable_name),
    decreases entries.len(),
{
    if entries.len() > 0 {
        let before = entries.drop_last();
        let last = entries.len() - 1;
        variables_are_the_entries(path, before);
        assert forall|i: int| 0 <= i < before.len() implies #[trigger] before[i] == entries[i] by {}
        assert(entries[last] == entries.last());
        if let Ok(list) = variables(path, entries) {
            let earlier = variables(path, before)->Ok_0;
            assert forall|i: int| 0 <= i < entries.len() implies is_variable(
                #[trigger] entries[i],
                list[i],
            ) by {
                if i < last {
                    assert(before[i] == entries[i]);
                    assert(list[i] == earlier[i]);
                }
            }
            assert forall|i: int, j: int| 0 <= i < j < entries.len() implies (
            #[trigger] entries[i])->Variable_name != (#[trigger] entries[j])->Variable_name by {
                assert(before[i] == entries[i]);
                if j < last {
                    assert(before[j] == entries[j]);
                } else {
                    assert(is_variable(before[i], earlier[i]));
                    assert(earlier[i].0 != entries[j]->Variable_name);
                }
            }
        }
        if (forall|i: int| 0 <= i < entries.len() ==> (#[trigger] entries[i]) is Variable) && (
        forall|i: int, j: int|
            0 <= i < j < entries.len() ==> (#[trigger] entries[i])->Variable_name != (
            #[trigger] entries[j])->Variable_name) {
            assert forall|i: int| 0 <= i < before.len() implies (#[trigger] before[i])
                is Variable by {
                assert(before[i] == entries[i]);
            }
            assert forall|i: int, j: int| 0 <= i < j < before.len() implies (
            #[trigger] before[i])->Variable_name != (#[trigger] before[j])->Variable_name by {
                assert(before[i] == entries[i] && before[j] == entries[j]);
            }
            let earlier = variables(path, before)->Ok_0;
            assert forall|i: int| 0 <= i < earlier.len() implies (#[trigger] earlier[i]).0
                != entries[last]->Variable_name by {
                assert(is_variable(before[i], earlier[i]));
                assert(before[i] == entries[i]);
            }
            assert(!names(earlier, entries[last]->Variable_name));
        }
    }
}

/// Whether a character is a lowercase letter of ASCII or a digit.
pub open spec fn lower_letter_or_digit(c: char) -> bool {
    ('a' <= c && c <= 'z') || ('0' <= c && c <= '9')
}

/// Whether a character is a letter of ASCII, a digit, an underscore, a dot or a hyphen.
pub open spec fn word_char(c: char) -> bool {
    lower_letter_or_digit(c) || ('A' <= c && c <= 'Z') || c == '_' || c == '.' || c == '-'
}

/// Whether a text is not empty and made of such characters.
pub open spec fn word(text: Seq<char>) -> bool {
    text.len() > 0 && forall|i: int| 0 <= i < text.len() ==> word_char(#[trigger] text[i])
}

/// Whether a text is the name of a package or a program: such characters, with a letter or a digit
/// first.
pub open spec fn program_word(text: Seq<char>) -> bool {
    word(text) && text[0] != '_' && text[0] != '.' && text[0] != '-'
}

/// Identifiers of projects, names of repositories and names of programs are told by their
/// characters.
pub proof fn names_go_by_their_characters(text: Seq<char>)
    ensures
        project_id_text(text) <==> 1 <= text.len() <= 64 && text[0] != '-' && (forall|i: int|
            0 <= i < text.len() ==> lower_letter_or_digit(#[trigger] text[i]) || text[i] == '-'),
        repository_text(text) <==> exists|owner: Seq<char>, name: Seq<char>|
            #![trigger word(owner), word(name)]
            word(owner) && word(name) && text == owner + seq!['/'] + name,
        name_text(text) <==> program_word(text),
{
    if repository_text(text) {
        let i = choose|i: int|
            0 <= i < text.len() && (#[trigger] text[i]) == '/' && crate::pattern::name_chars(
                text.take(i),
            ) && crate::pattern::name_chars(text.skip(i + 1));
        assert(text =~= text.take(i) + seq!['/'] + text.skip(i + 1));
        assert(word(text.take(i)) && word(text.skip(i + 1)));
    }
    if exists|owner: Seq<char>, name: Seq<char>|
        #![trigger word(owner), word(name)]
        word(owner) && word(name) && text == owner + seq!['/'] + name {
        let (owner, name) = choose|owner: Seq<char>, name: Seq<char>|
            #![trigger word(owner), word(name)]
            word(owner) && word(name) && text == owner + seq!['/'] + name;
        let i = owner.len() as int;
        assert(text[i] == '/');
        assert(text.take(i) =~= owner);
        assert(text.skip(i + 1) =~= name);
        assert(crate::pattern::name_chars(owner));
        assert(crate::pattern::name_chars(name));
    }
}

/// Whether a text holds something and no control character.
pub open spec fn printable(text: Seq<char>) -> bool {
    text.len() > 0 && !has_control(text)
}

/// Whether words make a command: there is one, and each is printable.
pub open spec fn runnable(words: Seq<Seq<char>>) -> bool {
    words.len() > 0 && forall|i: int| 0 <= i < words.len() ==> printable(#[trigger] words[i])
}

/// Whether a path is relative and leads only downwards.
pub open spec fn leads_down(path: Seq<char>) -> bool {
    path.len() > 0 && !from_root(path) && !has_dots(path)
}

pub(crate) proof fn the_root_alone()
    ensures
        parts("/"@) == seq![Part::Root],
{
    reveal_strlit("/");
    assert("/"@ =~= seq!['/']);
    let text = seq!['/'];
    assert(text.drop_last() =~= Seq::empty());
    assert(text.last() == '/');
    assert(pieces(text.drop_last()) =~= seq![Seq::empty()]);
    assert(pieces(text) =~= seq![Seq::<char>::empty(), Seq::<char>::empty()]);
    let list = pieces(text);
    assert(list.drop_last() =~= seq![Seq::<char>::empty()]);
    assert(list.drop_last().drop_last() =~= Seq::empty());
    assert(parts_of(list.drop_last().drop_last()) =~= Seq::empty());
    assert(parts_of(list.drop_last()) =~= Seq::empty());
    assert(parts_of(list) =~= Seq::empty());
    assert(parts(text) =~= seq![Part::Root]);
}

/// The place of the current link is accepted exactly if it is absolute, is not the root, has
/// neither `.` nor `..` in it, and nothing or a symbolic link was found there.
pub proof fn accepted_places(path: Seq<char>, value: Seq<char>, metadata: Metadata)
    ensures
        current_path_flaw(path, value, metadata) is None <==> {
            &&& from_root(value) && parts(value).len() > 1 && !has_dots(value)
            &&& metadata is Missing || (metadata matches Metadata::Found { kind, .. } && kind
                is Symlink)
        },
{
    the_root_alone();
    the_root_comes_first(value);
    if absolute(value) && parts(value).len() == 1 {
        assert(parts(value) =~= seq![Part::Root]);
    }
}

proof fn accepted_commands(path: Seq<char>, commands: Seq<Seq<Seq<char>>>)
    ensures
        commands_flaw(path, commands) is None <==> forall|i: int|
            0 <= i < commands.len() ==> runnable(#[trigger] commands[i]),
    decreases commands.len(),
{
    if commands.len() > 0 {
        let before = commands.drop_last();
        let last = commands.len() - 1;
        accepted_commands(path, before);
        assert(commands[last] == commands.last());
        accepted_command(
            path,
            crate::config::load::entry_field("reload.commands"@, last, ""@),
            commands.last(),
        );
        if forall|i: int| 0 <= i < commands.len() ==> runnable(#[trigger] commands[i]) {
            assert forall|i: int| 0 <= i < before.len() implies runnable(#[trigger] before[i]) by {
                assert(before[i] == commands[i]);
            }
        }
        if commands_flaw(path, commands) is None {
            assert forall|i: int| 0 <= i < commands.len() implies runnable(#[trigger] commands[i]) by {
                if i < last {
                    assert(before[i] == commands[i]);
                }
            }
        }
    }
}

/// A command is accepted exactly if it has a word and all of its words are printable.
pub proof fn accepted_command(path: Seq<char>, field: Seq<char>, words: Seq<Seq<char>>)
    ensures
        command_flaw(path, field, words) is None <==> runnable(words),
{
    if runnable(words) {
        assert forall|i: int| 0 <= i < words.len() implies !((#[trigger] words[i]).len() == 0
            || has_control(words[i])) by {
            assert(printable(words[i]));
        }
    }
}

/// Whether programs have names and are told apart by those of the programs.
pub open spec fn programs_fit(binaries: Seq<RustBinary>) -> bool {
    &&& forall|i: int|
        0 <= i < binaries.len() ==> program_word((#[trigger] binaries[i]).package@)
            && program_word(binaries[i].binary@)
    &&& forall|i: int, j: int|
        0 <= i < j < binaries.len() ==> (#[trigger] binaries[i]).binary@ != (
        #[trigger] binaries[j]).binary@
}

proof fn accepted_programs(path: Seq<char>, binaries: Seq<RustBinary>)
    ensures
        binaries_flaw(path, binaries) is None <==> programs_fit(binaries),
    decreases binaries.len(),
{
    if binaries.len() > 0 {
        let before = binaries.drop_last();
        let last = binaries.len() - 1;
        accepted_programs(path, before);
        assert(binaries[last] == binaries.last());
        names_go_by_their_characters(binaries.last().package@);
        names_go_by_their_characters(binaries.last().binary@);
        assert forall|i: int| 0 <= i < before.len() implies #[trigger] before[i] == binaries[i] by {}
        if binaries_flaw(path, binaries) is None {
            assert forall|i: int| 0 <= i < binaries.len() implies program_word(
                (#[trigger] binaries[i]).package@,
            ) && program_word(binaries[i].binary@) by {
                if i < last {
                    assert(before[i] == binaries[i]);
                }
            }
            assert forall|i: int, j: int| 0 <= i < j < binaries.len() implies (
            #[trigger] binaries[i]).binary@ != (#[trigger] binaries[j]).binary@ by {
                assert(before[i] == binaries[i]);
                if j < last {
                    assert(before[j] == binaries[j]);
                } else {
                    assert(!builds(before, binaries[j].binary@));
                }
            }
        }
        if programs_fit(binaries) {
            assert forall|i: int| 0 <= i < before.len() implies program_word(
                (#[trigger] before[i]).package@,
            ) && program_word(before[i].binary@) && before[i].binary@ != binaries[last].binary@ by {
                assert(before[i] == binaries[i]);
            }
            assert forall|i: int, j: int| 0 <= i < j < before.len() implies (
            #[trigger] before[i]).binary@ != (#[trigger] before[j]).binary@ by {
                assert(before[i] == binaries[i] && before[j] == binaries[j]);
            }
            assert(programs_fit(before));
            assert(!builds(before, binaries[last].binary@));
        }
    }
}

/// Whether paths lead only downwards, none is that of a program, and none leads to or below
/// another.
pub open spec fn further_paths_fit(paths: Seq<Seq<char>>, binaries: Seq<RustBinary>) -> bool {
    &&& forall|i: int| 0 <= i < paths.len() ==> leads_down(#[trigger] paths[i])
    &&& forall|i: int, k: int|
        0 <= i < paths.len() && 0 <= k < binaries.len() ==> parts(#[trigger] paths[i]) != parts(
            (#[trigger] binaries[k]).binary@,
        )
    &&& forall|i: int, j: int|
        0 <= i < j < paths.len() ==> !under(#[trigger] paths[i], #[trigger] paths[j]) && !under(
            paths[j],
            paths[i],
        )
}

proof fn accepted_further_paths(path: Seq<char>, paths: Seq<Seq<char>>, binaries: Seq<RustBinary>)
    ensures
        included_flaw(path, paths, binaries) is None <==> further_paths_fit(paths, binaries),
    decreases paths.len(),
{
    if paths.len() > 0 {
        let before = paths.drop_last();
        let last = paths.len() - 1;
        accepted_further_paths(path, before, binaries);
        assert(paths[last] == paths.last());
        plain_paths_have_no_dots(paths.last());
        assert forall|i: int| 0 <= i < before.len() implies #[trigger] before[i] == paths[i] by {}
        if included_flaw(path, paths, binaries) is None {
            assert(further_paths_fit(before, binaries));
            assert(!program_path(binaries, paths[last]));
            assert(!overlaps_one(before, paths[last]));
            assert forall|i: int| 0 <= i < paths.len() implies leads_down(#[trigger] paths[i]) by {
                if i < last {
                    assert(before[i] == paths[i]);
                }
            }
            assert forall|i: int, k: int|
                0 <= i < paths.len() && 0 <= k < binaries.len() implies parts(#[trigger] paths[i])
                != parts((#[trigger] binaries[k]).binary@) by {
                if i < last {
                    assert(before[i] == paths[i]);
                }
            }
            assert forall|i: int, j: int| 0 <= i < j < paths.len() implies !under(
                #[trigger] paths[i],
                #[trigger] paths[j],
            ) && !under(paths[j], paths[i]) by {
                assert(before[i] == paths[i]);
                if j < last {
                    assert(before[j] == paths[j]);
                } else {
                    assert(!overlap(paths[last], before[i]));
                }
            }
        }
        if further_paths_fit(paths, binaries) {
            assert forall|i: int| 0 <= i < before.len() implies leads_down(#[trigger] before[i])
                && !overlap(paths[last], before[i]) by {
                assert(before[i] == paths[i]);
            }
            assert forall|i: int, k: int|
                0 <= i < before.len() && 0 <= k < binaries.len() implies parts(#[trigger] before[i])
                != parts((#[trigger] binaries[k]).binary@) by {
                assert(before[i] == paths[i]);
            }
            assert forall|i: int, j: int| 0 <= i < j < before.len() implies !under(
                #[trigger] before[i],
                #[trigger] before[j],
            ) && !under(before[j], before[i]) by {
                assert(before[i] == paths[i] && before[j] == paths[j]);
            }
            assert(further_paths_fit(before, binaries));
            assert(leads_down(paths[last]));
            assert(!program_path(binaries, paths[last]));
            assert(!overlaps_one(before, paths[last]));
        }
    }
}

/// What a release is made of is accepted exactly if its paths lead only downwards; for one that is
/// built from source, also if there is a program, the programs have names and are told apart, no
/// further path is that of a program or overlaps another, and the environment file, where there is
/// one, is named by an absolute path and can be taken and read.
pub proof fn accepted_deployments(
    path: Seq<char>,
    config: DeploymentConfig,
    environment: EnvironmentSource,
)
    ensures
        deployment_flaw(path, config, environment) is None <==> match config {
            DeploymentConfig::Static { entry_file } => leads_down(entry_file@),
            DeploymentConfig::Binary { binary_path } => leads_down(binary_path@),
            DeploymentConfig::Rust { cargo_manifest, binaries, include_paths, environment_file } => {
                &&& leads_down(cargo_manifest@)
                &&& binaries@.len() > 0 && programs_fit(binaries@)
                &&& further_paths_fit(include_paths.deep_view(), binaries@)
                &&& environment_file matches Some(file) ==> from_root(file@) && found_private(
                    environment.metadata,
                ) && (environment.content matches FileBytes::Read(bytes) && variables(
                    file@,
                    crate::environment::file_entries(bytes@, Seq::empty()),
                ) is Ok)
            },
        },
{
    match config {
        DeploymentConfig::Static { entry_file } => {
            plain_paths_have_no_dots(entry_file@);
        },
        DeploymentConfig::Binary { binary_path } => {
            plain_paths_have_no_dots(binary_path@);
        },
        DeploymentConfig::Rust { cargo_manifest, binaries, include_paths, environment_file } => {
            plain_paths_have_no_dots(cargo_manifest@);
            accepted_programs(path, binaries@);
            accepted_further_paths(path, include_paths.deep_view(), binaries@);
            if let Some(file) = environment_file {
                only_private_files_are_taken(path, ""@, file@, environment.metadata);
            }
        },
    }
}

/// Whether the texts and numbers of a project are as they must be.
pub open spec fn identity_fits(config: ProjectConfig, current: Metadata) -> bool {
    &&& 1 <= config.project_id@.len() <= 64 && config.project_id@[0] != '-'
    &&& forall|i: int|
        0 <= i < config.project_id@.len() ==> lower_letter_or_digit(
            #[trigger] config.project_id@[i],
        ) || config.project_id@[i] == '-'
    &&& from_root(config.current_path@) && parts(config.current_path@).len() > 1 && !has_dots(
        config.current_path@,
    )
    &&& current is Missing || (current matches Metadata::Found { kind, .. } && kind is Symlink)
    &&& exists|owner: Seq<char>, name: Seq<char>|
        #![trigger word(owner), word(name)]
        word(owner) && word(name) && config.repository_full_name@ == owner + seq!['/'] + name
    &&& printable(config.repository_url@) && printable(config.webhook_token@)
    &&& config.tag_pattern@.len() > 0 && config.tag_pattern@[0] == '^'
        && config.tag_pattern@.last() == '$'
    &&& pattern_error(config.tag_pattern@) is None
    &&& config.retain_releases > 0
}

/// Whether releases are probed as they must be: over HTTP, at least once, and with times.
pub open spec fn health_fits(config: HealthCheckConfig) -> bool {
    &&& url_parts(config.url@) matches Ok((scheme, _)) && (scheme == "http"@ || scheme == "https"@)
    &&& config.attempts > 0 && config.interval_ms > 0 && config.timeout_ms > 0
}

/// A project is accepted exactly if its texts and numbers, the way in which it is probed, what its
/// releases are made of, and its commands, where it has any, are as they must be.
pub proof fn accepted_projects(
    path: Seq<char>,
    config: ProjectConfig,
    current: Metadata,
    environment: EnvironmentSource,
)
    ensures
        project_flaw(path, config, current, environment) is None <==> {
            &&& identity_fits(config, current)
            &&& health_fits(config.health_check)
            &&& deployment_flaw(path, config.deployment, environment) is None
            &&& config.migration matches Some(words) ==> runnable(words.deep_view())
            &&& config.reload matches Some(commands) ==> commands@.len() > 0 && (forall|i: int|
                0 <= i < commands.deep_view().len() ==> runnable(
                    #[trigger] commands.deep_view()[i],
                ))
        },
{
    names_go_by_their_characters(config.project_id@);
    names_go_by_their_characters(config.repository_full_name@);
    accepted_places(path, config.current_path@, current);
    if let Some(words) = config.migration {
        accepted_command(path, "migration.command"@, words.deep_view());
    }
    if let Some(commands) = config.reload {
        accepted_commands(path, commands.deep_view());
    }
}

proof fn no_holder_means_no_place(known: Seq<Place>, path: Seq<char>)
    ensures
        path_holder(known, path) is None <==> forall|i: int|
            0 <= i < known.len() ==> parts((#[trigger] known[i]).current_path) != parts(path),
    decreases known.len(),
{
    if known.len() > 0 {
        let before = known.drop_last();
        let last = known.len() - 1;
        no_holder_means_no_place(before, path);
        assert(known[last] == known.last());
        if path_holder(known, path) is None {
            assert forall|i: int| 0 <= i < known.len() implies parts(
                (#[trigger] known[i]).current_path,
            ) != parts(path) by {
                if i < last {
                    assert(before[i] == known[i]);
                }
            }
        }
        if forall|i: int|
            0 <= i < known.len() ==> parts((#[trigger] known[i]).current_path) != parts(path) {
            assert forall|i: int| 0 <= i < before.len() implies parts(
                (#[trigger] before[i]).current_path,
            ) != parts(path) by {
                assert(before[i] == known[i]);
            }
        }
    }
}

/// Whether a project file is private, says what a project is, and says it as it must be.
pub open spec fn source_fits(source: ProjectSource) -> bool {
    found_private(source.metadata) && (source.text matches ProjectText::Parsed(config)
        && project_flaw(source.path@, config, source.current, source.environment) is None)
}

/// Whether two project files name different projects and different places of the current link.
pub open spec fn sources_differ(left: ProjectSource, right: ProjectSource) -> bool {
    match (left.text, right.text) {
        (ProjectText::Parsed(one), ProjectText::Parsed(other)) => one.project_id@
            != other.project_id@ && parts(one.current_path@) != parts(other.current_path@),
        _ => false,
    }
}

proof fn accepted_sources(sources: Seq<ProjectSource>)
    ensures
        sources_flaw(sources) is None <==> (forall|i: int|
            0 <= i < sources.len() ==> source_fits(#[trigger] sources[i])) && (forall|i: int, j: int|
            0 <= i < j < sources.len() ==> sources_differ(
                #[trigger] sources[i],
                #[trigger] sources[j],
            )),
    decreases sources.len(),
{
    if sources.len() > 0 {
        let before = sources.drop_last();
        let last = sources.len() - 1;
        let source = sources.last();
        let known = places(before);
        accepted_sources(before);
        assert(sources[last] == source);
        only_private_files_are_taken(source.path@, "projectConfig"@, source.path@, source.metadata);
        assert(source_flaw(source) is None <==> source_fits(source));
        no_holder_means_no_place(known, place_of(source).current_path);
        assert forall|i: int| 0 <= i < before.len() implies #[trigger] before[i] == sources[i]
            && known[i] == place_of(sources[i]) by {}
        if sources_flaw(sources) is None {
            assert forall|i: int| 0 <= i < sources.len() implies source_fits(
                #[trigger] sources[i],
            ) by {
                if i < last {
                    assert(before[i] == sources[i]);
                }
            }
            assert forall|i: int, j: int| 0 <= i < j < sources.len() implies sources_differ(
                #[trigger] sources[i],
                #[trigger] sources[j],
            ) by {
                assert(before[i] == sources[i]);
                if j < last {
                    assert(before[j] == sources[j]);
                } else {
                    assert(known[i] == place_of(sources[i]));
                    assert(source_fits(sources[i]));
                    assert(!id_used(known, place_of(source).project_id));
                }
            }
        }
        if (forall|i: int| 0 <= i < sources.len() ==> source_fits(#[trigger] sources[i])) && (
        forall|i: int, j: int|
            0 <= i < j < sources.len() ==> sources_differ(
                #[trigger] sources[i],
                #[trigger] sources[j],
            )) {
            assert forall|i: int| 0 <= i < before.len() implies source_fits(#[trigger] before[i]) by {
                assert(before[i] == sources[i]);
            }
            assert forall|i: int, j: int| 0 <= i < j < before.len() implies sources_differ(
                #[trigger] before[i],
                #[trigger] before[j],
            ) by {
                assert(before[i] == sources[i] && before[j] == sources[j]);
            }
            assert forall|i: int| 0 <= i < known.len() implies (#[trigger] known[i]).project_id
                != place_of(source).project_id && parts(known[i].current_path) != parts(
                place_of(source).current_path,
            ) by {
                assert(before[i] == sources[i]);
                assert(sources_differ(sources[i], sources[last]));
            }
            assert(!id_used(known, place_of(source).project_id));
        }
    }
}

/// A configuration is accepted exactly if that of the service is, its project files could be
/// listed and each of them is accepted, no two of them name the same project or the same place of
/// the current link, and the Cargo program was found to be one where a project is built from
/// source.
pub proof fn accepted_configurations(
    path: Seq<char>,
    global: GlobalConfig,
    git: Metadata,
    listing: Listing,
    cargo: Metadata,
)
    ensures
        config_flaw(path, global, git, listing, cargo) is None <==> {
            &&& global_flaw(path, global, git) is None
            &&& listing matches Listing::Sources(sources) && {
                &&& forall|i: int|
                    0 <= i < sources@.len() ==> source_fits(#[trigger] sources@[i])
                &&& forall|i: int, j: int|
                    0 <= i < j < sources@.len() ==> sources_differ(
                        #[trigger] sources@[i],
                        #[trigger] sources@[j],
                    )
                &&& (exists|i: int|
                    0 <= i < sources@.len() && ((#[trigger] sources@[i]).text matches
                        ProjectText::Parsed(config) && config.deployment is Rust)) ==> found_program(
                    cargo,
                )
            }
        },
{
    accepted_services(path, global, git);
    if let Metadata::Found { mode, .. } = cargo {
        executable_is_for_someone(mode);
    }
    if let Listing::Sources(sources) = listing {
        accepted_sources(sources@);
        if exists|i: int|
            0 <= i < sources@.len() && ((#[trigger] sources@[i]).text matches ProjectText::Parsed(
                config,
            ) && config.deployment is Rust) {
            let i = choose|i: int|
                0 <= i < sources@.len() && ((#[trigger] sources@[i]).text matches
                    ProjectText::Parsed(config) && config.deployment is Rust);
            assert(crate::config::project::from_source(sources@[i]));
        }
        if crate::config::project::any_from_source(sources@) {
            let i = choose|i: int|
                0 <= i < sources@.len() && crate::config::project::from_source(
                    #[trigger] sources@[i],
                );
            assert(sources@[i].text matches ProjectText::Parsed(config) && config.deployment
                is Rust);
        }
    }
}

/// The project files among the entries of a directory are exactly those entries that have the
/// extension of one, in their order.
pub proof fn project_files_have_the_extension(entries: Seq<Seq<char>>, path: Seq<char>)
    ensures
        project_paths(entries).contains(path) <==> entries.contains(path) && toml_file(path),
        project_paths(entries) == entries.filter(|entry: Seq<char>| toml_file(entry)),
    decreases entries.len(),
{
    reveal(Seq::filter);
    let wanted = |entry: Seq<char>| toml_file(entry);
    if entries.len() > 0 {
        let before = entries.drop_last();
        project_files_have_the_extension(before, path);
        assert(entries[entries.len() - 1] == entries.last());
        let earlier = project_paths(before);
        let all = project_paths(entries);
        if all.contains(path) {
            let i = choose|i: int| 0 <= i < all.len() && all[i] == path;
            if i < earlier.len() {
                assert(earlier[i] == path);
                let k = choose|k: int| 0 <= k < before.len() && before[k] == path;
                assert(entries[k] == path);
            }
        }
        if entries.contains(path) && toml_file(path) {
            let i = choose|i: int| 0 <= i < entries.len() && entries[i] == path;
            if i < before.len() {
                assert(before[i] == path);
                let k = choose|k: int| 0 <= k < earlier.len() && earlier[k] == path;
                assert(all[k] == path);
            } else {
                assert(all[all.len() - 1] == path);
            }
        }
    }
}

/// Whether a command has the words of a list, the first as its program.
pub open spec fn spells(words: Seq<Seq<char>>, command: ConfiguredCommand) -> bool {
    words == seq![command.program@] + command.args.deep_view()
}

/// A project is loaded as it is written: every text and number is taken over, and each command has
/// its words in their order.
pub proof fn projects_are_loaded_as_written(
    path: Seq<char>,
    config: ProjectConfig,
    project: Project,
)
    requires
        project_of(path, config, project),
    ensures
        project.config_path@ == path && project.project_id@ == config.project_id@,
        project.current_path@ == config.current_path@,
        project.repository_full_name@ == config.repository_full_name@,
        project.repository_url@ == config.repository_url@,
        project.webhook_token@ == config.webhook_token@,
        project.tag_pattern@ == config.tag_pattern@,
        project.retain_releases == config.retain_releases,
        project.health_check.attempts == config.health_check.attempts,
        project.health_check.interval_ms == config.health_check.interval_ms,
        project.health_check.timeout_ms == config.health_check.timeout_ms,
        url_parts(config.health_check.url@) matches Ok((_, printed)) && project.health_check.url@
            == printed,
        match (config.deployment, project.deployment) {
            (
                DeploymentConfig::Static { entry_file },
                DeploymentTarget::Static { entry_file: taken },
            ) => taken@ == entry_file@,
            (
                DeploymentConfig::Binary { binary_path },
                DeploymentTarget::Binary { binary_path: taken },
            ) => taken@ == binary_path@,
            (
                DeploymentConfig::Rust { cargo_manifest, binaries, include_paths, environment_file },
                DeploymentTarget::Rust {
                    cargo_manifest: manifest,
                    binaries: programs,
                    include_paths: paths,
                    environment_file: file,
                },
            ) => manifest@ == cargo_manifest@ && programs@ == binaries@ && paths@ == include_paths@
                && file == environment_file,
            _ => false,
        },
        project.migration is Some <==> config.migration is Some,
        config.migration matches Some(words) ==> (project.migration matches Some(command)
            && spells(words.deep_view(), command)),
        config.reload is None ==> project.reload@.len() == 0,
        config.reload matches Some(commands) ==> project.reload@.len() == commands@.len() && (
        forall|i: int|
            0 <= i < commands@.len() ==> spells(
                commands.deep_view()[i],
                #[trigger] project.reload@[i],
            )),
{
    if let (Some(words), Some(command)) = (config.migration, project.migration) {
        a_command_is_its_words(words.deep_view(), command);
    }
    if let Some(commands) = config.reload {
        assert forall|i: int| 0 <= i < commands@.len() implies spells(
            commands.deep_view()[i],
            #[trigger] project.reload@[i],
        ) by {
            assert(command_of(commands.deep_view()[i], project.reload@[i]));
            a_command_is_its_words(commands.deep_view()[i], project.reload@[i]);
        }
    }
}

proof fn a_command_is_its_words(words: Seq<Seq<char>>, command: ConfiguredCommand)
    requires
        command_of(words, command),
    ensures
        spells(words, command),
{
    assert(words =~= seq![words[0]] + words.drop_first());
}

/// The first error of a list in which a place without one stands for what is well.
pub open spec fn first_error(list: Seq<Option<AppErrorView>>) -> Option<AppErrorView>
    decreases list.len(),
{
    if list.len() == 0 {
        None
    } else if list[0] is Some {
        list[0]
    } else {
        first_error(list.drop_first())
    }
}

proof fn first_errors_come_in_order(list: Seq<Option<AppErrorView>>, index: int)
    requires
        0 <= index < list.len(),
        list[index] is Some,
        forall|i: int| 0 <= i < index ==> (#[trigger] list[i]) is None,
    ensures
        first_error(list) == list[index],
    decreases index,
{
    if index > 0 {
        let rest = list.drop_first();
        assert(list[0] is None);
        assert forall|i: int| 0 <= i < index - 1 implies (#[trigger] rest[i]) is None by {
            assert(rest[i] == list[i + 1]);
        }
        first_errors_come_in_order(rest, index - 1);
    }
}

proof fn no_error_in_a_sound_list(list: Seq<Option<AppErrorView>>)
    requires
        forall|i: int| 0 <= i < list.len() ==> (#[trigger] list[i]) is None,
    ensures
        first_error(list) is None,
    decreases list.len(),
{
    if list.len() > 0 {
        let rest = list.drop_first();
        assert forall|i: int| 0 <= i < rest.len() implies (#[trigger] rest[i]) is None by {
            assert(rest[i] == list[i + 1]);
        }
        assert(list[0] is None);
        no_error_in_a_sound_list(rest);
    }
}

/// Of several faults in the configuration of the service the first is reported, in the order of
/// its settings.
pub proof fn service_faults_come_in_order(path: Seq<char>, config: GlobalConfig, git: Metadata)
    ensures
        global_flaw(path, config, git) == first_error(
            seq![
                listen_flaw(path, config.listen_address),
                absolute_flaw(path, "databasePath"@, config.database_path@),
                absolute_flaw(path, "stateDirectory"@, config.state_directory@),
                absolute_flaw(path, "projectsDirectory"@, config.projects_directory@),
                executable_flaw(path, "gitCommand"@, config.git_command@, git),
                absolute_flaw(path, "cargoCommand"@, config.cargo_command@),
                positive_flaw(path, "gitFetchAttempts"@, config.git_fetch_attempts as u64),
                positive_flaw(path, "gitFetchRetryDelayMs"@, config.git_fetch_retry_delay_ms),
                positive_flaw(path, "commandTimeoutSeconds"@, config.command_timeout_seconds),
                positive_flaw(
                    path,
                    "maxWebhookBodyBytes"@,
                    config.max_webhook_body_bytes as u64,
                ),
                positive_flaw(path, "workerPollIntervalMs"@, config.worker_poll_interval_ms),
            ],
        ),
{
    let list = seq![
        listen_flaw(path, config.listen_address),
        absolute_flaw(path, "databasePath"@, config.database_path@),
        absolute_flaw(path, "stateDirectory"@, config.state_directory@),
        absolute_flaw(path, "projectsDirectory"@, config.projects_directory@),
        executable_flaw(path, "gitCommand"@, config.git_command@, git),
        absolute_flaw(path, "cargoCommand"@, config.cargo_command@),
        positive_flaw(path, "gitFetchAttempts"@, config.git_fetch_attempts as u64),
        positive_flaw(path, "gitFetchRetryDelayMs"@, config.git_fetch_retry_delay_ms),
        positive_flaw(path, "commandTimeoutSeconds"@, config.command_timeout_seconds),
        positive_flaw(path, "maxWebhookBodyBytes"@, config.max_webhook_body_bytes as u64),
        positive_flaw(path, "workerPollIntervalMs"@, config.worker_poll_interval_ms),
    ];
    each_fault_has_its_place(list);
}

/// What is wrong with a number of releases to retain: none would be retained.
pub open spec fn retention_flaw(path: Seq<char>, retain_releases: usize) -> Option<AppErrorView> {
    if retain_releases > 0 {
        None
    } else {
        Some(
            AppErrorView::Config { path, reason: "retainReleases must be greater than zero"@ },
        )
    }
}

/// Of several faults in a project file the first is reported, in the order of its settings.
pub proof fn project_faults_come_in_order(
    path: Seq<char>,
    config: ProjectConfig,
    current: Metadata,
    environment: EnvironmentSource,
)
    ensures
        project_flaw(path, config, current, environment) == first_error(
            seq![
                project_id_flaw(path, config.project_id@),
                current_path_flaw(path, config.current_path@, current),
                repository_flaw(path, config.repository_full_name@),
                printable_flaw(path, "repositoryUrl"@, config.repository_url@),
                printable_flaw(path, "webhookToken"@, config.webhook_token@),
                tag_pattern_flaw(path, config.tag_pattern@, pattern_error(config.tag_pattern@)),
                retention_flaw(path, config.retain_releases),
                health_flaw(path, config.health_check, url_parts(config.health_check.url@)),
                deployment_flaw(path, config.deployment, environment),
                migration_flaw(path, config.migration.deep_view()),
                reload_flaw(path, config.reload.deep_view()),
            ],
        ),
{
    let list = seq![
        project_id_flaw(path, config.project_id@),
        current_path_flaw(path, config.current_path@, current),
        repository_flaw(path, config.repository_full_name@),
        printable_flaw(path, "repositoryUrl"@, config.repository_url@),
        printable_flaw(path, "webhookToken"@, config.webhook_token@),
        tag_pattern_flaw(path, config.tag_pattern@, pattern_error(config.tag_pattern@)),
        retention_flaw(path, config.retain_releases),
        health_flaw(path, config.health_check, url_parts(config.health_check.url@)),
        deployment_flaw(path, config.deployment, environment),
        migration_flaw(path, config.migration.deep_view()),
        reload_flaw(path, config.reload.deep_view()),
    ];
    each_fault_has_its_place(list);
}

proof fn each_fault_has_its_place(list: Seq<Option<AppErrorView>>)
    ensures
        list.len() == 11 ==> first_error(list) == first_of(
            first_of(first_of(list[0], list[1]), first_of(list[2], list[3])),
            first_of(
                first_of(first_of(list[4], list[5]), first_of(list[6], list[7])),
                first_of(first_of(list[8], list[9]), list[10]),
            ),
        ),
{
    if list.len() == 11 {
        if exists|i: int| 0 <= i < 11 && list[i] is Some {
            if list[0] is Some {
                first_errors_come_in_order(list, 0);
            } else if list[1] is Some {
                first_errors_come_in_order(list, 1);
            } else if list[2] is Some {
                first_errors_come_in_order(list, 2);
            } else if list[3] is Some {
                first_errors_come_in_order(list, 3);
            } else if list[4] is Some {
                first_errors_come_in_order(list, 4);
            } else if list[5] is Some {
                first_errors_come_in_order(list, 5);
            } else if list[6] is Some {
                first_errors_come_in_order(list, 6);
            } else if list[7] is Some {
                first_errors_come_in_order(list, 7);
            } else if list[8] is Some {
                first_errors_come_in_order(list, 8);
            } else if list[9] is Some {
                first_errors_come_in_order(list, 9);
            } else {
                first_errors_come_in_order(list, 10);
            }
        } else {
            assert forall|i: int| 0 <= i < list.len() implies (#[trigger] list[i]) is None by {}
            no_error_in_a_sound_list(list);
        }
    }
}

} // verus!
