//! What holds of what the commands write.
use vstd::prelude::*;

#[allow(unused_imports)]
use crate::cli::{
    addition, binary_section, default_current_path, health_section, project_settings, project_text,
    rust_section, static_section, AddPlanView, DeploymentType,
};
#[allow(unused_imports)]
use crate::config::load::{binaries_flaw, builds, url_parts, DeploymentConfig, ProjectConfig};
#[allow(unused_imports)]
use crate::config::project::{project_of, source_flaw, ProjectSource, ProjectText};
#[allow(unused_imports)]
use crate::config::Project;
#[allow(unused_imports)]
use crate::error::AppErrorView;
#[allow(unused_imports)]
use crate::path::{a_plain_name_is_one_part, joined_names_are_parts, plain_name, plain_relative};
#[allow(unused_imports)]
use crate::pattern::{name_char, name_chars, name_text, pattern_error, repository_text};
#[allow(unused_imports)]
use crate::release::Metadata;
#[allow(unused_imports)]
use crate::stamp::hex_id;
#[allow(unused_imports)]
use crate::text::{has_control, is_control, is_lower_hex, joined};

verus! {

/// Whether a project file says what releases of a new project are made of.
pub open spec fn new_deployment(deployment_type: DeploymentType, config: DeploymentConfig) -> bool {
    match (deployment_type, config) {
        (DeploymentType::Static, DeploymentConfig::Static { entry_file }) => entry_file@
            == "index.html"@,
        (DeploymentType::Binary, DeploymentConfig::Binary { binary_path }) => binary_path@
            == "bin/my-service"@,
        (
            DeploymentType::Rust,
            DeploymentConfig::Rust { cargo_manifest, binaries, include_paths, environment_file },
        ) => {
            &&& cargo_manifest@ == "Cargo.toml"@
            &&& binaries@.len() == 1
            &&& binaries@[0].package@ == "my-service"@
            &&& binaries@[0].binary@ == "my-service"@
            &&& include_paths@.len() == 0
            &&& environment_file is None
        },
        _ => false,
    }
}

/// Whether a project file says of a new project what its text spells out.
pub open spec fn new_project(
    project_id: Seq<char>,
    current_path: Seq<char>,
    token: Seq<char>,
    deployment_type: DeploymentType,
    config: ProjectConfig,
) -> bool {
    &&& config.project_id@ == project_id
    &&& config.current_path@ == current_path
    &&& config.repository_full_name@ == "owner/repository"@
    &&& config.repository_url@ == "https://gitee.com/owner/repository.git"@
    &&& config.webhook_token@ == token
    &&& config.tag_pattern@ == "^deploy-[0-9]{8}-[0-9]{6}$"@
    &&& config.retain_releases == 3
    &&& config.health_check.url@ == "https://example.invalid/"@
    &&& config.health_check.attempts == 5
    &&& config.health_check.interval_ms == 2000
    &&& config.health_check.timeout_ms == 5000
    &&& new_deployment(deployment_type, config.deployment)
    &&& config.migration is None
    &&& config.reload is None
}

/// The text that spells out the values of a project file with at most one program to build.
pub open spec fn spelled(config: ProjectConfig) -> Seq<char> {
    project_settings(
        config.project_id@,
        config.current_path@,
        config.repository_full_name@,
        config.repository_url@,
        config.webhook_token@,
        config.tag_pattern@,
        config.retain_releases as nat,
    ) + health_section(
        config.health_check.url@,
        config.health_check.attempts as nat,
        config.health_check.interval_ms as nat,
        config.health_check.timeout_ms as nat,
    ) + "\n[deployment]\n"@ + match config.deployment {
        DeploymentConfig::Static { entry_file } => static_section(entry_file@),
        DeploymentConfig::Binary { binary_path } => binary_section(binary_path@),
        DeploymentConfig::Rust { cargo_manifest, binaries, .. } => rust_section(
            cargo_manifest@,
            binaries@[0].package@,
            binaries@[0].binary@,
        ),
    }
}

/// The text of a new project file spells out the values that its project file says.
pub proof fn a_new_project_file_spells_out_its_values(
    project_id: Seq<char>,
    current_path: Seq<char>,
    token: Seq<char>,
    deployment_type: DeploymentType,
    config: ProjectConfig,
)
    requires
        new_project(project_id, current_path, token, deployment_type, config),
    ensures
        project_text(project_id, current_path, token, deployment_type) == spelled(config),
{
}

proof fn name_is_plain(name: Seq<char>)
    requires
        name_chars(name),
        name[0] != '.',
    ensures
        plain_name(name),
{
    assert(name != seq!['.'] && name != seq!['.', '.']) by {
        assert(seq!['.'][0] == '.');
        assert(seq!['.', '.'][0] == '.');
    }
    if name.contains('/') {
        let i = choose|i: int| 0 <= i < name.len() && name[i] == '/';
        assert(name_char(name[i]));
    }
}

proof fn new_deployments_are_relative()
    ensures
        plain_relative("index.html"@),
        plain_relative("bin/my-service"@),
        plain_relative("Cargo.toml"@),
        name_text("my-service"@),
{
    reveal_strlit("index.html");
    reveal_strlit("bin/my-service");
    reveal_strlit("Cargo.toml");
    reveal_strlit("my-service");
    reveal_strlit("bin");
    reveal_strlit("/");
    name_is_plain("index.html"@);
    a_plain_name_is_one_part("index.html"@);
    name_is_plain("Cargo.toml"@);
    a_plain_name_is_one_part("Cargo.toml"@);
    name_is_plain("bin"@);
    name_is_plain("my-service"@);
    let names = seq!["bin"@, "my-service"@];
    joined_names_are_parts(names);
    reveal_with_fuel(joined, 3);
    assert(names.drop_last() =~= seq!["bin"@]);
    assert(joined(names, "/"@) =~= "bin/my-service"@);
}

proof fn new_repository_is_valid()
    ensures
        repository_text("owner/repository"@),
        !has_control("https://gitee.com/owner/repository.git"@),
        "https://gitee.com/owner/repository.git"@.len() > 0,
{
    reveal_strlit("owner/repository");
    reveal_strlit("https://gitee.com/owner/repository.git");
    let text = "owner/repository"@;
    assert(text[5] == '/');
    assert(name_chars(text.take(5)));
    assert(name_chars(text.skip(6)));
}

proof fn tokens_are_printable(first: Seq<char>, second: Seq<char>)
    requires
        hex_id(first),
        hex_id(second),
    ensures
        (first + second).len() == 64,
        !has_control(first + second),
{
    let token = first + second;
    assert forall|i: int| 0 <= i < token.len() implies !is_control(#[trigger] token[i]) by {
        if i < 32 {
            assert(is_lower_hex(first[i]));
        } else {
            assert(is_lower_hex(second[i - 32]));
        }
    }
}

/// A project that was added loads: where the file that adding it writes can be read and written by
/// its owner alone, and there is nothing or a link in the place of its current link, what its text
/// spells out has no flaw. The project has the identifier that was asked for, the token, the
/// current link where it was asked for or in its place in the state directory, and releases of
/// what was asked for.
pub proof fn an_added_project_loads(
    project_id: Seq<char>,
    deployment_type: DeploymentType,
    requested: Option<Seq<char>>,
    projects_directory: Seq<char>,
    state_directory: Seq<char>,
    first: Seq<char>,
    second: Seq<char>,
    plan: AddPlanView,
    source: ProjectSource,
    config: ProjectConfig,
    project: Project,
)
    requires
        hex_id(first),
        hex_id(second),
        addition(
            project_id,
            deployment_type,
            requested,
            projects_directory,
            state_directory,
            first + second,
        ) == Ok::<AddPlanView, AppErrorView>(plan),
        new_project(project_id, plan.current_path, first + second, deployment_type, config),
        source.text == ProjectText::Parsed(config),
        source.metadata matches Metadata::Found { kind, mode } && kind is File && mode & 0o777
            == 0o600,
        source.current is Missing || (source.current matches Metadata::Found { kind, .. }
            && kind is Symlink),
        url_parts("https://example.invalid/"@) matches Ok(parts) && (parts.0 == "http"@ || parts.0
            == "https"@),
        pattern_error("^deploy-[0-9]{8}-[0-9]{6}$"@) is None,
        project_of(source.path@, config, project),
    ensures
        plan.project_config == spelled(config),
        source_flaw(source) is None,
        project.project_id@ == project_id,
        project.webhook_token@ == first + second,
        project.webhook_token@.len() == 64,
        project.current_path@ == (match requested {
            Some(path) => path,
            None => default_current_path(state_directory, project_id),
        }),
        match deployment_type {
            DeploymentType::Static => project.deployment is Static,
            DeploymentType::Binary => project.deployment is Binary,
            DeploymentType::Rust => project.deployment is Rust,
        },
{
    new_deployments_are_relative();
    new_repository_is_valid();
    tokens_are_printable(first, second);
    reveal_strlit("^deploy-[0-9]{8}-[0-9]{6}$");
    if let DeploymentConfig::Rust { binaries, include_paths, .. } = config.deployment {
        reveal_with_fuel(binaries_flaw, 2);
        assert(binaries@.drop_last().len() == 0);
        assert(!builds(binaries@.drop_last(), binaries@.last().binary@));
        assert(include_paths.deep_view().len() == 0);
    }
}

} // verus!
