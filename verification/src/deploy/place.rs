//! Where a deployment keeps its files, and the commands that it runs.
use vstd::prelude::*;

use crate::config::{ConfiguredCommand, DeploymentTarget, GlobalConfig, Project, RustBinary};
use crate::model::Deployment;
use crate::path::join;
#[allow(unused_imports)]
use crate::path::joined_path;
use crate::process::CommandSpec;
#[allow(unused_imports)]
use crate::process::CommandView;
use crate::text::{cat2, cat3, cat5, opt_text_copy, text_list, texts_copy};

verus! {

/// A deployment with the settings that it is processed by.
#[derive(Clone, Copy)]
pub struct Context<'a> {
    pub global: &'a GlobalConfig,
    pub project: &'a Project,
    pub deployment: &'a Deployment,
}

/// A command as a project configures it, in a directory and with variables.
pub open spec fn configured(
    command: ConfiguredCommand,
    directory: Option<Seq<char>>,
    environment: Seq<(Seq<char>, Seq<char>)>,
) -> CommandView {
    CommandView {
        program: command.program@,
        args: command.args.deep_view(),
        current_directory: directory,
        environment,
    }
}

/// A command as a project configures it, in a directory and with variables.
pub fn command_spec(
    command: &ConfiguredCommand,
    current_directory: Option<String>,
    environment: Vec<(String, String)>,
) -> (spec: CommandSpec)
    ensures
        spec@ == configured(*command, current_directory.deep_view(), environment.deep_view()),
{
    CommandSpec {
        program: command.program.clone(),
        args: texts_copy(&command.args),
        current_directory,
        environment,
    }
}

/// The arguments that select the programs that Cargo builds.
pub open spec fn binary_args(binaries: Seq<RustBinary>) -> Seq<Seq<char>>
    decreases binaries.len(),
{
    if binaries.len() == 0 {
        Seq::empty()
    } else {
        binary_args(binaries.drop_last()) + seq![
            "--package"@,
            binaries.last().package@,
            "--bin"@,
            binaries.last().binary@,
        ]
    }
}

/// A copy of a list of variables.
pub fn environment_copy(environment: &Vec<(String, String)>) -> (copy: Vec<(String, String)>)
    ensures
        copy.deep_view() == environment.deep_view(),
{
    let mut copy: Vec<(String, String)> = Vec::new();
    let mut i: usize = 0;
    while i < environment.len()
        invariant
            i <= environment.len(),
            copy@ == environment@.take(i as int),
        decreases environment.len() - i,
    {
        copy.push((environment[i].0.clone(), environment[i].1.clone()));
        i += 1;
    }
    assert(copy@ == environment@);
    assert(copy.deep_view() =~= environment.deep_view());
    copy
}

impl<'a> Context<'a> {
    /// The bare repository that tags are fetched into.
    pub open spec fn mirror(self) -> Seq<char> {
        joined_path(
            joined_path(self.global.state_directory@, "mirrors"@),
            self.project.project_id@ + ".git"@,
        )
    }

    /// The bare repository that tags are fetched into.
    pub fn mirror_path(&self) -> (path: String)
        ensures
            path@ == self.mirror(),
    {
        join(
            join(self.global.state_directory.as_str(), "mirrors").as_str(),
            cat2(self.project.project_id.as_str(), ".git").as_str(),
        )
    }

    /// The directory that the commit is checked out into.
    pub open spec fn worktree(self) -> Seq<char> {
        joined_path(joined_path(self.global.state_directory@, "worktrees"@), self.deployment.id@)
    }

    /// The directory that the commit is checked out into.
    pub fn worktree_path(&self) -> (path: String)
        ensures
            path@ == self.worktree(),
    {
        join(
            join(self.global.state_directory.as_str(), "worktrees").as_str(),
            self.deployment.id.as_str(),
        )
    }

    /// The directory of the releases of the project.
    pub open spec fn releases(self) -> Seq<char> {
        joined_path(
            joined_path(
                joined_path(self.global.state_directory@, "projects"@),
                self.project.project_id@,
            ),
            "releases"@,
        )
    }

    /// The directory of the releases of the project.
    pub fn release_root(&self) -> (path: String)
        ensures
            path@ == self.releases(),
    {
        join(
            join(
                join(self.global.state_directory.as_str(), "projects").as_str(),
                self.project.project_id.as_str(),
            ).as_str(),
            "releases",
        )
    }

    /// The release of a commit.
    pub open spec fn release(self, commit: Seq<char>) -> Seq<char> {
        joined_path(self.releases(), commit)
    }

    /// The release of a commit.
    pub fn release_path(&self, commit: &str) -> (path: String)
        ensures
            path@ == self.release(commit@),
    {
        join(self.release_root().as_str(), commit)
    }

    /// The directory that a release is built in.
    pub open spec fn temporary(self, parent: Seq<char>) -> Seq<char> {
        joined_path(
            parent,
            "."@ + self.deployment.requested_sha@ + "."@ + self.deployment.id@ + ".tmp"@,
        )
    }

    /// The directory that a release is built in.
    pub fn temporary_release(&self, parent: &str) -> (path: String)
        ensures
            path@ == self.temporary(parent@),
    {
        join(
            parent,
            cat5(
                ".",
                self.deployment.requested_sha.as_str(),
                ".",
                self.deployment.id.as_str(),
                ".tmp",
            ).as_str(),
        )
    }

    /// The directory that Cargo builds in.
    pub open spec fn target(self) -> Seq<char> {
        joined_path(joined_path(self.global.state_directory@, "targets"@), self.deployment.id@)
    }

    /// The directory that Cargo builds in.
    pub fn target_directory(&self) -> (path: String)
        ensures
            path@ == self.target(),
    {
        join(
            join(self.global.state_directory.as_str(), "targets").as_str(),
            self.deployment.id.as_str(),
        )
    }

    /// The full name of the tag.
    pub open spec fn tag_ref(self) -> Seq<char> {
        "refs/tags/"@ + self.deployment.tag@
    }

    /// The full name of the tag.
    pub fn tag_ref_text(&self) -> (path: String)
        ensures
            path@ == self.tag_ref(),
    {
        cat2("refs/tags/", self.deployment.tag.as_str())
    }

    /// The Cargo manifest in the worktree, for a project that is built from source.
    pub open spec fn manifest(self) -> Seq<char> {
        match self.project.deployment {
            DeploymentTarget::Rust { cargo_manifest, .. } => joined_path(
                self.worktree(),
                cargo_manifest@,
            ),
            _ => Seq::empty(),
        }
    }

    /// The Cargo manifest in the worktree, for a project that is built from source.
    pub fn manifest_path(&self) -> (path: String)
        ensures
            path@ == self.manifest(),
    {
        match &self.project.deployment {
            DeploymentTarget::Rust { cargo_manifest, .. } => join(
                self.worktree_path().as_str(),
                cargo_manifest.as_str(),
            ),
            _ => String::new(),
        }
    }

    /// The environment file of a project that is built from source.
    pub open spec fn environment_file(self) -> Option<Seq<char>> {
        match self.project.deployment {
            DeploymentTarget::Rust { environment_file, .. } => environment_file.deep_view(),
            _ => None,
        }
    }

    /// The environment file of a project that is built from source.
    pub fn environment_file_path(&self) -> (path: Option<String>)
        ensures
            path.deep_view() == self.environment_file(),
    {
        match &self.project.deployment {
            DeploymentTarget::Rust { environment_file, .. } => opt_text_copy(environment_file),
            _ => None,
        }
    }

    /// A Git command without variables.
    pub open spec fn git(self, args: Seq<Seq<char>>) -> CommandView {
        CommandView {
            program: self.global.git_command@,
            args,
            current_directory: None,
            environment: Seq::empty(),
        }
    }

    fn git_command(&self, args: Vec<String>) -> (spec: CommandSpec)
        ensures
            spec@ == self.git(args.deep_view()),
    {
        let environment: Vec<(String, String)> = Vec::new();
        assert(environment.deep_view() =~= Seq::<(Seq<char>, Seq<char>)>::empty());
        CommandSpec {
            program: self.global.git_command.clone(),
            args,
            current_directory: None,
            environment,
        }
    }

    /// Ask the mirror for the URL of its origin.
    pub open spec fn read_origin(self) -> CommandView {
        self.git(seq!["--git-dir"@, self.mirror(), "remote"@, "get-url"@, "origin"@])
    }

    /// Ask the mirror for the URL of its origin.
    pub fn read_origin_command(&self) -> (spec: CommandSpec)
        ensures
            spec@ == self.read_origin(),
    {
        let mirror = self.mirror_path();
        let args = text_list(&["--git-dir", mirror.as_str(), "remote", "get-url", "origin"]);
        assert(args.deep_view() =~= self.read_origin().args);
        self.git_command(args)
    }

    /// Create the mirror.
    pub open spec fn init_mirror(self) -> CommandView {
        self.git(seq!["init"@, "--bare"@, self.mirror()])
    }

    /// Create the mirror.
    pub fn init_mirror_command(&self) -> (spec: CommandSpec)
        ensures
            spec@ == self.init_mirror(),
    {
        let mirror = self.mirror_path();
        let args = text_list(&["init", "--bare", mirror.as_str()]);
        assert(args.deep_view() =~= self.init_mirror().args);
        self.git_command(args)
    }

    /// Give the mirror its origin.
    pub open spec fn add_origin(self) -> CommandView {
        self.git(
            seq![
                "--git-dir"@,
                self.mirror(),
                "remote"@,
                "add"@,
                "origin"@,
                self.project.repository_url@,
            ],
        )
    }

    /// Give the mirror its origin.
    pub fn add_origin_command(&self) -> (spec: CommandSpec)
        ensures
            spec@ == self.add_origin(),
    {
        let mirror = self.mirror_path();
        let args = text_list(
            &[
                "--git-dir",
                mirror.as_str(),
                "remote",
                "add",
                "origin",
                self.project.repository_url.as_str(),
            ],
        );
        assert(args.deep_view() =~= self.add_origin().args);
        self.git_command(args)
    }

    /// Have Git check the name of the tag.
    pub open spec fn check_tag_ref(self) -> CommandView {
        self.git(seq!["check-ref-format"@, self.tag_ref()])
    }

    /// Have Git check the name of the tag.
    pub fn check_tag_ref_command(&self) -> (spec: CommandSpec)
        ensures
            spec@ == self.check_tag_ref(),
    {
        let tag_ref = self.tag_ref_text();
        let args = text_list(&["check-ref-format", tag_ref.as_str()]);
        assert(args.deep_view() =~= self.check_tag_ref().args);
        self.git_command(args)
    }

    /// Ask for the object that the tag names.
    pub open spec fn resolve_tag(self) -> CommandView {
        self.git(seq!["--git-dir"@, self.mirror(), "rev-parse"@, "--verify"@, self.tag_ref()])
    }

    /// Ask for the object that the tag names.
    pub fn resolve_tag_command(&self) -> (spec: CommandSpec)
        ensures
            spec@ == self.resolve_tag(),
    {
        let mirror = self.mirror_path();
        let tag_ref = self.tag_ref_text();
        let args = text_list(
            &[
                "--git-dir",
                mirror.as_str(),
                "rev-parse",
                "--verify",
                tag_ref.as_str(),
            ],
        );
        assert(args.deep_view() =~= self.resolve_tag().args);
        self.git_command(args)
    }

    /// Ask for the commit that the tag leads to.
    pub open spec fn resolve_commit(self) -> CommandView {
        self.git(
            seq![
                "--git-dir"@,
                self.mirror(),
                "rev-parse"@,
                "--verify"@,
                self.tag_ref() + "^{commit}"@,
            ],
        )
    }

    /// Ask for the commit that the tag leads to.
    pub fn resolve_commit_command(&self) -> (spec: CommandSpec)
        ensures
            spec@ == self.resolve_commit(),
    {
        let mirror = self.mirror_path();
        let commit_ref = cat2(self.tag_ref_text().as_str(), "^{commit}");
        let args = text_list(
            &[
                "--git-dir",
                mirror.as_str(),
                "rev-parse",
                "--verify",
                commit_ref.as_str(),
            ],
        );
        assert(args.deep_view() =~= self.resolve_commit().args);
        self.git_command(args)
    }

    /// Have Git forget worktrees that are gone.
    pub open spec fn prune_worktrees(self) -> CommandView {
        self.git(seq!["--git-dir"@, self.mirror(), "worktree"@, "prune"@])
    }

    /// Have Git forget worktrees that are gone.
    pub fn prune_worktrees_command(&self) -> (spec: CommandSpec)
        ensures
            spec@ == self.prune_worktrees(),
    {
        let mirror = self.mirror_path();
        let args = text_list(&["--git-dir", mirror.as_str(), "worktree", "prune"]);
        assert(args.deep_view() =~= self.prune_worktrees().args);
        self.git_command(args)
    }

    /// Check a commit out.
    pub open spec fn add_worktree(self, commit: Seq<char>) -> CommandView {
        self.git(
            seq![
                "--git-dir"@,
                self.mirror(),
                "worktree"@,
                "add"@,
                "--detach"@,
                self.worktree(),
                commit,
            ],
        )
    }

    /// Check a commit out.
    pub fn add_worktree_command(&self, commit: &str) -> (spec: CommandSpec)
        ensures
            spec@ == self.add_worktree(commit@),
    {
        let mirror = self.mirror_path();
        let worktree = self.worktree_path();
        let args = text_list(
            &[
                "--git-dir",
                mirror.as_str(),
                "worktree",
                "add",
                "--detach",
                worktree.as_str(),
                commit,
            ],
        );
        assert(args.deep_view() =~= self.add_worktree(commit@).args);
        self.git_command(args)
    }

    /// Remove the worktree.
    pub open spec fn remove_worktree(self) -> CommandView {
        self.git(
            seq![
                "--git-dir"@,
                self.mirror(),
                "worktree"@,
                "remove"@,
                "--force"@,
                self.worktree(),
            ],
        )
    }

    /// Remove the worktree.
    pub fn remove_worktree_command(&self) -> (spec: CommandSpec)
        ensures
            spec@ == self.remove_worktree(),
    {
        let mirror = self.mirror_path();
        let worktree = self.worktree_path();
        let args = text_list(
            &[
                "--git-dir",
                mirror.as_str(),
                "worktree",
                "remove",
                "--force",
                worktree.as_str(),
            ],
        );
        assert(args.deep_view() =~= self.remove_worktree().args);
        self.git_command(args)
    }

    /// Fetch the tag and no other, without a terminal to ask.
    pub open spec fn fetch(self) -> CommandView {
        CommandView {
            program: self.global.git_command@,
            args: seq![
                "--git-dir"@,
                self.mirror(),
                "fetch"@,
                "--no-tags"@,
                "origin"@,
                self.tag_ref() + ":"@ + self.tag_ref(),
            ],
            current_directory: None,
            environment: seq![("GIT_TERMINAL_PROMPT"@, "0"@)],
        }
    }

    /// Fetch the tag and no other, without a terminal to ask.
    pub fn fetch_command(&self) -> (spec: CommandSpec)
        ensures
            spec@ == self.fetch(),
    {
        let mirror = self.mirror_path();
        let tag_ref = self.tag_ref_text();
        let refspec = cat3(tag_ref.as_str(), ":", tag_ref.as_str());
        let args = text_list(
            &["--git-dir", mirror.as_str(), "fetch", "--no-tags", "origin", refspec.as_str()],
        );
        assert(args.deep_view() =~= self.fetch().args);
        let mut environment: Vec<(String, String)> = Vec::new();
        environment.push(("GIT_TERMINAL_PROMPT".to_owned(), "0".to_owned()));
        assert(environment.deep_view() =~= self.fetch().environment);
        CommandSpec {
            program: self.global.git_command.clone(),
            args,
            current_directory: None,
            environment,
        }
    }

    /// Build all programs in the worktree at once, with the variables of the environment file
    /// and the target directory of the deployment.
    pub open spec fn cargo(self, environment: Seq<(Seq<char>, Seq<char>)>) -> CommandView {
        CommandView {
            program: self.global.cargo_command@,
            args: seq![
                "build"@,
                "--release"@,
                "--locked"@,
                "--manifest-path"@,
                self.manifest(),
            ] + match self.project.deployment {
                DeploymentTarget::Rust { binaries, .. } => binary_args(binaries@),
                _ => Seq::empty(),
            },
            current_directory: Some(self.worktree()),
            environment: environment.push(("CARGO_TARGET_DIR"@, self.target())),
        }
    }

    /// Build all programs in the worktree at once, with the variables of the environment file
    /// and the target directory of the deployment.
    pub fn cargo_command(&self, environment: &Vec<(String, String)>) -> (spec: CommandSpec)
        ensures
            spec@ == self.cargo(environment.deep_view()),
    {
        let manifest = self.manifest_path();
        let mut args = text_list(
            &["build", "--release", "--locked", "--manifest-path", manifest.as_str()],
        );
        let ghost first = seq![
            "build"@,
            "--release"@,
            "--locked"@,
            "--manifest-path"@,
            self.manifest(),
        ];
        assert(args.deep_view() =~= first);
        match &self.project.deployment {
            DeploymentTarget::Rust { binaries, .. } => {
                let mut i: usize = 0;
                assert(binaries@.take(0) =~= Seq::<RustBinary>::empty());
                assert(first + binary_args(binaries@.take(0)) =~= first);
                while i < binaries.len()
                    invariant
                        i <= binaries.len(),
                        args.deep_view() == first + binary_args(binaries@.take(i as int)),
                    decreases binaries.len() - i,
                {
                    let ghost before = args.deep_view();
                    assert(binaries@.take(i + 1).drop_last() =~= binaries@.take(i as int));
                    args.push("--package".to_owned());
                    args.push(binaries[i].package.clone());
                    args.push("--bin".to_owned());
                    args.push(binaries[i].binary.clone());
                    assert(args.deep_view() =~= before + seq![
                        "--package"@,
                        binaries[i as int].package@,
                        "--bin"@,
                        binaries[i as int].binary@,
                    ]);
                    assert(args.deep_view() =~= first + binary_args(binaries@.take(i + 1)));
                    i += 1;
                }
                assert(binaries@.take(i as int) =~= binaries@);
            },
            _ => {
                assert(first + Seq::<Seq<char>>::empty() =~= first);
            },
        }
        let mut variables = environment_copy(environment);
        variables.push(("CARGO_TARGET_DIR".to_owned(), self.target_directory()));
        assert(variables.deep_view() =~= environment.deep_view().push(
            ("CARGO_TARGET_DIR"@, self.target()),
        ));
        CommandSpec {
            program: self.global.cargo_command.clone(),
            args,
            current_directory: Some(self.worktree_path()),
            environment: variables,
        }
    }
}

} // verus!
