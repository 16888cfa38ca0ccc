//! Git submodules and LFS objects of a checked-out repository.
use vstd::prelude::*;
use crate::path::{join, join_spec};
use crate::tasks::repo_task::{join2, join2_exec};
use crate::text::{concat, contains, contains_spec, to_owned};

verus! {

/// Fetches the submodules and LFS objects of one repository.
pub struct SubRepoTask {
    pub repo_path: String,
}

/// One thing the task does; commands run in the repository.
pub enum SubRepoStep {
    /// Run a shell command, showing its output unless `quiet`; a failure
    /// ends the task.
    Exec { command: String, quiet: bool },
    /// Print a line.
    Log(String),
    /// Delete a path, ignoring failure.
    Delete(String),
    /// Move a path, ignoring failure.
    Move { from: String, to: String },
}

/// What was found in the repository before the task starts.
pub struct SubRepoObservation {
    /// `.git` exists.
    pub git_exists: bool,
    /// `.gitmodules` exists.
    pub modules_exists: bool,
    /// `.gitattributes` exists.
    pub attributes_exists: bool,
    /// `.git/hooks/pre-push` exists.
    pub pre_push_exists: bool,
    /// `git lfs install` already ran in this process.
    pub lfs_initialized: bool,
}

/// The first part of the task: the steps to run, whether `git lfs fsck` must
/// then be consulted, whether anything was shown, and whether LFS counts as
/// installed afterwards.
pub struct SubRepoPlan {
    pub steps: Vec<SubRepoStep>,
    pub check_lfs: bool,
    pub had_output: bool,
    pub lfs_initialized: bool,
}

/// The steps before `git lfs fsck` is consulted.
pub open spec fn sub_repo_plan_spec(obs: SubRepoObservation, plan: SubRepoPlan) -> bool {
    let install = obs.attributes_exists && !obs.lfs_initialized && !obs.pre_push_exists;
    if !obs.git_exists {
        plan.steps@.len() == 0 && !plan.check_lfs && !plan.had_output && plan.lfs_initialized
            == obs.lfs_initialized
    } else {
        &&& plan.steps@.len() == (if obs.modules_exists { 1int } else { 0 }) + (if install {
            1int
        } else {
            0
        })
        &&& obs.modules_exists ==> (plan.steps@[0] matches SubRepoStep::Exec { command, quiet }
            && command@ == "git submodule update --init --recursive --depth=1"@ && !quiet)
        &&& install ==> (plan.steps@.last() matches SubRepoStep::Exec { command, quiet }
            && command@ == "git lfs install --force"@ && quiet)
        &&& plan.check_lfs == obs.attributes_exists
        &&& plan.had_output == obs.modules_exists
        &&& plan.lfs_initialized == (obs.lfs_initialized || install)
    }
}

/// The steps once `git lfs fsck` answered `fsck_output`, given whether
/// `.git/lfs.bak` exists: nothing when the objects are complete, otherwise
/// restore the kept cache and pull the objects.
pub open spec fn lfs_steps_spec(
    repo: Seq<char>,
    fsck_output: Seq<char>,
    lfs_bak_exists: bool,
    r: (Vec<SubRepoStep>, bool),
) -> bool {
    if contains_spec(fsck_output, "Git LFS fsck OK"@) {
        r.0@.len() == 0 && !r.1
    } else {
        &&& r.1
        &&& r.0@.len() == if lfs_bak_exists { 4int } else { 2 }
        &&& r.0@[0] matches SubRepoStep::Log(m) && m@ == "【depctl】downloading git lfs objects to: "@
            + repo
        &&& lfs_bak_exists ==> (r.0@[1] matches SubRepoStep::Delete(p) && p@ == join2(
            repo,
            ".git"@,
            "lfs"@,
        ))
        &&& lfs_bak_exists ==> (r.0@[2] matches SubRepoStep::Move { from, to } && from@ == join2(
            repo,
            ".git"@,
            "lfs.bak"@,
        ) && to@ == join2(repo, ".git"@, "lfs"@))
        &&& r.0@.last() matches SubRepoStep::Exec { command, quiet } && command@
            == "git lfs pull && git lfs prune"@ && !quiet
    }
}

impl SubRepoTask {
    /// A task for the repository at `repo_path`.
    pub fn new(repo_path: String) -> (r: SubRepoTask)
        ensures
            r.repo_path == repo_path,
    {
        SubRepoTask { repo_path }
    }

    /// `<repo>/.git`.
    pub fn git_dir(&self) -> (r: String)
        ensures
            r@ == join_spec(self.repo_path@, ".git"@),
    {
        join(self.repo_path.as_str(), ".git")
    }

    /// `<repo>/.gitmodules`.
    pub fn modules_file(&self) -> (r: String)
        ensures
            r@ == join_spec(self.repo_path@, ".gitmodules"@),
    {
        join(self.repo_path.as_str(), ".gitmodules")
    }

    /// `<repo>/.gitattributes`.
    pub fn attributes_file(&self) -> (r: String)
        ensures
            r@ == join_spec(self.repo_path@, ".gitattributes"@),
    {
        join(self.repo_path.as_str(), ".gitattributes")
    }

    /// `<repo>/.git/hooks/pre-push`.
    pub fn pre_push_file(&self) -> (r: String)
        ensures
            r@ == join_spec(join2(self.repo_path@, ".git"@, "hooks"@), "pre-push"@),
    {
        let hooks = join2_exec(self.repo_path.as_str(), ".git", "hooks");
        join(hooks.as_str(), "pre-push")
    }

    /// `<repo>/.git/lfs.bak`.
    pub fn lfs_bak_dir(&self) -> (r: String)
        ensures
            r@ == join2(self.repo_path@, ".git"@, "lfs.bak"@),
    {
        join2_exec(self.repo_path.as_str(), ".git", "lfs.bak")
    }

    /// The steps before `git lfs fsck`: update submodules when there is a
    /// `.gitmodules`, and install LFS once per process when the repository
    /// has a `.gitattributes` and no pre-push hook yet.
    pub fn plan(&self, obs: &SubRepoObservation) -> (r: SubRepoPlan)
        ensures
            sub_repo_plan_spec(*obs, r),
    {
        if !obs.git_exists {
            return SubRepoPlan {
                steps: Vec::new(),
                check_lfs: false,
                had_output: false,
                lfs_initialized: obs.lfs_initialized,
            };
        }
        let mut steps: Vec<SubRepoStep> = Vec::new();
        if obs.modules_exists {
            steps.push(
                SubRepoStep::Exec {
                    command: to_owned("git submodule update --init --recursive --depth=1"),
                    quiet: false,
                },
            );
        }
        let install = obs.attributes_exists && !obs.lfs_initialized && !obs.pre_push_exists;
        if install {
            steps.push(
                SubRepoStep::Exec { command: to_owned("git lfs install --force"), quiet: true },
            );
        }
        SubRepoPlan {
            steps,
            check_lfs: obs.attributes_exists,
            had_output: obs.modules_exists,
            lfs_initialized: obs.lfs_initialized || install,
        }
    }

    /// The steps after `git lfs fsck` printed `fsck_output`, and whether
    /// they show anything.
    pub fn lfs_steps(&self, fsck_output: &str, lfs_bak_exists: bool) -> (r: (
        Vec<SubRepoStep>,
        bool,
    ))
        ensures
            lfs_steps_spec(self.repo_path@, fsck_output@, lfs_bak_exists, r),
    {
        if contains(fsck_output, "Git LFS fsck OK") {
            return (Vec::new(), false);
        }
        let mut steps: Vec<SubRepoStep> = Vec::new();
        steps.push(
            SubRepoStep::Log(
                concat("【depctl】downloading git lfs objects to: ", self.repo_path.as_str()),
            ),
        );
        if lfs_bak_exists {
            let lfs_dir = join2_exec(self.repo_path.as_str(), ".git", "lfs");
            steps.push(SubRepoStep::Delete(lfs_dir));
            steps.push(
                SubRepoStep::Move {
                    from: self.lfs_bak_dir(),
                    to: join2_exec(self.repo_path.as_str(), ".git", "lfs"),
                },
            );
        }
        steps.push(
            SubRepoStep::Exec { command: to_owned("git lfs pull && git lfs prune"), quiet: false },
        );
        (steps, true)
    }
}

} // verus!
