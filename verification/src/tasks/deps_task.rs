//! Synchronising a whole project: deciding, from the resolved DEPS file and
//! what is on disk, which tasks run and in which order.
use vstd::prelude::*;
use crate::config::{
    ParsedActionItem, ParsedConfig, ParsedCopyFileItem, ParsedFileItem, ParsedLinkFileItem,
    ParsedRepoItem, UrlReplace,
};
use crate::path::{ends_with, join, join_spec, opt_view, parent, path_ends_with, path_parent};
use crate::tasks::repo_task::{join2, join2_exec};
use crate::text::{str_eq, trim, trim_spec};

verus! {

/// Synchronises the project whose DEPS file is `config_file`.
pub struct DepsTask {
    pub config_file: String,
    pub version: String,
    pub platform: String,
    pub non_recursive: bool,
    pub url_replace_list: Option<Vec<UrlReplace>>,
    pub force_linkfiles: bool,
    pub force_copyfiles: bool,
    pub skip_paths: Vec<String>,
    /// Links and copies are held back until every project is synchronised.
    pub defer_post_sync: bool,
}

/// One task a synchronisation runs.
pub enum PlannedTask {
    /// Check out a repository.
    Repo(ParsedRepoItem),
    /// Fetch the submodules and LFS objects of the repository at this path.
    SubRepo(String),
    /// Synchronise the DEPS file of the repository in this directory, if it
    /// has one by the time the task runs.
    RecursiveDeps { repo_dir: String },
    /// Download a file.
    File(ParsedFileItem),
    /// Create a link.
    LinkFile { link: ParsedLinkFileItem, force: bool },
    /// Copy a file or directory.
    CopyFile { copy: ParsedCopyFileItem, force: bool },
    /// Run an action.
    Action(ParsedActionItem),
}

/// The tasks to run now, in order, and those held back until every project
/// is synchronised: first the links and copies of every project, then the
/// actions of every project.
pub struct DepsPlan {
    pub tasks: Vec<PlannedTask>,
    pub deferred: Vec<PlannedTask>,
    pub deferred_actions: Vec<PlannedTask>,
}

/// The path ends with one of the skipped paths (compared trimmed, by whole
/// components).
pub open spec fn skip_listed(path: Seq<char>, skip_paths: Seq<String>) -> bool {
    exists|j: int| 0 <= j < skip_paths.len() && path_ends_with(path, trim_spec(#[trigger] skip_paths[j]@))
}

/// The tasks for the repositories: for each, in order, a checkout when the
/// commit its `.git/shallow` records (trimmed) is not the pinned one; the
/// submodule and LFS task when it was checked out or a previous run did not
/// finish; and the recursion into its DEPS file unless recursion is off or
/// the directory is skipped.
pub open spec fn repo_plan(
    task: DepsTask,
    repos: Seq<ParsedRepoItem>,
    shallow: Seq<String>,
    unfinished: bool,
) -> Seq<PlannedTask>
    decreases repos.len(),
{
    if repos.len() == 0 {
        Seq::<PlannedTask>::empty()
    } else {
        let k = repos.len() - 1;
        let item = repos[k];
        let dirty = trim_spec(shallow[k]@) != item.commit@;
        repo_plan(task, repos.drop_last(), shallow, unfinished) + (if dirty {
            seq![PlannedTask::Repo(item)]
        } else {
            Seq::<PlannedTask>::empty()
        }) + (if dirty || unfinished {
            seq![PlannedTask::SubRepo(item.dir)]
        } else {
            Seq::<PlannedTask>::empty()
        }) + (if !task.non_recursive && !skip_listed(item.dir@, task.skip_paths@) {
            seq![PlannedTask::RecursiveDeps { repo_dir: item.dir }]
        } else {
            Seq::<PlannedTask>::empty()
        })
    }
}

/// The downloads whose recorded digest (trimmed) is not the one of their URL.
pub open spec fn file_plan(files: Seq<ParsedFileItem>, caches: Seq<String>) -> Seq<PlannedTask>
    decreases files.len(),
{
    if files.len() == 0 {
        Seq::<PlannedTask>::empty()
    } else {
        let k = files.len() - 1;
        file_plan(files.drop_last(), caches) + (if trim_spec(caches[k]@) != files[k].hash@ {
            seq![PlannedTask::File(files[k])]
        } else {
            Seq::<PlannedTask>::empty()
        })
    }
}

/// A link task for every link entry.
pub open spec fn link_plan(items: Seq<ParsedLinkFileItem>, force: bool) -> Seq<PlannedTask> {
    items.map_values(|link: ParsedLinkFileItem| PlannedTask::LinkFile { link, force })
}

/// A copy task for every copy entry.
pub open spec fn copy_plan(items: Seq<ParsedCopyFileItem>, force: bool) -> Seq<PlannedTask> {
    items.map_values(|copy: ParsedCopyFileItem| PlannedTask::CopyFile { copy, force })
}

/// An action task for every action.
pub open spec fn action_plan(items: Seq<ParsedActionItem>) -> Seq<PlannedTask> {
    items.map_values(|item: ParsedActionItem| PlannedTask::Action(item))
}

/// The plan of a synchronisation: repositories, downloads, the project's own
/// submodules and LFS objects, then links and copies, then actions; when
/// deferred, the links and copies and the actions are held back.
pub open spec fn deps_plan_spec(
    task: DepsTask,
    config: ParsedConfig,
    shallow: Seq<String>,
    caches: Seq<String>,
    unfinished: bool,
    project_dir: String,
    plan: DepsPlan,
) -> bool {
    let head = repo_plan(task, config.repos@, shallow, unfinished) + file_plan(config.files@, caches)
        + seq![PlannedTask::SubRepo(project_dir)];
    let links = link_plan(config.linkfiles@, task.force_linkfiles);
    let copies = copy_plan(config.copyfiles@, task.force_copyfiles);
    let actions = action_plan(config.actions@);
    if task.defer_post_sync {
        &&& plan.tasks@ == head
        &&& plan.deferred@ == links + copies
        &&& plan.deferred_actions@ == actions
    } else {
        &&& plan.tasks@ == head + links + copies + actions
        &&& plan.deferred@.len() == 0
        &&& plan.deferred_actions@.len() == 0
    }
}

fn copy_strings(v: &Vec<String>) -> (r: Vec<String>)
    ensures
        r@ == v@,
{
    let mut r: Vec<String> = Vec::new();
    let mut i: usize = 0;
    while i < v.len()
        invariant
            i <= v.len(),
            r@ == v@.take(i as int),
        decreases v.len() - i,
    {
        r.push(v[i].clone());
        assert(v@.take(i + 1) == v@.take(i as int).push(v@[i as int]));
        i += 1;
    }
    assert(v@.take(v.len() as int) == v@);
    r
}

fn copy_replaces(v: &Vec<UrlReplace>) -> (r: Vec<UrlReplace>)
    ensures
        r@ == v@,
{
    let mut r: Vec<UrlReplace> = Vec::new();
    let mut i: usize = 0;
    while i < v.len()
        invariant
            i <= v.len(),
            r@ == v@.take(i as int),
        decreases v.len() - i,
    {
        let u = &v[i];
        r.push(UrlReplace { old_prefix: u.old_prefix.clone(), new_prefix: u.new_prefix.clone() });
        assert(v@.take(i + 1) == v@.take(i as int).push(v@[i as int]));
        i += 1;
    }
    assert(v@.take(v.len() as int) == v@);
    r
}

/// Whether `path` ends with one of `skip_paths`.
pub fn path_matches_skip_list(path: &str, skip_paths: &Vec<String>) -> (r: bool)
    ensures
        r == skip_listed(path@, skip_paths@),
{
    let mut i: usize = 0;
    while i < skip_paths.len()
        invariant
            i <= skip_paths.len(),
            forall|j: int| 0 <= j < i ==> !path_ends_with(path@, trim_spec(#[trigger] skip_paths@[j]@)),
        decreases skip_paths.len() - i,
    {
        let skip = trim(skip_paths[i].as_str());
        if ends_with(path, skip.as_str()) {
            return true;
        }
        i += 1;
    }
    false
}

impl DepsTask {
    /// A task synchronising the project of `config_file`.
    pub fn new(
        config_file: String,
        version: String,
        platform: String,
        non_recursive: bool,
        url_replace_list: Option<Vec<UrlReplace>>,
        force_linkfiles: bool,
        force_copyfiles: bool,
        skip_paths: Vec<String>,
        defer_post_sync: bool,
    ) -> (r: DepsTask)
        ensures
            r == (DepsTask {
                config_file,
                version,
                platform,
                non_recursive,
                url_replace_list,
                force_linkfiles,
                force_copyfiles,
                skip_paths,
                defer_post_sync,
            }),
    {
        DepsTask {
            config_file,
            version,
            platform,
            non_recursive,
            url_replace_list,
            force_linkfiles,
            force_copyfiles,
            skip_paths,
            defer_post_sync,
        }
    }

    /// The task for a sub-project's DEPS file: the same settings, another
    /// file.
    pub fn child(&self, deps_file: String) -> (r: DepsTask)
        ensures
            r.config_file == deps_file,
            r.version == self.version,
            r.platform == self.platform,
            r.non_recursive == self.non_recursive,
            opt_replaces(r.url_replace_list) == opt_replaces(self.url_replace_list),
            r.force_linkfiles == self.force_linkfiles,
            r.force_copyfiles == self.force_copyfiles,
            r.skip_paths@ == self.skip_paths@,
            r.defer_post_sync == self.defer_post_sync,
    {
        DepsTask {
            config_file: deps_file,
            version: self.version.clone(),
            platform: self.platform.clone(),
            non_recursive: self.non_recursive,
            url_replace_list: match &self.url_replace_list {
                Some(v) => Some(copy_replaces(v)),
                None => None,
            },
            force_linkfiles: self.force_linkfiles,
            force_copyfiles: self.force_copyfiles,
            skip_paths: copy_strings(&self.skip_paths),
            defer_post_sync: self.defer_post_sync,
        }
    }

    /// The directory holding the DEPS file.
    pub fn project_dir(&self) -> (r: Option<String>)
        ensures
            opt_view(r) == path_parent(self.config_file@),
    {
        parent(self.config_file.as_str())
    }

    /// The DEPS file of a sub-project checked out in `repo_dir`.
    pub fn recursive_deps_file(repo_dir: &str) -> (r: String)
        ensures
            r@ == join_spec(repo_dir@, "DEPS"@),
    {
        join(repo_dir, "DEPS")
    }

    /// The marker of an unfinished run kept inside `.git`.
    pub fn unfinish_file_in_git(project_dir: &str) -> (r: String)
        ensures
            r@ == join2(project_dir@, ".git"@, ".DEPS.unfinished"@),
    {
        join2_exec(project_dir, ".git", ".DEPS.unfinished")
    }

    /// The marker of an unfinished run kept in the project directory.
    pub fn unfinish_file_in_root(project_dir: &str) -> (r: String)
        ensures
            r@ == join_spec(project_dir@, ".DEPS.unfinished"@),
    {
        join(project_dir, ".DEPS.unfinished")
    }

    /// Where this run marks itself unfinished: inside `.git` when the project
    /// has a `.git` directory, otherwise in the project directory.
    pub fn get_unfinish_file(project_dir: &str, git_dir_is_dir: bool) -> (r: String)
        ensures
            r@ == if git_dir_is_dir {
                join2(project_dir@, ".git"@, ".DEPS.unfinished"@)
            } else {
                join_spec(project_dir@, ".DEPS.unfinished"@)
            },
    {
        if git_dir_is_dir {
            Self::unfinish_file_in_git(project_dir)
        } else {
            Self::unfinish_file_in_root(project_dir)
        }
    }

    /// Decides the tasks of a synchronisation from the resolved DEPS file,
    /// the content of each repository's `.git/shallow` and of each download's
    /// digest record (empty where missing), whether a marker of an unfinished
    /// run exists, and the project directory.
    pub fn plan(
        &self,
        config: ParsedConfig,
        shallow_contents: &Vec<String>,
        hash_caches: &Vec<String>,
        unfinished_in_git: bool,
        unfinished_in_root: bool,
        project_dir: String,
    ) -> (r: DepsPlan)
        requires
            shallow_contents@.len() == config.repos@.len(),
            hash_caches@.len() == config.files@.len(),
        ensures
            deps_plan_spec(
                *self,
                config,
                shallow_contents@,
                hash_caches@,
                unfinished_in_git || unfinished_in_root,
                project_dir,
                r,
            ),
    {
        let ghost orig = config;
        let unfinished = unfinished_in_git || unfinished_in_root;
        let ParsedConfig { version: _, repos, files, actions, linkfiles, copyfiles } = config;
        let mut tasks = self.repo_tasks(repos, shallow_contents, unfinished);
        let file_tasks = self.file_tasks(files, hash_caches);
        let mut file_tasks = file_tasks;
        tasks.append(&mut file_tasks);
        tasks.push(PlannedTask::SubRepo(project_dir));
        let ghost head = tasks@;
        assert(head =~= repo_plan(*self, orig.repos@, shallow_contents@, unfinished) + file_plan(
            orig.files@,
            hash_caches@,
        ) + seq![PlannedTask::SubRepo(project_dir)]);
        let mut post: Vec<PlannedTask> = Vec::new();
        let mut links = linkfiles;
        let n_links = links.len();
        let mut i: usize = 0;
        while i < n_links
            invariant
                i <= n_links,
                n_links == orig.linkfiles@.len(),
                links@ == orig.linkfiles@.skip(i as int),
                post@ == link_plan(orig.linkfiles@.take(i as int), self.force_linkfiles),
            decreases n_links - i,
        {
            let item = links.remove(0);
            post.push(PlannedTask::LinkFile { link: item, force: self.force_linkfiles });
            assert(orig.linkfiles@.take(i + 1) == orig.linkfiles@.take(i as int).push(item));
            assert(orig.linkfiles@.skip(i as int).drop_first() == orig.linkfiles@.skip(i + 1));
            i += 1;
        }
        assert(orig.linkfiles@.take(n_links as int) == orig.linkfiles@);
        let ghost link_part = post@;
        let mut copies = copyfiles;
        let n_copies = copies.len();
        let mut j: usize = 0;
        while j < n_copies
            invariant
                j <= n_copies,
                n_copies == orig.copyfiles@.len(),
                copies@ == orig.copyfiles@.skip(j as int),
                post@ == link_part + copy_plan(orig.copyfiles@.take(j as int), self.force_copyfiles),
            decreases n_copies - j,
        {
            let item = copies.remove(0);
            post.push(PlannedTask::CopyFile { copy: item, force: self.force_copyfiles });
            assert(orig.copyfiles@.take(j + 1) == orig.copyfiles@.take(j as int).push(item));
            assert(orig.copyfiles@.skip(j as int).drop_first() == orig.copyfiles@.skip(j + 1));
            j += 1;
        }
        assert(orig.copyfiles@.take(n_copies as int) == orig.copyfiles@);
        let mut action_tasks: Vec<PlannedTask> = Vec::new();
        let mut acts = actions;
        let n_actions = acts.len();
        let mut a: usize = 0;
        while a < n_actions
            invariant
                a <= n_actions,
                n_actions == orig.actions@.len(),
                acts@ == orig.actions@.skip(a as int),
                action_tasks@ == action_plan(orig.actions@.take(a as int)),
            decreases n_actions - a,
        {
            let item = acts.remove(0);
            action_tasks.push(PlannedTask::Action(item));
            assert(orig.actions@.take(a + 1) == orig.actions@.take(a as int).push(item));
            assert(orig.actions@.skip(a as int).drop_first() == orig.actions@.skip(a + 1));
            a += 1;
        }
        assert(orig.actions@.take(n_actions as int) == orig.actions@);
        assert(post@ =~= link_plan(orig.linkfiles@, self.force_linkfiles) + copy_plan(
            orig.copyfiles@,
            self.force_copyfiles,
        ));
        assert(action_tasks@ =~= action_plan(orig.actions@));
        if self.defer_post_sync {
            let r = DepsPlan { tasks, deferred: post, deferred_actions: action_tasks };
            assert(deps_plan_spec(*self, orig, shallow_contents@, hash_caches@, unfinished, project_dir, r));
            r
        } else {
            let ghost p = post@;
            tasks.append(&mut post);
            tasks.append(&mut action_tasks);
            assert(tasks@ =~= head + link_plan(orig.linkfiles@, self.force_linkfiles) + copy_plan(
                orig.copyfiles@,
                self.force_copyfiles,
            ) + action_plan(orig.actions@));
            let r = DepsPlan { tasks, deferred: Vec::new(), deferred_actions: Vec::new() };
            assert(deps_plan_spec(*self, orig, shallow_contents@, hash_caches@, unfinished, project_dir, r));
            r
        }
    }

    fn repo_tasks(&self, repos: Vec<ParsedRepoItem>, shallow_contents: &Vec<String>, unfinished: bool) -> (r:
        Vec<PlannedTask>)
        requires
            shallow_contents@.len() == repos@.len(),
        ensures
            r@ == repo_plan(*self, repos@, shallow_contents@, unfinished),
    {
        let ghost orig = repos@;
        let mut rest = repos;
        let n = rest.len();
        let mut tasks: Vec<PlannedTask> = Vec::new();
        let mut i: usize = 0;
        while i < n
            invariant
                i <= n,
                n == orig.len(),
                shallow_contents@.len() == n,
                rest@ == orig.skip(i as int),
                tasks@ == repo_plan(*self, orig.take(i as int), shallow_contents@, unfinished),
            decreases n - i,
        {
            let item = rest.remove(0);
            assert(orig.skip(i as int).drop_first() == orig.skip(i + 1));
            assert(orig.take(i + 1).drop_last() == orig.take(i as int));
            assert(orig.take(i + 1)[i as int] == item);
            let dirty = !str_eq(trim(shallow_contents[i].as_str()).as_str(), item.commit.as_str());
            let dir = item.dir.clone();
            let ghost before = tasks@;
            let ghost a = if dirty {
                seq![PlannedTask::Repo(item)]
            } else {
                Seq::<PlannedTask>::empty()
            };
            let ghost b = if dirty || unfinished {
                seq![PlannedTask::SubRepo(item.dir)]
            } else {
                Seq::<PlannedTask>::empty()
            };
            let recurse = !self.non_recursive && !path_matches_skip_list(
                dir.as_str(),
                &self.skip_paths,
            );
            let ghost c = if recurse {
                seq![PlannedTask::RecursiveDeps { repo_dir: item.dir }]
            } else {
                Seq::<PlannedTask>::empty()
            };
            if dirty {
                tasks.push(PlannedTask::Repo(item));
            }
            assert(tasks@ == before + a);
            if dirty || unfinished {
                tasks.push(PlannedTask::SubRepo(dir.clone()));
            }
            assert(tasks@ == before + a + b);
            if recurse {
                tasks.push(PlannedTask::RecursiveDeps { repo_dir: dir });
            }
            assert(tasks@ == before + a + b + c);
            i += 1;
        }
        assert(orig.take(n as int) == orig);
        tasks
    }

    fn file_tasks(&self, files: Vec<ParsedFileItem>, hash_caches: &Vec<String>) -> (r: Vec<
        PlannedTask,
    >)
        requires
            hash_caches@.len() == files@.len(),
        ensures
            r@ == file_plan(files@, hash_caches@),
    {
        let ghost orig = files@;
        let mut rest = files;
        let n = rest.len();
        let mut tasks: Vec<PlannedTask> = Vec::new();
        let mut i: usize = 0;
        while i < n
            invariant
                i <= n,
                n == orig.len(),
                hash_caches@.len() == n,
                rest@ == orig.skip(i as int),
                tasks@ == file_plan(orig.take(i as int), hash_caches@),
            decreases n - i,
        {
            let item = rest.remove(0);
            assert(orig.skip(i as int).drop_first() == orig.skip(i + 1));
            assert(orig.take(i + 1).drop_last() == orig.take(i as int));
            assert(orig.take(i + 1)[i as int] == item);
            let stale = !str_eq(trim(hash_caches[i].as_str()).as_str(), item.hash.as_str());
            if stale {
                tasks.push(PlannedTask::File(item));
            }
            i += 1;
        }
        assert(orig.take(n as int) == orig);
        tasks
    }
}

/// The replacements of an optional owned list.
pub open spec fn opt_replaces(o: Option<Vec<UrlReplace>>) -> Option<Seq<UrlReplace>> {
    match o {
        Some(v) => Some(v@),
        None => None,
    }
}

/// The held-back tasks in the order they run: links and copies, then
/// actions.
pub open spec fn deferred_order(plan: DepsPlan) -> Seq<PlannedTask> {
    plan.deferred@ + plan.deferred_actions@
}

/// Links, copies and actions wait for the whole dependency tree: when they
/// are deferred, the tasks run now hold none of them; the deferred links and
/// copies are exactly the links followed by the copies, and the deferred
/// actions exactly the actions, in the order of the DEPS file; and no action
/// comes before a link or a copy.
pub proof fn law_post_sync_deferred(
    task: DepsTask,
    config: ParsedConfig,
    shallow: Seq<String>,
    caches: Seq<String>,
    unfinished: bool,
    project_dir: String,
    plan: DepsPlan,
)
    requires
        deps_plan_spec(task, config, shallow, caches, unfinished, project_dir, plan),
        task.defer_post_sync,
    ensures
        forall|k: int|
            0 <= k < plan.tasks@.len() ==> !(#[trigger] plan.tasks@[k] is LinkFile) && !(
            plan.tasks@[k] is CopyFile) && !(plan.tasks@[k] is Action),
        plan.deferred@.len() == config.linkfiles@.len() + config.copyfiles@.len(),
        forall|k: int|
            0 <= k < config.linkfiles@.len() ==> #[trigger] plan.deferred@[k] == (
            PlannedTask::LinkFile { link: config.linkfiles@[k], force: task.force_linkfiles }),
        forall|k: int|
            0 <= k < config.copyfiles@.len() ==> #[trigger] plan.deferred@[config.linkfiles@.len()
                + k] == (PlannedTask::CopyFile {
                copy: config.copyfiles@[k],
                force: task.force_copyfiles,
            }),
        plan.deferred_actions@.len() == config.actions@.len(),
        forall|k: int|
            0 <= k < config.actions@.len() ==> #[trigger] plan.deferred_actions@[k] == PlannedTask::Action(
                config.actions@[k],
            ),
        forall|i: int, j: int|
            0 <= i < j < deferred_order(plan).len() && (#[trigger] deferred_order(plan)[i] is Action)
                ==> !(#[trigger] deferred_order(plan)[j] is LinkFile) && !(
            deferred_order(plan)[j] is CopyFile),
{
    lemma_repo_plan_kinds(task, config.repos@, shallow, unfinished);
    lemma_file_plan_kinds(config.files@, caches);
    let head = repo_plan(task, config.repos@, shallow, unfinished) + file_plan(config.files@, caches)
        + seq![PlannedTask::SubRepo(project_dir)];
    assert forall|k: int| 0 <= k < plan.tasks@.len() implies !(#[trigger] plan.tasks@[k] is LinkFile)
        && !(plan.tasks@[k] is CopyFile) && !(plan.tasks@[k] is Action) by {
        assert(plan.tasks@[k] == head[k]);
        let rl = repo_plan(task, config.repos@, shallow, unfinished).len();
        let fl = file_plan(config.files@, caches).len();
        if k < rl {
        } else if k < rl + fl {
            assert(head[k] == file_plan(config.files@, caches)[k - rl]);
        }
    }
    let d = plan.deferred@.len();
    assert forall|i: int, j: int|
        0 <= i < j < deferred_order(plan).len() && (#[trigger] deferred_order(plan)[i] is Action)
            implies !(#[trigger] deferred_order(plan)[j] is LinkFile) && !(
        deferred_order(plan)[j] is CopyFile) by {
        let all = deferred_order(plan);
        let nl = config.linkfiles@.len() as int;
        if i < d {
            if i < nl {
                assert(all[i] == plan.deferred@[i]);
            } else {
                assert(all[i] == plan.deferred@[nl + (i - nl)]);
            }
        } else {
            assert(all[j] == plan.deferred_actions@[j - d]);
        }
    }
}

/// The directory a repository task is about (empty for other tasks).
pub open spec fn planned_dir(t: PlannedTask) -> Seq<char> {
    match t {
        PlannedTask::Repo(item) => item.dir@,
        PlannedTask::SubRepo(d) => d@,
        PlannedTask::RecursiveDeps { repo_dir } => repo_dir@,
        _ => Seq::<char>::empty(),
    }
}

/// No two repositories share a directory.
pub open spec fn repo_dirs_distinct(repos: Seq<ParsedRepoItem>) -> bool {
    forall|a: int, b: int| 0 <= a < b < repos.len() ==> (#[trigger] repos[a]).dir@ != (#[trigger] repos[b]).dir@
}

proof fn lemma_repo_plan_dirs(task: DepsTask, repos: Seq<ParsedRepoItem>, shallow: Seq<String>, unfinished: bool)
    ensures
        forall|k: int|
            0 <= k < repo_plan(task, repos, shallow, unfinished).len() ==> exists|m: int|
                0 <= m < repos.len() && planned_dir(#[trigger] repo_plan(task, repos, shallow, unfinished)[k])
                    == repos[m].dir@,
    decreases repos.len(),
{
    if repos.len() > 0 {
        let init = repos.drop_last();
        lemma_repo_plan_dirs(task, init, shallow, unfinished);
        let prev = repo_plan(task, init, shallow, unfinished);
        let rp = repo_plan(task, repos, shallow, unfinished);
        let last = repos.len() - 1;
        assert forall|k: int| 0 <= k < rp.len() implies exists|m: int|
            0 <= m < repos.len() && planned_dir(#[trigger] rp[k]) == repos[m].dir@ by {
            if k < prev.len() {
                assert(rp[k] == prev[k]);
                let m = choose|m: int| 0 <= m < init.len() && planned_dir(prev[k]) == init[m].dir@;
                assert(init[m] == repos[m]);
            } else {
                assert(planned_dir(rp[k]) == repos[last].dir@);
            }
        }
    }
}

proof fn lemma_repo_plan_recursion_last(
    task: DepsTask,
    repos: Seq<ParsedRepoItem>,
    shallow: Seq<String>,
    unfinished: bool,
)
    requires
        repo_dirs_distinct(repos),
    ensures
        forall|i: int, j: int|
            0 <= i < j < repo_plan(task, repos, shallow, unfinished).len() && (#[trigger] repo_plan(
                task,
                repos,
                shallow,
                unfinished,
            )[i] is RecursiveDeps) && ((#[trigger] repo_plan(task, repos, shallow, unfinished)[j] is Repo)
                || repo_plan(task, repos, shallow, unfinished)[j] is SubRepo) ==> planned_dir(
                repo_plan(task, repos, shallow, unfinished)[i],
            ) != planned_dir(repo_plan(task, repos, shallow, unfinished)[j]),
    decreases repos.len(),
{
    if repos.len() > 0 {
        let init = repos.drop_last();
        assert forall|a: int, b: int| 0 <= a < b < init.len() implies (#[trigger] init[a]).dir@ != (
        #[trigger] init[b]).dir@ by {
            assert(init[a] == repos[a] && init[b] == repos[b]);
        }
        lemma_repo_plan_recursion_last(task, init, shallow, unfinished);
        lemma_repo_plan_dirs(task, init, shallow, unfinished);
        let prev = repo_plan(task, init, shallow, unfinished);
        let rp = repo_plan(task, repos, shallow, unfinished);
        let last = repos.len() - 1;
        assert forall|i: int, j: int|
            0 <= i < j < rp.len() && (#[trigger] rp[i] is RecursiveDeps) && ((#[trigger] rp[j] is Repo)
                || rp[j] is SubRepo) implies planned_dir(rp[i]) != planned_dir(rp[j]) by {
            if j < prev.len() {
                assert(rp[i] == prev[i] && rp[j] == prev[j]);
            } else if i < prev.len() {
                assert(rp[i] == prev[i]);
                let m = choose|m: int| 0 <= m < init.len() && planned_dir(prev[i]) == init[m].dir@;
                assert(init[m] == repos[m]);
                assert(planned_dir(rp[j]) == repos[last].dir@);
            } else {
                // within the last repository's tasks the recursion comes last
                assert(rp[i] is RecursiveDeps);
            }
        }
    }
}

/// A sub-project's DEPS file is looked for only after its repository is
/// checked out and its submodules and LFS objects fetched: in the tasks run
/// now, no checkout or submodule task for a repository's directory comes
/// after the recursion into that directory (where no two repositories share
/// a directory and none is the project directory itself).
pub proof fn law_recursion_after_checkout(
    task: DepsTask,
    config: ParsedConfig,
    shallow: Seq<String>,
    caches: Seq<String>,
    unfinished: bool,
    project_dir: String,
    plan: DepsPlan,
)
    requires
        deps_plan_spec(task, config, shallow, caches, unfinished, project_dir, plan),
        repo_dirs_distinct(config.repos@),
        forall|m: int| 0 <= m < config.repos@.len() ==> (#[trigger] config.repos@[m]).dir@ != project_dir@,
    ensures
        forall|i: int, j: int|
            0 <= i < j < plan.tasks@.len() && (#[trigger] plan.tasks@[i] is RecursiveDeps) ==> !((
            #[trigger] plan.tasks@[j]) matches PlannedTask::Repo(item) && item.dir@
                == plan.tasks@[i]->repo_dir@) && !(plan.tasks@[j] matches PlannedTask::SubRepo(d) && d@
                == plan.tasks@[i]->repo_dir@),
{
    lemma_repo_plan_kinds(task, config.repos@, shallow, unfinished);
    lemma_file_plan_kinds(config.files@, caches);
    lemma_repo_plan_recursion_last(task, config.repos@, shallow, unfinished);
    lemma_repo_plan_dirs(task, config.repos@, shallow, unfinished);
    let rp = repo_plan(task, config.repos@, shallow, unfinished);
    let fp = file_plan(config.files@, caches);
    let head = rp + fp + seq![PlannedTask::SubRepo(project_dir)];
    let links = link_plan(config.linkfiles@, task.force_linkfiles);
    let copies = copy_plan(config.copyfiles@, task.force_copyfiles);
    let actions = action_plan(config.actions@);
    assert forall|i: int, j: int|
        0 <= i < j < plan.tasks@.len() && (#[trigger] plan.tasks@[i] is RecursiveDeps) implies !((#[trigger] plan.tasks@[j]) matches PlannedTask::Repo(item) && item.dir@ == plan.tasks@[i]->repo_dir@)
        && !(plan.tasks@[j] matches PlannedTask::SubRepo(d) && d@ == plan.tasks@[i]->repo_dir@) by {
        let ti = plan.tasks@[i];
        let tj = plan.tasks@[j];
        // the recursion is among the repository tasks
        if i >= rp.len() {
            if i < rp.len() + fp.len() {
                assert(ti == fp[i - rp.len()]);
            } else if i < head.len() {
                assert(ti == head[i]);
            } else if task.defer_post_sync {
                assert(false);
            } else {
                let rest = links + copies + actions;
                assert(plan.tasks@ == head + rest);
                assert(ti == rest[i - head.len()]);
                if i - head.len() < links.len() {
                    assert(rest[i - head.len()] == links[i - head.len()]);
                } else if i - head.len() < links.len() + copies.len() {
                    assert(rest[i - head.len()] == copies[i - head.len() - links.len()]);
                } else {
                    assert(rest[i - head.len()] == actions[i - head.len() - links.len() - copies.len()]);
                }
            }
        }
        assert(ti == rp[i]);
        if j < rp.len() {
            assert(tj == rp[j]);
        } else if j < rp.len() + fp.len() {
            assert(tj == fp[j - rp.len()]);
        } else if j < head.len() {
            assert(tj == head[j]);
            assert(tj == PlannedTask::SubRepo(project_dir));
            let m = choose|m: int| 0 <= m < config.repos@.len() && planned_dir(rp[i]) == config.repos@[m].dir@;
            assert(config.repos@[m].dir@ != project_dir@);
        } else if task.defer_post_sync {
            assert(false);
        } else {
            let rest = links + copies + actions;
            assert(plan.tasks@ == head + rest);
            assert(tj == rest[j - head.len()]);
            if j - head.len() < links.len() {
                assert(rest[j - head.len()] == links[j - head.len()]);
            } else if j - head.len() < links.len() + copies.len() {
                assert(rest[j - head.len()] == copies[j - head.len() - links.len()]);
            } else {
                assert(rest[j - head.len()] == actions[j - head.len() - links.len() - copies.len()]);
            }
        }
    }
}

proof fn lemma_repo_plan_kinds(task: DepsTask, repos: Seq<ParsedRepoItem>, shallow: Seq<String>, unfinished: bool)
    ensures
        forall|k: int|
            0 <= k < repo_plan(task, repos, shallow, unfinished).len() ==> {
                let t = #[trigger] repo_plan(task, repos, shallow, unfinished)[k];
                t is Repo || t is SubRepo || t is RecursiveDeps
            },
    decreases repos.len(),
{
    if repos.len() > 0 {
        lemma_repo_plan_kinds(task, repos.drop_last(), shallow, unfinished);
    }
}

proof fn lemma_file_plan_kinds(files: Seq<ParsedFileItem>, caches: Seq<String>)
    ensures
        forall|k: int| 0 <= k < file_plan(files, caches).len() ==> #[trigger] file_plan(files, caches)[k] is File,
    decreases files.len(),
{
    if files.len() > 0 {
        lemma_file_plan_kinds(files.drop_last(), caches);
    }
}

} // verus!
