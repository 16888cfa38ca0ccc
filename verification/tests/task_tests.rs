use depctl::config::{
    ParsedActionItem, ParsedConfig, ParsedCopyFileItem, ParsedFileItem, ParsedLinkFileItem,
    ParsedRepoItem,
};
use depctl::tasks::action_task::ActionTask;
use depctl::tasks::clean_task::CleanTask;
use depctl::tasks::copy_file_task::{copied_link_target, CopyFileTask};
use depctl::tasks::deps_task::{path_matches_skip_list, DepsTask, PlannedTask};
use depctl::tasks::file_task::{ArchiveKind, FileTask};
use depctl::tasks::link_file_task::{LinkFileTask, PostSyncDecision};
use depctl::tasks::repo_task::{
    fetch_step, is_unadvertised, CommandMode, FetchAction, FetchError, FetchEvent, FetchState,
    RepoStep, RepoTask,
};
use depctl::tasks::sub_repo_task::{SubRepoObservation, SubRepoStep, SubRepoTask};
use depctl::tasks::task_runner::TaskRunner;
use depctl::utils::CapturedCommand;

fn s(x: &str) -> String {
    x.to_string()
}

fn repo(dir: &str, commit: &str) -> ParsedRepoItem {
    ParsedRepoItem { url: s("https://github.com/a/b.git"), commit: s(commit), dir: s(dir) }
}

fn file(url: &str, hash: &str) -> ParsedFileItem {
    ParsedFileItem {
        url: s(url),
        dir: s("/p/third_party"),
        hash: s(hash),
        hash_file: s("/p/third_party/.f.sha1"),
        unzip: true,
        multipart: None,
        timeout: 15000,
    }
}

fn captured(success: bool, stdout: &str, stderr: &str) -> CapturedCommand {
    CapturedCommand { success, stdout: s(stdout), stderr: s(stderr) }
}

fn run_command(a: &FetchAction) -> (Option<String>, String) {
    match a {
        FetchAction::Run { notice, mode: _, command } => (notice.clone(), command.clone()),
        _ => panic!("expected a command"),
    }
}

#[test]
fn fetch_keeps_shallow_fetch_when_it_succeeds() {
    let (st, a) = fetch_step("abc", FetchState::Start, FetchEvent::Begin);
    let (n, c) = run_command(&a);
    assert!(n.is_none());
    assert_eq!(c, "git fetch --progress --depth 1 origin \"abc\"");
    let (st, a) = fetch_step("abc", st, FetchEvent::Echoed(captured(true, "", "")));
    assert!(matches!(st, FetchState::Finished));
    assert!(matches!(a, FetchAction::Succeed));
}

#[test]
fn fetch_stops_on_other_failures() {
    let (st, _) = fetch_step("abc", FetchState::Start, FetchEvent::Begin);
    let (st, a) = fetch_step("abc", st, FetchEvent::Echoed(captured(false, "", "fatal: repository not found")));
    assert!(matches!(st, FetchState::Finished));
    match a {
        FetchAction::Fail(FetchError::CommandFailed(c)) => {
            assert_eq!(c, "git fetch --progress --depth 1 origin \"abc\"")
        }
        _ => panic!("expected a command failure"),
    }
}

#[test]
fn fetch_falls_back_and_deepens_until_found() {
    let unadv = captured(false, "", "error: Server does not allow request for unadvertised object abc");
    let (st, _) = fetch_step("abc", FetchState::Start, FetchEvent::Begin);
    let (st, a) = fetch_step("abc", st, FetchEvent::Echoed(CapturedCommand { success: false, stdout: s(""), stderr: unadv.stderr.clone() }));
    let (n, c) = run_command(&a);
    assert_eq!(n.unwrap(), "【depctl】server rejected shallow fetch of commit, retrying without depth");
    assert_eq!(c, "git fetch --progress --filter=blob:none origin \"abc\"");
    let (st, a) = fetch_step("abc", st, FetchEvent::Echoed(unadv));
    match &a {
        FetchAction::Run { notice, mode: CommandMode::Exec, command } => {
            assert_eq!(notice.clone().unwrap(), "【depctl】server rejected fetch by commit, fetching branches and tags");
            assert_eq!(command, "git fetch --progress --depth 1 origin \"+refs/heads/*:refs/remotes/origin/*\" \"+refs/tags/*:refs/tags/*\"");
        }
        _ => panic!("expected the branch fetch"),
    }
    let (st, a) = fetch_step("abc", st, FetchEvent::Ran);
    assert_eq!(run_command(&a).1, "git cat-file -e \"abc\"");
    let (st, a) = fetch_step("abc", st, FetchEvent::Checked(Some(captured(false, "", ""))));
    assert_eq!(run_command(&a).1, "git rev-parse --is-shallow-repository");
    let (st, a) = fetch_step("abc", st, FetchEvent::Checked(Some(captured(true, "true\n", ""))));
    assert!(matches!(a, FetchAction::ReadShallowFile));
    let (st, a) = fetch_step("abc", st, FetchEvent::ShallowRead(s("c1\n")));
    let (n, c) = run_command(&a);
    assert_eq!(n.unwrap(), "【depctl】deepening history by 100 commits");
    assert_eq!(c, "git fetch --progress --deepen=100 origin");
    let (st, a) = fetch_step("abc", st, FetchEvent::Ran);
    assert_eq!(run_command(&a).1, "git cat-file -e \"abc\"");
    let (st, a) = fetch_step("abc", st, FetchEvent::Checked(Some(captured(true, "", ""))));
    assert!(matches!(st, FetchState::Finished));
    assert!(matches!(a, FetchAction::Succeed));
}

#[test]
fn fetch_reports_unreachable_commit() {
    let (_, a) = fetch_step("abc", FetchState::CheckShallow, FetchEvent::Checked(Some(captured(true, "false\n", ""))));
    assert!(matches!(a, FetchAction::Fail(FetchError::NotReachable(ref c)) if c == "abc"));
    let (_, a) = fetch_step("abc", FetchState::CheckShallow, FetchEvent::Checked(None));
    assert!(matches!(a, FetchAction::Fail(FetchError::NotReachable(_))));
    let (st, a) = fetch_step("abc", FetchState::RecheckCommit { before: s("x") }, FetchEvent::Checked(None));
    assert!(matches!(a, FetchAction::ReadShallowFile));
    let (st2, a) = fetch_step("abc", st, FetchEvent::ShallowRead(s("x")));
    assert!(matches!(st2, FetchState::Finished));
    assert!(matches!(a, FetchAction::Fail(FetchError::NotReachable(_))));
    let (st3, a) = fetch_step("abc", FetchState::CompareShallow { before: s("x") }, FetchEvent::ShallowRead(s("y")));
    assert!(matches!(st3, FetchState::CheckCommit));
    assert_eq!(run_command(&a).1, "git cat-file -e \"abc\"");
}

#[test]
fn unadvertised_detection() {
    assert!(is_unadvertised(&captured(false, "", "unadvertised object")));
    assert!(is_unadvertised(&captured(false, "xx unadvertised object yy", "")));
    assert!(!is_unadvertised(&captured(false, "", "not found")));
}

#[test]
fn credentials_from_environment() {
    let t = RepoTask::new(repo("/p/a", "c"), Some(s("u")), Some(s("p")), Some(s("x:y@d")));
    assert_eq!(t.username, Some(s("u")));
    assert_eq!(t.password, Some(s("p")));
    let t = RepoTask::new(repo("/p/a", "c"), Some(s("u")), None, Some(s("x:y@domain.com")));
    assert_eq!(t.username, Some(s("x")));
    assert_eq!(t.password, Some(s("y")));
    let t = RepoTask::new(repo("/p/a", "c"), None, None, Some(s("x@y@z")));
    assert_eq!(t.username, None);
    let t = RepoTask::new(repo("/p/a", "c"), None, None, Some(s("xy@z")));
    assert_eq!(t.password, None);
    let t = RepoTask::new(repo("/p/a", "c"), None, None, None);
    assert_eq!(t.username, None);
}

#[test]
fn login_info_goes_after_scheme() {
    let t = RepoTask::new(repo("/p/a", "c"), Some(s("u")), Some(s("pw")), None);
    assert_eq!(t.add_login_info("https://github.com/a/b.git"), "https://u:pw@github.com/a/b.git");
    assert_eq!(t.add_login_info("https://me@github.com/a.git"), "https://me@github.com/a.git");
    assert_eq!(t.add_login_info("github.com:a/b.git"), "github.com:a/b.git");
    let n = RepoTask::new(repo("/p/a", "c"), None, None, None);
    assert_eq!(n.add_login_info("https://github.com/a"), "https://github.com/a");
}

#[test]
fn checkout_steps_in_order() {
    let t = RepoTask::new(repo("/p/third_party/libwebp", "1fe3"), None, None, None);
    let steps = t.checkout_steps();
    assert_eq!(steps.len(), 10);
    match &steps[0] {
        RepoStep::Log(m) => assert_eq!(m, "【depctl】checking out repository: libwebp@1fe3"),
        _ => panic!(),
    }
    match &steps[1] {
        RepoStep::MoveIfExists { from, to } => {
            assert_eq!(from, "/p/third_party/libwebp/.git/lfs");
            assert_eq!(to, "/p/third_party/libwebp/.lfs.bak");
        }
        _ => panic!(),
    }
    match &steps[5] {
        RepoStep::Exec(c) => assert_eq!(c, "git remote add origin https://github.com/a/b.git"),
        _ => panic!(),
    }
    assert!(matches!(steps[6], RepoStep::FetchCommit));
    match &steps[9] {
        RepoStep::Exec(c) => assert_eq!(c, "git reset --hard \"1fe3\" && git clean -df -q"),
        _ => panic!(),
    }
    assert_eq!(t.shallow_file(), "/p/third_party/libwebp/.git/shallow");
}

#[test]
fn sub_repo_steps() {
    let t = SubRepoTask::new(s("/p/r"));
    let obs = SubRepoObservation { git_exists: true, modules_exists: true, attributes_exists: true, pre_push_exists: false, lfs_initialized: false };
    let plan = t.plan(&obs);
    assert_eq!(plan.steps.len(), 2);
    assert!(plan.check_lfs && plan.had_output && plan.lfs_initialized);
    match &plan.steps[1] {
        SubRepoStep::Exec { command, quiet } => {
            assert_eq!(command, "git lfs install --force");
            assert!(*quiet);
        }
        _ => panic!(),
    }
    let again = t.plan(&SubRepoObservation { lfs_initialized: true, ..obs });
    assert_eq!(again.steps.len(), 1);
    let none = t.plan(&SubRepoObservation { git_exists: false, modules_exists: true, attributes_exists: true, pre_push_exists: false, lfs_initialized: false });
    assert!(none.steps.is_empty() && !none.had_output);
    let (ok, shown) = t.lfs_steps("Git LFS fsck OK\n", true);
    assert!(ok.is_empty() && !shown);
    let (steps, shown) = t.lfs_steps("objects missing", true);
    assert!(shown);
    assert_eq!(steps.len(), 4);
    match &steps[2] {
        SubRepoStep::Move { from, to } => {
            assert_eq!(from, "/p/r/.git/lfs.bak");
            assert_eq!(to, "/p/r/.git/lfs");
        }
        _ => panic!(),
    }
    assert_eq!(t.lfs_steps("x", false).0.len(), 2);
}

#[test]
fn action_command_resolution() {
    let t = ActionTask::new(ParsedActionItem { command: s("depsync --clean"), dir: s("/p") });
    assert_eq!(t.resolved_command(Some(s("/usr/local/bin/depctl"))), "/usr/local/bin/depctl --clean");
    assert_eq!(t.resolved_command(None), "depctl --clean");
    let u = ActionTask::new(ParsedActionItem { command: s("make all"), dir: s("/p") });
    assert_eq!(u.resolved_command(Some(s("/x"))), "make all");
}

#[test]
fn separator_only_between_outputs() {
    assert_eq!(TaskRunner::separator(true, true), (true, true));
    assert_eq!(TaskRunner::separator(true, false), (false, false));
    assert_eq!(TaskRunner::separator(false, true), (false, true));
}

#[test]
fn file_task_decisions() {
    let t = FileTask::new(file("https://h/r/include.zip?x=1", "h"));
    assert_eq!(t.file_name(), "include.zip");
    assert_eq!(t.file_path(), "/p/third_party/include.zip");
    assert!(t.part_urls().is_none());
    let m = FileTask::new(ParsedFileItem { multipart: Some(vec![s(".001"), s(".002")]), ..file("https://h/a.zip", "h") });
    assert_eq!(m.part_urls(), Some(vec![s("https://h/a.zip.001"), s("https://h/a.zip.002")]));
    assert!(FileTask::should_retry(0, "operation timeout"));
    assert!(!FileTask::should_retry(3, "timeout"));
    assert!(!FileTask::should_retry(1, "404"));
    assert!(matches!(FileTask::archive_kind("/x/a.tar.bz2"), ArchiveKind::TarBz2));
    assert!(matches!(FileTask::archive_kind("/x/a.zip"), ArchiveKind::Zip));
    assert!(FileTask::zip_entry_skipped("__MACOSX/a"));
    assert!(FileTask::zip_entry_skipped("a/.DS_Store"));
    assert!(!FileTask::zip_entry_skipped("a/b"));
    assert_eq!(FileTask::zip_root_name("skia/include/a.h"), Some(s("skia")));
    assert_eq!(FileTask::zip_root_name("__MACOSX/x"), None);
    assert!(FileTask::is_symlink_mode(0o120777));
    assert!(!FileTask::is_symlink_mode(0o100644));
}

#[test]
fn link_and_copy_decisions() {
    let l = LinkFileTask::new(ParsedLinkFileItem { src: s("/p/third_party/depsync"), dest: s("/p/reference/depsync") }, false);
    assert!(matches!(l.decide(false, false), PostSyncDecision::SourceMissing));
    assert!(matches!(l.decide(true, true), PostSyncDecision::Skip));
    assert!(matches!(l.decide(true, false), PostSyncDecision::Proceed { remove_dest: false }));
    assert_eq!(l.link_target("/real"), "../third_party/depsync");
    let c = CopyFileTask::new(ParsedCopyFileItem { src: s("/p/a"), dest: s("/p/b") }, true);
    assert!(matches!(c.decide(true, true), PostSyncDecision::Proceed { remove_dest: true }));
    assert_eq!(copied_link_target("1.txt", "/ignored", "/p/B/2.txt"), "1.txt");
    assert_eq!(copied_link_target("/p/A/1.txt", "/p/A/1.txt", "/p/B/2.txt"), "../A/1.txt");
}

#[test]
fn clean_decisions() {
    assert_eq!(CleanTask::sha1_marker_name(".include.zip.sha1"), Some(s("include.zip")));
    assert_eq!(CleanTask::sha1_marker_name("include.zip.sha1"), None);
    assert_eq!(CleanTask::sha1_marker_name(".x.sha2"), None);
    assert_eq!(CleanTask::sha1_marker_name(".sha1"), None);
    assert_eq!(CleanTask::sha1_marker_name("..sha1"), None);
    assert_eq!(CleanTask::sha1_marker_name(".a.sha1"), Some(s("a")));
    assert_eq!(CleanTask::zip_stem("skia.ZIP"), Some(s("skia")));
    assert_eq!(CleanTask::zip_stem("skia.tar"), None);
    let (a, b) = CleanTask::unused_file_candidates("/p/d", "skia.zip");
    assert_eq!(a, "/p/d/skia.zip");
    assert_eq!(b, Some(s("/p/d/skia")));
    assert_eq!(CleanTask::unused_download("/p/d", "skia.zip", true), "/p/d/skia.zip");
    assert_eq!(CleanTask::unused_download("/p/d", "skia.zip", false), "/p/d/skia");
    assert_eq!(CleanTask::unused_download("/p/d", "lib.a", false), "/p/d/lib.a");
    let repos = vec![s("/p/a/"), s("/p/b")];
    assert!(!CleanTask::repo_unused("/p/a", true, &repos));
    assert!(CleanTask::repo_unused("/p/c", true, &repos));
    assert!(!CleanTask::repo_unused("/p/c", false, &repos));
}

fn deps_task(defer: bool, non_recursive: bool) -> DepsTask {
    DepsTask::new(s("/p/DEPS"), s("1.0.0"), s("mac"), non_recursive, None, true, false, vec![s(" third_party/skip ")], defer)
}

fn config() -> ParsedConfig {
    ParsedConfig {
        version: s("1.0.0"),
        repos: vec![repo("/p/third_party/a", "c1"), repo("/p/third_party/skip", "c2")],
        files: vec![file("https://h/x.zip", "h1"), file("https://h/y.zip", "h2")],
        actions: vec![ParsedActionItem { command: s("echo"), dir: s("/p") }],
        linkfiles: vec![ParsedLinkFileItem { src: s("/p/s"), dest: s("/p/d") }],
        copyfiles: vec![ParsedCopyFileItem { src: s("/p/s2"), dest: s("/p/d2") }],
    }
}

fn kinds(ts: &[PlannedTask]) -> Vec<&'static str> {
    ts.iter()
        .map(|t| match t {
            PlannedTask::Repo(_) => "repo",
            PlannedTask::SubRepo(_) => "sub",
            PlannedTask::RecursiveDeps { .. } => "deps",
            PlannedTask::File(_) => "file",
            PlannedTask::LinkFile { .. } => "link",
            PlannedTask::CopyFile { .. } => "copy",
            PlannedTask::Action(_) => "action",
        })
        .collect()
}

#[test]
fn deps_plan_orders_tasks() {
    let t = deps_task(true, false);
    let plan = t.plan(config(), &vec![s("c1\n"), s("old")], &vec![s("h1 "), s("")], false, false, s("/p"));
    assert_eq!(kinds(&plan.tasks), vec!["deps", "repo", "sub", "file", "sub"]);
    assert_eq!(kinds(&plan.deferred), vec!["link", "copy"]);
    assert_eq!(kinds(&plan.deferred_actions), vec!["action"]);
    match &plan.deferred[0] {
        PlannedTask::LinkFile { force, .. } => assert!(*force),
        _ => panic!(),
    }
    match &plan.tasks[4] {
        PlannedTask::SubRepo(d) => assert_eq!(d, "/p"),
        _ => panic!(),
    }
    let u = deps_task(false, true);
    let plan = u.plan(config(), &vec![s("c1"), s("c2")], &vec![s("h1"), s("h2")], true, false, s("/p"));
    assert_eq!(kinds(&plan.tasks), vec!["sub", "sub", "sub", "link", "copy", "action"]);
    assert!(plan.deferred.is_empty());
    assert!(plan.deferred_actions.is_empty());
}

#[test]
fn deps_paths_and_children() {
    let t = deps_task(true, false);
    assert_eq!(t.project_dir(), Some(s("/p")));
    assert_eq!(DepsTask::recursive_deps_file("/p/third_party/a"), "/p/third_party/a/DEPS");
    assert_eq!(DepsTask::get_unfinish_file("/p", true), "/p/.git/.DEPS.unfinished");
    assert_eq!(DepsTask::get_unfinish_file("/p", false), "/p/.DEPS.unfinished");
    let c = t.child(s("/p/third_party/a/DEPS"));
    assert_eq!(c.config_file, "/p/third_party/a/DEPS");
    assert_eq!(c.skip_paths, t.skip_paths);
    assert!(path_matches_skip_list("/p/third_party/skip", &t.skip_paths));
    assert!(!path_matches_skip_list("/p/third_party/a", &t.skip_paths));
}
