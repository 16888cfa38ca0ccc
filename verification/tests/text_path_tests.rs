use depctl::config::{config_search_step, ConfigSearch, ParsedFileItem, ParsedLinkFileItem};
use depctl::path::{is_absolute, join};
use depctl::tasks::clean_task::CleanTask;
use depctl::tasks::copy_file_task::copied_link_target;
use depctl::tasks::deps_task::{path_matches_skip_list, DepsTask};
use depctl::tasks::file_task::FileTask;
use depctl::tasks::link_file_task::LinkFileTask;
use depctl::text::{before_char, contains, replace_all, split_char, starts_with, trim};

#[test]
fn join_follows_path_rules() {
    assert_eq!(join("/proj", "third_party/a"), "/proj/third_party/a");
    assert_eq!(join("/proj/", "a"), "/proj/a");
    assert_eq!(join("/proj", "/abs"), "/abs");
    assert_eq!(join("", "a"), "a");
    assert_eq!(join("a", ""), "a/");
    for (b, p) in [("/x", "y"), ("x/", "y"), ("x", "/y"), ("", ""), ("x", "y/z")] {
        assert_eq!(join(b, p), std::path::Path::new(b).join(p).to_string_lossy());
    }
    assert!(is_absolute("/a"));
    assert!(!is_absolute("a/b"));
}

fn deps_task(config_file: &str) -> DepsTask {
    DepsTask::new(config_file.to_string(), "1.0.0".to_string(), "linux".to_string(), false, None, false, false, vec![], true)
}

fn file_task(url: &str) -> FileTask {
    FileTask::new(ParsedFileItem {
        url: url.to_string(),
        dir: "/p".to_string(),
        hash: String::new(),
        hash_file: String::new(),
        unzip: false,
        multipart: None,
        timeout: 1000,
    })
}

fn link_task(src: &str, dest: &str) -> LinkFileTask {
    LinkFileTask::new(ParsedLinkFileItem { src: src.to_string(), dest: dest.to_string() }, false)
}

#[test]
fn path_components() {
    // parent directory
    assert_eq!(deps_task("/a/b/DEPS").project_dir(), Some("/a/b".to_string()));
    assert_eq!(deps_task("/").project_dir(), None);
    assert_eq!(deps_task("").project_dir(), None);
    // last component
    assert_eq!(file_task("https://h/a/b.zip?x=1").file_name(), "b.zip");
    assert_eq!(file_task("https://h/a/..").file_name(), "unknown");
    // component-wise ends-with
    let skip = vec!["third_party/chromium".to_string()];
    assert!(path_matches_skip_list("/p/third_party/chromium", &skip));
    assert!(!path_matches_skip_list("/p/third_party/chromium", &vec!["party/chromium".to_string()]));
    // component-wise equality
    assert!(CleanTask::contains_path(&vec!["/a/b/".to_string()], "/a/b"));
    assert!(!CleanTask::contains_path(&vec!["/a/b".to_string()], "/a/c"));
    match config_search_step("/", false) {
        ConfigSearch::NotFound => {}
        _ => panic!("the root has no parent to search"),
    }
    match config_search_step("/a/b", false) {
        ConfigSearch::Continue(p) => assert_eq!(p, "/a"),
        _ => panic!("expected to continue upwards"),
    }
    // relative paths
    assert_eq!(link_task("/p/third_party/x", "/p/include/x").link_target("/p/third_party/x"), "../third_party/x");
    assert_eq!(copied_link_target("/abs/x", "/abs/x", "rel/d"), "/abs/x");
    assert_eq!(copied_link_target("/p/a/x", "/p/a/x", "/p/b/y"), "../a/x");
    assert_eq!(link_task("rel/x", "/abs/d").link_target("/resolved/x"), "/resolved/x");
}

#[test]
fn text_operations() {
    assert_eq!(trim("  a b \t\n"), "a b");
    assert_eq!(trim("\u{3000}x\u{A0}"), "x");
    assert_eq!(trim("   "), "");
    assert_eq!(split_char("a,,b,", ','), vec!["a", "", "b", ""]);
    assert_eq!(split_char("", ','), vec![""]);
    assert_eq!(before_char("http://x/y?q=1?z", '?'), "http://x/y");
    assert!(contains("fatal: unadvertised object abc", "unadvertised object"));
    assert!(!contains("ab", "abc"));
    assert!(contains("abc", ""));
    assert!(starts_with("__MACOSX/x", "__MACOSX"));
    assert_eq!(replace_all("depsync --clean && depsync mac", "depsync", "/bin/depctl"), "/bin/depctl --clean && /bin/depctl mac");
    assert_eq!(replace_all("aaa", "aa", "b"), "ba");
}
