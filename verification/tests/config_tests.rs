use depctl::config::{
    apply_url_replace, config_search_step, filter_by_platform, format_string, parse, parse_all_platforms, parse_mirror,
    unzip_from_text, ActionItem, ConfigError, ConfigSearch, CopyFileItem, DepsConfig, FileItem,
    LinkFileItem, RepoItem, UrlReplace,
};
use depctl::utils::get_hash;

fn s(x: &str) -> String {
    x.to_string()
}

fn vars(pairs: &[(&str, &str)]) -> Vec<(String, String)> {
    pairs.iter().map(|(k, v)| (s(k), s(v))).collect()
}

#[test]
fn format_replaces_known_variables() {
    let v = vars(&[("GIT_DOMAIN", "github.com"), ("ROOT", "https://x/y")]);
    assert_eq!(
        format_string("https://${GIT_DOMAIN}/webmproject/libwebp.git", &v),
        "https://github.com/webmproject/libwebp.git"
    );
    assert_eq!(format_string("${ROOT}/include.zip", &v), "https://x/y/include.zip");
    assert_eq!(format_string("${ROOT}${GIT_DOMAIN}", &v), "https://x/ygithub.com");
}

#[test]
fn format_keeps_unknown_variables() {
    let v = vars(&[("A", "1")]);
    assert_eq!(format_string("x/${B}/y", &v), "x/${B}/y");
    assert_eq!(format_string("${}", &v), "${}");
}

#[test]
fn format_leaves_plain_text_alone() {
    let v = vars(&[("A", "1")]);
    assert_eq!(format_string("plain $ text {A} $", &v), "plain $ text {A} $");
    assert_eq!(format_string("", &v), "");
    assert_eq!(format_string("$", &v), "$");
}

#[test]
fn format_drops_unclosed_reference() {
    let v = vars(&[("A", "1")]);
    assert_eq!(format_string("abc${A", &v), "abc");
    assert_eq!(format_string("a${A}b${", &v), "a1b");
}

#[test]
fn format_uses_first_variable_of_a_name() {
    let v = vars(&[("A", "first"), ("A", "second")]);
    assert_eq!(format_string("${A}", &v), "first");
}

#[test]
fn parse_mirror_reads_pairs() {
    let r = match parse_mirror("https://github.com/->https://gitee.com/,https://gitlab.com/->https://internal.company.com/") {
        Ok(r) => r,
        Err(_) => panic!("valid mirror refused"),
    };
    assert_eq!(r.len(), 2);
    assert_eq!(r[0].old_prefix, "https://github.com/");
    assert_eq!(r[0].new_prefix, "https://gitee.com/");
    assert_eq!(r[1].old_prefix, "https://gitlab.com/");
    assert_eq!(r[1].new_prefix, "https://internal.company.com/");
}

#[test]
fn parse_mirror_refuses_malformed_pairs() {
    for bad in ["", "a", "->b", "a->", "a->b->c", "a->b,", "a->b,c"] {
        match parse_mirror(bad) {
            Err(ConfigError::InvalidMirror) => {}
            _ => panic!("accepted {:?}", bad),
        }
    }
    match parse_mirror("a-->b") {
        Ok(r) => {
            assert_eq!(r[0].old_prefix, "a-");
            assert_eq!(r[0].new_prefix, "b");
        }
        Err(_) => panic!("refused a-->b"),
    }
}

#[test]
fn parse_mirror_single_pair_reads_as_one_replacement() {
    match parse_mirror("https://github.com/->https://gitee.com/") {
        Ok(r) => {
            assert_eq!(r.len(), 1);
            assert_eq!(r[0].old_prefix, "https://github.com/");
            assert_eq!(r[0].new_prefix, "https://gitee.com/");
        }
        Err(_) => panic!("single pair refused"),
    }
}

#[test]
fn mirror_replaces_first_matching_prefix() {
    let list = vec![
        UrlReplace { old_prefix: s("https://github.com/libpag/"), new_prefix: s("https://gitee.com/pago/") },
        UrlReplace { old_prefix: s("https://github.com/"), new_prefix: s("https://mirror/") },
    ];
    assert_eq!(
        apply_url_replace("https://github.com/libpag/pag.git", Some(&list)),
        "https://gitee.com/pago/pag.git"
    );
    assert_eq!(apply_url_replace("https://github.com/x/y.git", Some(&list)), "https://mirror/x/y.git");
    assert_eq!(apply_url_replace("https://gitlab.com/x.git", Some(&list)), "https://gitlab.com/x.git");
    assert_eq!(apply_url_replace("https://github.com/x.git", None), "https://github.com/x.git");
}

#[test]
fn platform_filter_keeps_common_and_platform() {
    let items: Option<Vec<(String, Vec<u32>)>> =
        Some(vec![(s("mac"), vec![1, 2]), (s("common"), vec![3]), (s("win"), vec![4]), (s("linux"), vec![5])]);
    let mac: Vec<u32> = filter_by_platform(&items, "mac").into_iter().copied().collect();
    assert_eq!(mac, vec![1, 2, 3]);
    let linux: Vec<u32> = filter_by_platform(&items, "linux").into_iter().copied().collect();
    assert_eq!(linux, vec![3, 5]);
    let none: Vec<u32> = filter_by_platform(&items, "").into_iter().copied().collect();
    assert_eq!(none, vec![3]);
    let absent: Option<Vec<(String, Vec<u32>)>> = None;
    assert!(filter_by_platform(&absent, "mac").is_empty());
}

fn sample_config(version: Option<&str>) -> DepsConfig {
    DepsConfig {
        version: version.map(s),
        vars: Some(vars(&[("GIT_DOMAIN", "github.com"), ("SKIA_ROOT", "https://h/r")])),
        repos: Some(vec![(
            s("common"),
            vec![RepoItem {
                url: s("https://${GIT_DOMAIN}/webmproject/libwebp.git"),
                commit: s("1fe3162541ab2f5ce69aca2e2b593fab60520d34"),
                dir: s("third_party/libwebp"),
            }],
        )]),
        files: Some(vec![
            (
                s("common"),
                vec![FileItem {
                    url: s("${SKIA_ROOT}/include.zip?raw=1"),
                    dir: s("third_party/skia"),
                    unzip: true,
                    multipart: None,
                    timeout: None,
                }],
            ),
            (
                s("mac"),
                vec![FileItem {
                    url: s("${SKIA_ROOT}/darwin-x64.zip"),
                    dir: s("third_party/skia"),
                    unzip: false,
                    multipart: Some(vec![s(".001"), s(".${GIT_DOMAIN}")]),
                    timeout: Some(60000),
                }],
            ),
        ]),
        actions: Some(vec![(s("common"), vec![ActionItem { command: s("depsync --clean"), dir: s("third_party") }])]),
        linkfiles: Some(vec![(
            s("common"),
            vec![LinkFileItem { src: s("third_party/skia/include/skia"), dest: s("include/skia") }],
        )]),
        copyfiles: Some(vec![(
            s("common"),
            vec![CopyFileItem { src: s("third_party/skia/LICENSE"), dest: s("/abs/LICENSE") }],
        )]),
    }
}

#[test]
fn parse_resolves_entries() {
    let config = sample_config(Some("1.4.5"));
    let mirrors = vec![UrlReplace { old_prefix: s("https://github.com/"), new_prefix: s("https://gitee.com/") }];
    let parsed = match parse(&config, "/proj", "1.5.0", "mac", Some(&mirrors)) {
        Ok(p) => p,
        Err(_) => panic!("refused"),
    };
    assert_eq!(parsed.version, "1.4.5");
    assert_eq!(parsed.repos.len(), 1);
    assert_eq!(parsed.repos[0].url, "https://gitee.com/webmproject/libwebp.git");
    assert_eq!(parsed.repos[0].dir, "/proj/third_party/libwebp");
    assert_eq!(parsed.repos[0].commit, "1fe3162541ab2f5ce69aca2e2b593fab60520d34");
    assert_eq!(parsed.files.len(), 2);
    let f = &parsed.files[0];
    assert_eq!(f.url, "https://h/r/include.zip?raw=1");
    assert_eq!(f.dir, "/proj/third_party/skia");
    assert_eq!(f.hash, get_hash("https://h/r/include.zip?raw=1"));
    assert_eq!(f.hash_file, "/proj/third_party/skia/.include.zip.sha1");
    assert!(f.unzip);
    assert_eq!(f.timeout, 15000);
    assert!(f.multipart.is_none());
    let g = &parsed.files[1];
    assert_eq!(g.timeout, 60000);
    assert_eq!(g.multipart, Some(vec![s(".001"), s(".github.com")]));
    assert_eq!(g.hash_file, "/proj/third_party/skia/.darwin-x64.zip.sha1");
    assert_eq!(parsed.actions[0].command, "depsync --clean");
    assert_eq!(parsed.actions[0].dir, "/proj/third_party");
    assert_eq!(parsed.linkfiles[0].src, "/proj/third_party/skia/include/skia");
    assert_eq!(parsed.linkfiles[0].dest, "/proj/include/skia");
    assert_eq!(parsed.copyfiles[0].dest, "/abs/LICENSE");
}

#[test]
fn parse_for_other_platform_skips_its_files() {
    let config = sample_config(None);
    let parsed = match parse(&config, "proj", "1.0.0", "win", None) {
        Ok(p) => p,
        Err(_) => panic!("refused"),
    };
    assert_eq!(parsed.version, "0.0.0");
    assert_eq!(parsed.files.len(), 1);
    assert_eq!(parsed.repos[0].url, "https://github.com/webmproject/libwebp.git");
    assert_eq!(parsed.repos[0].dir, "proj/third_party/libwebp");
}

#[test]
fn parse_all_platforms_keeps_every_section() {
    let config = sample_config(None);
    let parsed = match parse_all_platforms(&config, "proj", "1.0.0", None) {
        Ok(p) => p,
        Err(_) => panic!("refused"),
    };
    assert_eq!(parsed.files.len(), 2);
    assert_eq!(parsed.files[1].url, "https://h/r/darwin-x64.zip");
    assert_eq!(parsed.repos.len(), 1);
    match parse_all_platforms(&sample_config(Some("9.0.0")), "proj", "1.0.0", None) {
        Err(ConfigError::VersionTooLow { .. }) => {}
        _ => panic!("newer DEPS file accepted"),
    }
}

#[test]
fn parse_refuses_newer_config_version() {
    let config = sample_config(Some("2.0.0"));
    match parse(&config, "/proj", "1.9.9", "mac", None) {
        Err(ConfigError::VersionTooLow { required, current }) => {
            assert_eq!(required, "2.0.0");
            assert_eq!(current, "1.9.9");
        }
        _ => panic!("accepted a config for a newer tool"),
    }
    assert!(parse(&config, "/proj", "2.0", "mac", None).is_ok());
}

#[test]
fn unzip_text_values() {
    assert!(unzip_from_text("true"));
    assert!(!unzip_from_text("TRUE"));
    assert!(!unzip_from_text("yes"));
}

#[test]
fn config_search_walks_upwards() {
    match config_search_step("/a/b", true) {
        ConfigSearch::Found(f) => assert_eq!(f, "/a/b/DEPS"),
        _ => panic!("not found"),
    }
    match config_search_step("/a/b", false) {
        ConfigSearch::Continue(p) => assert_eq!(p, "/a"),
        _ => panic!("did not go up"),
    }
    assert!(matches!(config_search_step("/", false), ConfigSearch::NotFound));
}

#[test]
fn relocated_file_moves_its_digest_record() {
    let config = sample_config(Some("1.0.0"));
    let parsed = match parse(&config, "/proj", "1.0.0", "linux", None) {
        Ok(p) => p,
        Err(_) => panic!("refused"),
    };
    let f = parsed.files.into_iter().next().unwrap();
    let moved = f.relocated(s("/real/skia"));
    assert_eq!(moved.dir, "/real/skia");
    assert_eq!(moved.hash_file, "/real/skia/.include.zip.sha1");
}

#[test]
fn parse_mirror_reads_back_joined_pairs() {
    let pairs = [("https://a/", "https://b/"), ("git@x:", "git@y:"), ("http://c", "https://d")];
    let text = pairs.iter().map(|(o, n)| format!("{}->{}", o, n)).collect::<Vec<_>>().join(",");
    match parse_mirror(&text) {
        Ok(r) => {
            assert_eq!(r.len(), pairs.len());
            for (u, (o, n)) in r.iter().zip(pairs.iter()) {
                assert_eq!(u.old_prefix, *o);
                assert_eq!(u.new_prefix, *n);
            }
        }
        Err(_) => panic!("joined pairs refused"),
    }
}
