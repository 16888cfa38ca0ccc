//! Removing repositories and downloads the DEPS file no longer names.
use vstd::prelude::*;
use crate::config::ParsedConfig;
use crate::path::{join, join_spec, path_same, plain_view, same};
use crate::text::{chars_of, ends_with_spec, starts_with_spec, string_of_range};

verus! {

/// Cleans the directory tree of a project.
pub struct CleanTask {
    pub config_file: String,
    pub version: String,
}

/// `p` names the same path as one of `paths`.
pub open spec fn contains_path_spec(paths: Seq<String>, p: Seq<char>) -> bool {
    exists|k: int| 0 <= k < paths.len() && path_same(#[trigger] paths[k]@, p)
}

/// `p` and every one of `paths` are plainly written paths (`plain_view`).
pub open spec fn all_plain(paths: Seq<String>, p: Seq<char>) -> bool {
    &&& plain_view(p) is Some
    &&& forall|k: int| 0 <= k < paths.len() ==> plain_view(#[trigger] paths[k]@) is Some
}

/// The name a digest record `.<name>.sha1` stands for; `<name>` is never
/// empty, so `.sha1` and `..sha1` stand for nothing.
pub open spec fn sha1_marker_name_spec(file_name: Seq<char>) -> Option<Seq<char>> {
    if file_name.len() > 6 && starts_with_spec(file_name, seq!['.']) && ends_with_spec(
        file_name,
        ".sha1"@,
    ) {
        Some(file_name.subrange(1, file_name.len() - 5))
    } else {
        None
    }
}

/// `name` ends with `.zip` in any letter case.
pub open spec fn ends_with_zip_spec(name: Seq<char>) -> bool {
    let n = name.len();
    &&& n >= 4
    &&& name[n - 4] == '.'
    &&& (name[n - 3] == 'z' || name[n - 3] == 'Z')
    &&& (name[n - 2] == 'i' || name[n - 2] == 'I')
    &&& (name[n - 1] == 'p' || name[n - 1] == 'P')
}

/// The name of an unpacked zip download: without its `.zip` ending.
pub open spec fn zip_stem_spec(name: Seq<char>) -> Option<Seq<char>> {
    if ends_with_zip_spec(name) {
        Some(name.take(name.len() - 4))
    } else {
        None
    }
}

/// The download a digest record for `name` in `dir` stands for, given
/// whether `dir/name` exists: `dir/name` when it does, otherwise the
/// directory a `.zip` download was unpacked into, otherwise `dir/name`.
pub open spec fn unused_download_spec(dir: Seq<char>, name: Seq<char>, first_exists: bool) -> Seq<char> {
    if first_exists {
        join_spec(dir, name)
    } else {
        match zip_stem_spec(name) {
            Some(s) => join_spec(dir, s),
            None => join_spec(dir, name),
        }
    }
}

impl CleanTask {
    /// A task cleaning the project of `config_file` with tool version
    /// `version`.
    pub fn new(config_file: String, version: String) -> (r: CleanTask)
        ensures
            r.config_file == config_file,
            r.version == version,
    {
        CleanTask { config_file, version }
    }

    /// What the DEPS file still names: the repository directories and the
    /// digest records of the downloads.
    pub fn kept_paths(config: &ParsedConfig) -> (r: (Vec<String>, Vec<String>))
        ensures
            r.0@.len() == config.repos@.len(),
            forall|k: int| 0 <= k < r.0@.len() ==> #[trigger] r.0@[k] == config.repos@[k].dir,
            r.1@.len() == config.files@.len(),
            forall|k: int| 0 <= k < r.1@.len() ==> #[trigger] r.1@[k] == config.files@[k].hash_file,
    {
        let mut repos: Vec<String> = Vec::new();
        let mut i: usize = 0;
        while i < config.repos.len()
            invariant
                i <= config.repos.len(),
                repos@.len() == i,
                forall|k: int| 0 <= k < i ==> #[trigger] repos@[k] == config.repos@[k].dir,
            decreases config.repos.len() - i,
        {
            repos.push(config.repos[i].dir.clone());
            i += 1;
        }
        let mut files: Vec<String> = Vec::new();
        let mut j: usize = 0;
        while j < config.files.len()
            invariant
                j <= config.files.len(),
                files@.len() == j,
                forall|k: int| 0 <= k < j ==> #[trigger] files@[k] == config.files@[k].hash_file,
            decreases config.files.len() - j,
        {
            files.push(config.files[j].hash_file.clone());
            j += 1;
        }
        (repos, files)
    }

    /// Whether `p` names the same path as one of `paths`.
    pub fn contains_path(paths: &Vec<String>, p: &str) -> (r: bool)
        ensures
            r == contains_path_spec(paths@, p@),
            all_plain(paths@, p@) ==> (r <==> exists|k: int|
                0 <= k < paths@.len() && plain_view(#[trigger] paths@[k]@) == plain_view(p@)),
    {
        let mut i: usize = 0;
        while i < paths.len()
            invariant
                i <= paths.len(),
                forall|k: int| 0 <= k < i ==> !path_same(#[trigger] paths@[k]@, p@),
                all_plain(paths@, p@) ==> forall|k: int|
                    0 <= k < i ==> plain_view(#[trigger] paths@[k]@) != plain_view(p@),
            decreases paths.len() - i,
        {
            if same(paths[i].as_str(), p) {
                assert(all_plain(paths@, p@) ==> plain_view(paths@[i as int]@) == plain_view(p@));
                return true;
            }
            assert(all_plain(paths@, p@) ==> plain_view(paths@[i as int]@) != plain_view(p@));
            i += 1;
        }
        false
    }

    /// A shallow clone found at `path` is removed unless the DEPS file names
    /// it.
    pub fn repo_unused(path: &str, shallow_exists: bool, repo_paths: &Vec<String>) -> (r: bool)
        ensures
            r == (shallow_exists && !contains_path_spec(repo_paths@, path@)),
            all_plain(repo_paths@, path@) ==> (r <==> shallow_exists && forall|k: int|
                0 <= k < repo_paths@.len() ==> plain_view(#[trigger] repo_paths@[k]@) != plain_view(
                    path@,
                )),
    {
        shallow_exists && !Self::contains_path(repo_paths, path)
    }

    /// The name a digest record stands for, if `file_name` is one.
    pub fn sha1_marker_name(file_name: &str) -> (r: Option<String>)
        ensures
            crate::path::opt_view(r) == sha1_marker_name_spec(file_name@),
    {
        let v = chars_of(file_name);
        let dot = crate::text::starts_with(file_name, ".");
        proof {
            reveal_strlit(".");
            assert("."@ =~= seq!['.']);
        }
        if v.len() > 6 && dot && crate::text::ends_with(file_name, ".sha1") {
            Some(string_of_range(&v, 1, v.len() - 5))
        } else {
            None
        }
    }

    /// The name without its `.zip` ending, if it has one in any letter case.
    pub fn zip_stem(name: &str) -> (r: Option<String>)
        ensures
            crate::path::opt_view(r) == zip_stem_spec(name@),
    {
        let v = chars_of(name);
        let n = v.len();
        if n >= 4 && v[n - 4] == '.' && (v[n - 3] == 'z' || v[n - 3] == 'Z') && (v[n - 2] == 'i'
            || v[n - 2] == 'I') && (v[n - 1] == 'p' || v[n - 1] == 'P') {
            let stem = string_of_range(&v, 0, n - 4);
            assert(v@.subrange(0, n - 4) == v@.take(n - 4));
            Some(stem)
        } else {
            None
        }
    }

    /// The download a digest record for `name` in `dir` stands for: first
    /// `dir/name`, and where that is gone and `name` ends with `.zip`, the
    /// directory it was unpacked into.
    pub fn unused_file_candidates(dir: &str, name: &str) -> (r: (String, Option<String>))
        ensures
            r.0@ == join_spec(dir@, name@),
            crate::path::opt_view(r.1) == match zip_stem_spec(name@) {
                Some(s) => Some(join_spec(dir@, s)),
                None => None,
            },
    {
        let first = join(dir, name);
        let second = match Self::zip_stem(name) {
            Some(s) => Some(join(dir, s.as_str())),
            None => None,
        };
        (first, second)
    }

    /// The download to remove for a digest record for `name` in `dir`, given
    /// whether `dir/name` exists.
    pub fn unused_download(dir: &str, name: &str, first_exists: bool) -> (r: String)
        ensures
            r@ == unused_download_spec(dir@, name@, first_exists),
    {
        let (first, second) = Self::unused_file_candidates(dir, name);
        if first_exists {
            first
        } else {
            match second {
                Some(s) => s,
                None => first,
            }
        }
    }
}

} // verus!
