//! The DEPS file: its contents, variable substitution, URL mirrors and the
//! resolution of every entry against a project directory and a platform.
use vstd::prelude::*;
use crate::path::{file_name, join, join_spec, parent, path_file_name, path_parent, path_same, same};
use crate::text::{
    before_char, before_char_spec, chars_of, contains_spec, find_chars, find_spec, matches_at,
    push_char, split_char, split_char_spec, starts_with, starts_with_spec, str_eq, string_of_range,
    to_owned, lemma_split_appended, lemma_split_without_separator,
};
use crate::utils::{compare_version, compare_version_spec, get_hash, hex_lower_spec, sha1_digest_of};

verus! {

// ---------------------------------------------------------------------------
// The contents of a DEPS file
// ---------------------------------------------------------------------------

/// A git repository to check out.
pub struct RepoItem {
    pub url: String,
    pub commit: String,
    pub dir: String,
}

/// A file to download (and possibly unpack).
pub struct FileItem {
    pub url: String,
    pub dir: String,
    pub unzip: bool,
    pub multipart: Option<Vec<String>>,
    pub timeout: Option<u64>,
}

/// A shell command to run after synchronising.
pub struct ActionItem {
    pub command: String,
    pub dir: String,
}

/// A symbolic link to create after synchronising.
pub struct LinkFileItem {
    pub src: String,
    pub dest: String,
}

/// A file or directory to copy after synchronising.
pub struct CopyFileItem {
    pub src: String,
    pub dest: String,
}

/// A DEPS file. Each section maps a platform name (or `common`) to its
/// entries, and the variables map names to values; the pairs are held in the
/// order they were read, and no name occurs twice (`well_formed`).
pub struct DepsConfig {
    pub version: Option<String>,
    pub vars: Option<Vec<(String, String)>>,
    pub repos: Option<Vec<(String, Vec<RepoItem>)>>,
    pub files: Option<Vec<(String, Vec<FileItem>)>>,
    pub actions: Option<Vec<(String, Vec<ActionItem>)>>,
    pub linkfiles: Option<Vec<(String, Vec<LinkFileItem>)>>,
    pub copyfiles: Option<Vec<(String, Vec<CopyFileItem>)>>,
}

/// No name occurs twice among the pairs.
pub open spec fn keys_distinct<V>(entries: Seq<(String, V)>) -> bool {
    forall|i: int, j: int|
        0 <= i < j < entries.len() ==> (#[trigger] entries[i]).0@ != (#[trigger] entries[j]).0@
}

/// `keys_distinct` for a part that may be absent.
pub open spec fn opt_keys_distinct<V>(o: Option<Vec<(String, V)>>) -> bool {
    match o {
        Some(v) => keys_distinct(v@),
        None => true,
    }
}

impl DepsConfig {
    /// Every section, and the variables, name each key at most once, as a
    /// map does.
    pub open spec fn well_formed(&self) -> bool {
        &&& opt_keys_distinct(self.vars)
        &&& opt_keys_distinct(self.repos)
        &&& opt_keys_distinct(self.files)
        &&& opt_keys_distinct(self.actions)
        &&& opt_keys_distinct(self.linkfiles)
        &&& opt_keys_distinct(self.copyfiles)
    }
}

/// A repository entry resolved against the project directory.
pub struct ParsedRepoItem {
    pub url: String,
    pub commit: String,
    pub dir: String,
}

/// A file entry resolved against the project directory.
pub struct ParsedFileItem {
    pub url: String,
    pub dir: String,
    pub hash: String,
    pub hash_file: String,
    pub unzip: bool,
    pub multipart: Option<Vec<String>>,
    pub timeout: u64,
}

/// An action resolved against the project directory.
pub struct ParsedActionItem {
    pub command: String,
    pub dir: String,
}

/// A link entry resolved against the project directory.
pub struct ParsedLinkFileItem {
    pub src: String,
    pub dest: String,
}

/// A copy entry resolved against the project directory.
pub struct ParsedCopyFileItem {
    pub src: String,
    pub dest: String,
}

/// Everything a DEPS file asks for on one platform.
pub struct ParsedConfig {
    pub version: String,
    pub repos: Vec<ParsedRepoItem>,
    pub files: Vec<ParsedFileItem>,
    pub actions: Vec<ParsedActionItem>,
    pub linkfiles: Vec<ParsedLinkFileItem>,
    pub copyfiles: Vec<ParsedCopyFileItem>,
}

/// A URL prefix and the prefix that replaces it.
pub struct UrlReplace {
    pub old_prefix: String,
    pub new_prefix: String,
}

/// Why a DEPS file or a mirror argument was refused.
pub enum ConfigError {
    /// The DEPS file asks for a newer tool than the running one.
    VersionTooLow { required: String, current: String },
    /// A mirror argument is not a comma-separated list of `old->new` pairs.
    InvalidMirror,
}

// ---------------------------------------------------------------------------
// Platform selection
// ---------------------------------------------------------------------------

/// A section named `key` applies to `platform`: it is `common` or the
/// platform's own; with no platform given, every section applies.
pub open spec fn section_applies(key: Seq<char>, platform: Option<Seq<char>>) -> bool {
    match platform {
        Some(p) => key == "common"@ || key == p,
        None => true,
    }
}

/// The entries of the sections that apply to `platform`, section by section
/// in the order the sections are held.
pub open spec fn selected<T>(entries: Seq<(String, Vec<T>)>, platform: Option<Seq<char>>) -> Seq<T>
    decreases entries.len(),
{
    if entries.len() == 0 {
        Seq::<T>::empty()
    } else {
        let prev = selected(entries.drop_last(), platform);
        let e = entries.last();
        if section_applies(e.0@, platform) {
            prev + e.1@
        } else {
            prev
        }
    }
}

/// `selected` for a section that may be absent.
pub open spec fn selected_opt<T>(items: Option<Vec<(String, Vec<T>)>>, platform: Option<Seq<char>>) -> Seq<
    T,
> {
    match items {
        Some(v) => selected(v@, platform),
        None => Seq::<T>::empty(),
    }
}

/// The view of an optional string slice.
pub open spec fn opt_str(o: Option<&str>) -> Option<Seq<char>> {
    match o {
        Some(s) => Some(s@),
        None => None,
    }
}

/// The entries of a section that apply to `platform` (all of them when no
/// platform is given).
fn filter_sections<'a, T>(items: &'a Option<Vec<(String, Vec<T>)>>, platform: Option<&str>) -> (r:
    Vec<&'a T>)
    ensures
        r@.len() == selected_opt(*items, opt_str(platform)).len(),
        forall|k: int| 0 <= k < r@.len() ==> *r@[k] == selected_opt(*items, opt_str(platform))[k],
{
    let mut result: Vec<&'a T> = Vec::new();
    match items {
        None => {},
        Some(entries) => {
            let mut i: usize = 0;
            assert(entries@.take(0) == Seq::<(String, Vec<T>)>::empty());
            while i < entries.len()
                invariant
                    i <= entries.len(),
                    result@.len() == selected(entries@.take(i as int), opt_str(platform)).len(),
                    forall|k: int|
                        0 <= k < result@.len() ==> *result@[k] == selected(
                            entries@.take(i as int),
                            opt_str(platform),
                        )[k],
                decreases entries.len() - i,
            {
                let key = &entries[i].0;
                let values = &entries[i].1;
                let ghost before = selected(entries@.take(i as int), opt_str(platform));
                assert(entries@.take(i + 1).drop_last() == entries@.take(i as int));
                assert(entries@.take(i + 1).last() == entries@[i as int]);
                let applies = match platform {
                    Some(p) => str_eq(key.as_str(), "common") || str_eq(key.as_str(), p),
                    None => true,
                };
                if applies {
                    let ghost start = result@.len();
                    let mut j: usize = 0;
                    while j < values.len()
                        invariant
                            j <= values.len(),
                            start == before.len(),
                            result@.len() == start + j,
                            forall|k: int| 0 <= k < start ==> *result@[k] == before[k],
                            forall|k: int| 0 <= k < j ==> *result@[start + k] == values@[k],
                        decreases values.len() - j,
                    {
                        result.push(&values[j]);
                        j += 1;
                    }
                    assert(selected(entries@.take(i + 1), opt_str(platform)) == before + values@);
                } else {
                    assert(selected(entries@.take(i + 1), opt_str(platform)) == before);
                }
                i += 1;
            }
            assert(entries@.take(entries.len() as int) == entries@);
        },
    }
    result
}

/// The entries of a section that apply to `platform`.
pub fn filter_by_platform<'a, T>(items: &'a Option<Vec<(String, Vec<T>)>>, platform: &str) -> (r:
    Vec<&'a T>)
    ensures
        r@.len() == selected_opt(*items, Some(platform@)).len(),
        forall|k: int| 0 <= k < r@.len() ==> *r@[k] == selected_opt(*items, Some(platform@))[k],
{
    filter_sections(items, Some(platform))
}

// ---------------------------------------------------------------------------
// Variables
// ---------------------------------------------------------------------------

/// The value of the first variable named `key`.
pub open spec fn lookup_var(vars: Seq<(String, String)>, key: Seq<char>) -> Option<Seq<char>>
    decreases vars.len(),
{
    if vars.len() == 0 {
        None
    } else if vars[0].0@ == key {
        Some(vars[0].1@)
    } else {
        lookup_var(vars.drop_first(), key)
    }
}

/// The text a `${key}` reference stands for: the variable's value, or the
/// reference itself when no variable has that name.
pub open spec fn var_text(vars: Seq<(String, String)>, key: Seq<char>) -> Seq<char> {
    match lookup_var(vars, key) {
        Some(v) => v,
        None => seq!['$', '{'] + key + seq!['}'],
    }
}

/// The position of the first `c` in `s`.
pub open spec fn find_char_spec(s: Seq<char>, c: char) -> Option<int>
    decreases s.len(),
{
    if s.len() == 0 {
        None
    } else if s[0] == c {
        Some(0)
    } else {
        match find_char_spec(s.drop_first(), c) {
            Some(j) => Some(j + 1),
            None => None,
        }
    }
}

pub proof fn lemma_find_char_bounds(s: Seq<char>, c: char)
    ensures
        find_char_spec(s, c) matches Some(j) ==> 0 <= j < s.len() && s[j] == c,
    decreases s.len(),
{
    if s.len() > 0 && s[0] != c {
        lemma_find_char_bounds(s.drop_first(), c);
    }
}

proof fn lemma_find_char_at(s: Seq<char>, c: char, m: int)
    requires
        0 <= m <= s.len(),
        forall|k: int| 0 <= k < m ==> s[k] != c,
    ensures
        m < s.len() && s[m] == c ==> find_char_spec(s, c) == Some(m),
        m == s.len() ==> find_char_spec(s, c) is None,
    decreases m,
{
    if m > 0 {
        lemma_find_char_at(s.drop_first(), c, m - 1);
    }
}

/// `s` with every `${name}` reference replaced by the text it stands for.
/// A `${` that is never closed drops the rest of the text.
pub open spec fn format_spec(s: Seq<char>, vars: Seq<(String, String)>) -> Seq<char>
    decreases s.len(),
{
    if s.len() == 0 {
        Seq::<char>::empty()
    } else if s.len() >= 2 && s[0] == '$' && s[1] == '{' {
        let rest = s.skip(2);
        proof {
            lemma_find_char_bounds(rest, '}');
        }
        match find_char_spec(rest, '}') {
            Some(j) => var_text(vars, rest.take(j)) + format_spec(rest.skip(j + 1), vars),
            None => Seq::<char>::empty(),
        }
    } else {
        seq![s[0]] + format_spec(s.drop_first(), vars)
    }
}

/// The value of the first variable named `key`, if any.
fn lookup(vars: &Vec<(String, String)>, key: &String) -> (r: Option<String>)
    ensures
        crate::path::opt_view(r) == lookup_var(vars@, key@),
{
    let mut i: usize = 0;
    assert(vars@.skip(0) == vars@);
    while i < vars.len()
        invariant
            i <= vars.len(),
            lookup_var(vars@, key@) == lookup_var(vars@.skip(i as int), key@),
        decreases vars.len() - i,
    {
        assert(vars@.skip(i as int).drop_first() == vars@.skip(i + 1));
        if vars[i].0 == *key {
            return Some(vars[i].1.clone());
        }
        i += 1;
    }
    None
}

/// `text` with its `${name}` references replaced by the values in `vars`.
pub fn format_string(text: &str, vars: &Vec<(String, String)>) -> (r: String)
    ensures
        r@ == format_spec(text@, vars@),
{
    let chars = chars_of(text);
    let mut result = String::new();
    let mut i: usize = 0;
    assert(chars@.skip(0) == chars@);
    while i < chars.len()
        invariant
            i <= chars.len(),
            chars@ == text@,
            result@ + format_spec(chars@.skip(i as int), vars@) == format_spec(chars@, vars@),
        decreases chars.len() - i,
    {
        let ghost suffix = chars@.skip(i as int);
        let ghost before = result@;
        if i < chars.len() - 1 && chars[i] == '$' && chars[i + 1] == '{' {
            i += 2;
            let start = i;
            let ghost rest = chars@.skip(start as int);
            assert(rest == suffix.skip(2));
            while i < chars.len() && chars[i] != '}'
                invariant
                    start <= i <= chars.len(),
                    rest == chars@.skip(start as int),
                    forall|k: int| 0 <= k < i - start ==> rest[k] != '}',
                decreases chars.len() - i,
            {
                i += 1;
            }
            proof {
                lemma_find_char_at(rest, '}', i - start);
            }
            if i < chars.len() {
                let key = string_of_range(&chars, start, i);
                assert(key@ == rest.take(i - start));
                match lookup(vars, &key) {
                    Some(v) => {
                        result.append(v.as_str());
                    },
                    None => {
                        push_char(&mut result, '$');
                        push_char(&mut result, '{');
                        result.append(key.as_str());
                        push_char(&mut result, '}');
                    },
                }
                assert(result@ == before + var_text(vars@, rest.take(i - start)));
                assert(rest.skip(i - start + 1) == chars@.skip(i + 1));
                i += 1;
            } else {
                assert(result@ + format_spec(chars@.skip(i as int), vars@) == result@);
            }
        } else {
            push_char(&mut result, chars[i]);
            assert(suffix.drop_first() == chars@.skip(i + 1));
            i += 1;
        }
    }
    assert(chars@.skip(i as int).len() == 0);
    assert(result@ + format_spec(chars@.skip(i as int), vars@) == result@);
    result
}

// ---------------------------------------------------------------------------
// Mirrors
// ---------------------------------------------------------------------------

/// `url` with the first matching mirror applied: the first replacement whose
/// old prefix starts the URL swaps that prefix for its new one.
pub open spec fn apply_replace_spec(url: Seq<char>, reps: Seq<UrlReplace>) -> Seq<char>
    decreases reps.len(),
{
    if reps.len() == 0 {
        url
    } else if starts_with_spec(url, reps[0].old_prefix@) {
        reps[0].new_prefix@ + url.skip(reps[0].old_prefix@.len() as int)
    } else {
        apply_replace_spec(url, reps.drop_first())
    }
}

/// The replacements of an optional list.
pub open spec fn replace_list(list: Option<&Vec<UrlReplace>>) -> Seq<UrlReplace> {
    match list {
        Some(v) => v@,
        None => Seq::<UrlReplace>::empty(),
    }
}

/// `url` with the first matching mirror applied.
pub fn apply_url_replace(url: &str, url_replace_list: Option<&Vec<UrlReplace>>) -> (r: String)
    ensures
        r@ == apply_replace_spec(url@, replace_list(url_replace_list)),
{
    match url_replace_list {
        None => to_owned(url),
        Some(list) => {
            let mut i: usize = 0;
            assert(list@.skip(0) == list@);
            while i < list.len()
                invariant
                    i <= list.len(),
                    replace_list(url_replace_list) == list@,
                    apply_replace_spec(url@, list@) == apply_replace_spec(url@, list@.skip(i as int)),
                decreases list.len() - i,
            {
                assert(list@.skip(i as int).drop_first() == list@.skip(i + 1));
                let rep = &list[i];
                assert(list@.skip(i as int)[0] == list@[i as int]);
                if starts_with(url, rep.old_prefix.as_str()) {
                    let chars = chars_of(url);
                    let n = chars_of(rep.old_prefix.as_str()).len();
                    let tail = string_of_range(&chars, n, chars.len());
                    assert(tail@ == url@.skip(rep.old_prefix@.len() as int));
                    let mut r = rep.new_prefix.clone();
                    r.append(tail.as_str());
                    assert(apply_replace_spec(url@, list@.skip(i as int)) == r@);
                    return r;
                }
                i += 1;
            }
            to_owned(url)
        },
    }
}

/// The separator between the two halves of a mirror pair.
pub open spec fn arrow() -> Seq<char> {
    seq!['-', '>']
}

/// The two halves of `old->new`, when `->` occurs exactly once (as
/// `str::split("->")` finds it) and neither half is empty.
pub open spec fn mirror_pair_spec(p: Seq<char>) -> Option<(Seq<char>, Seq<char>)> {
    match find_spec(p, arrow()) {
        Some(i) => {
            let a = p.take(i);
            let b = p.skip(i + 2);
            if !contains_spec(b, arrow()) && a.len() > 0 && b.len() > 0 {
                Some((a, b))
            } else {
                None
            }
        },
        None => None,
    }
}

/// Every comma-separated piece of `s` is a valid `old->new` pair.
pub open spec fn mirror_valid(s: Seq<char>) -> bool {
    forall|k: int|
        0 <= k < split_char_spec(s, ',').len() ==> (#[trigger] mirror_pair_spec(
            split_char_spec(s, ',')[k],
        )) is Some
}

/// The halves of one mirror pair.
fn parse_mirror_pair(pair: &str) -> (r: Option<UrlReplace>)
    ensures
        r is Some <==> mirror_pair_spec(pair@) is Some,
        r matches Some(u) ==> (u.old_prefix@, u.new_prefix@) == mirror_pair_spec(pair@)->0,
{
    let chars = chars_of(pair);
    let arrow_chars = vec!['-', '>'];
    assert(arrow_chars@ == arrow());
    match find_chars(&chars, &arrow_chars) {
        None => None,
        Some(i) => {
            assert(matches_at(chars@, arrow_chars@, i as int));
            assert(i + 2 <= chars.len());
            let after = string_of_range(&chars, i + 2, chars.len());
            let after_chars = chars_of(after.as_str());
            assert(after@ == pair@.skip(i + 2));
            if find_chars(&after_chars, &arrow_chars).is_some() {
                return None;
            }
            if i == 0 || after_chars.len() == 0 {
                return None;
            }
            let before = string_of_range(&chars, 0, i);
            assert(before@ == pair@.take(i as int));
            Some(UrlReplace { old_prefix: before, new_prefix: after })
        },
    }
}

/// What reading the mirror argument `s` gives: the replacements, one per
/// comma-separated piece, exactly when every piece is a valid `old->new`
/// pair; `InvalidMirror` otherwise.
pub open spec fn parse_mirror_post(s: Seq<char>, r: Result<Vec<UrlReplace>, ConfigError>) -> bool {
    &&& (r is Ok <==> mirror_valid(s))
    &&& (r is Err ==> r->Err_0 is InvalidMirror)
    &&& (r matches Ok(v) ==> {
        &&& v@.len() == split_char_spec(s, ',').len()
        &&& forall|k: int|
            0 <= k < v@.len() ==> (#[trigger] v@[k].old_prefix@, v@[k].new_prefix@) == mirror_pair_spec(
                split_char_spec(s, ',')[k],
            )->0
    })
}

/// Parses `old1->new1,old2->new2` into URL replacements.
pub fn parse_mirror(mirror_str: &str) -> (r: Result<Vec<UrlReplace>, ConfigError>)
    ensures
        parse_mirror_post(mirror_str@, r),
{
    let pairs = split_char(mirror_str, ',');
    let mut result: Vec<UrlReplace> = Vec::new();
    let mut i: usize = 0;
    while i < pairs.len()
        invariant
            i <= pairs.len(),
            pairs@.len() == split_char_spec(mirror_str@, ',').len(),
            forall|k: int|
                0 <= k < pairs@.len() ==> #[trigger] pairs@[k]@ == split_char_spec(
                    mirror_str@,
                    ',',
                )[k],
            result@.len() == i,
            forall|k: int|
                0 <= k < i ==> (mirror_pair_spec(split_char_spec(mirror_str@, ',')[k])) is Some,
            forall|k: int|
                0 <= k < i ==> (#[trigger] result@[k].old_prefix@, result@[k].new_prefix@)
                    == mirror_pair_spec(split_char_spec(mirror_str@, ',')[k])->0,
        decreases pairs.len() - i,
    {
        assert(pairs@[i as int]@ == split_char_spec(mirror_str@, ',')[i as int]);
        match parse_mirror_pair(pairs[i].as_str()) {
            Some(u) => {
                result.push(u);
            },
            None => {
                assert(!mirror_valid(mirror_str@)) by {
                    assert(mirror_pair_spec(split_char_spec(mirror_str@, ',')[i as int]) is None);
                }
                return Err(ConfigError::InvalidMirror);
            },
        }
        i += 1;
    }
    assert(mirror_valid(mirror_str@)) by {
        assert forall|k: int| 0 <= k < split_char_spec(mirror_str@, ',').len() implies (
        #[trigger] mirror_pair_spec(split_char_spec(mirror_str@, ',')[k])) is Some by {}
    }
    Ok(result)
}

// ---------------------------------------------------------------------------
// Resolving entries
// ---------------------------------------------------------------------------

/// The variables of a DEPS file (none when absent).
pub open spec fn vars_of(vars: Option<Vec<(String, String)>>) -> Seq<(String, String)> {
    match vars {
        Some(v) => v@,
        None => Seq::<(String, String)>::empty(),
    }
}

/// The name of the file a URL downloads: the last path component of the URL
/// without its query, or `unknown`.
pub open spec fn url_file_name(url: Seq<char>) -> Seq<char> {
    match path_file_name(before_char_spec(url, '?')) {
        Some(n) => n,
        None => "unknown"@,
    }
}

/// Where the digest of a downloaded URL is recorded: `.<file name>.sha1` in
/// the download directory.
pub open spec fn hash_file_spec(dir: Seq<char>, url: Seq<char>) -> Seq<char> {
    join_spec(dir, seq!['.'] + url_file_name(url) + ".sha1"@)
}

/// The hex SHA-1 digest that identifies a download URL.
pub open spec fn url_hash_spec(url: Seq<char>) -> Seq<char> {
    hex_lower_spec(sha1_digest_of(url))
}

/// A repository entry resolved with `vars`, `project` and mirrors `reps`.
pub open spec fn repo_parsed(
    p: ParsedRepoItem,
    item: RepoItem,
    vars: Seq<(String, String)>,
    project: Seq<char>,
    reps: Seq<UrlReplace>,
) -> bool {
    &&& p.url@ == apply_replace_spec(format_spec(item.url@, vars), reps)
    &&& p.commit@ == format_spec(item.commit@, vars)
    &&& p.dir@ == join_spec(project, format_spec(item.dir@, vars))
}

/// The multipart suffixes of an entry resolved with `vars`.
pub open spec fn multipart_parsed(
    p: Option<Vec<String>>,
    item: Option<Vec<String>>,
    vars: Seq<(String, String)>,
) -> bool {
    match (p, item) {
        (None, None) => true,
        (Some(a), Some(b)) => a@.len() == b@.len() && forall|k: int|
            0 <= k < a@.len() ==> #[trigger] a@[k]@ == format_spec(b@[k]@, vars),
        _ => false,
    }
}

/// A file entry resolved with `vars`, `project` and mirrors `reps`.
pub open spec fn file_parsed(
    p: ParsedFileItem,
    item: FileItem,
    vars: Seq<(String, String)>,
    project: Seq<char>,
    reps: Seq<UrlReplace>,
) -> bool {
    let url = apply_replace_spec(format_spec(item.url@, vars), reps);
    &&& p.url@ == url
    &&& p.dir@ == join_spec(project, format_spec(item.dir@, vars))
    &&& p.hash@ == url_hash_spec(url)
    &&& p.hash_file@ == hash_file_spec(p.dir@, url)
    &&& p.unzip == item.unzip
    &&& multipart_parsed(p.multipart, item.multipart, vars)
    &&& p.timeout == match item.timeout {
        Some(t) => t,
        None => 15000u64,
    }
}

/// An action resolved with `vars` and `project`.
pub open spec fn action_parsed(
    p: ParsedActionItem,
    item: ActionItem,
    vars: Seq<(String, String)>,
    project: Seq<char>,
) -> bool {
    &&& p.command@ == format_spec(item.command@, vars)
    &&& p.dir@ == join_spec(project, format_spec(item.dir@, vars))
}

/// A link entry resolved with `vars` and `project`.
pub open spec fn linkfile_parsed(
    p: ParsedLinkFileItem,
    item: LinkFileItem,
    vars: Seq<(String, String)>,
    project: Seq<char>,
) -> bool {
    &&& p.src@ == join_spec(project, format_spec(item.src@, vars))
    &&& p.dest@ == join_spec(project, format_spec(item.dest@, vars))
}

/// A copy entry resolved with `vars` and `project`.
pub open spec fn copyfile_parsed(
    p: ParsedCopyFileItem,
    item: CopyFileItem,
    vars: Seq<(String, String)>,
    project: Seq<char>,
) -> bool {
    &&& p.src@ == join_spec(project, format_spec(item.src@, vars))
    &&& p.dest@ == join_spec(project, format_spec(item.dest@, vars))
}

/// The `.<file name>.sha1` record for a URL downloaded into `dir`.
pub fn hash_file_path(dir: &str, url: &str) -> (r: String)
    ensures
        r@ == hash_file_spec(dir@, url@),
{
    let without_query = before_char(url, '?');
    let name = match file_name(without_query.as_str()) {
        Some(n) => n,
        None => to_owned("unknown"),
    };
    let mut marker = String::new();
    push_char(&mut marker, '.');
    marker.append(name.as_str());
    marker.append(".sha1");
    join(dir, marker.as_str())
}

impl ParsedFileItem {
    /// The same entry downloaded into `dir` instead: its digest record moves
    /// along.
    pub fn relocated(self, dir: String) -> (r: ParsedFileItem)
        ensures
            r.dir@ == dir@,
            r.hash_file@ == hash_file_spec(dir@, self.url@),
            r.url@ == self.url@,
            r.hash@ == self.hash@,
            r.unzip == self.unzip,
            r.multipart == self.multipart,
            r.timeout == self.timeout,
    {
        let hash_file = hash_file_path(dir.as_str(), self.url.as_str());
        ParsedFileItem { dir, hash_file, ..self }
    }
}

fn format_all(parts: &Vec<String>, vars: &Vec<(String, String)>) -> (r: Vec<String>)
    ensures
        r@.len() == parts@.len(),
        forall|k: int| 0 <= k < r@.len() ==> #[trigger] r@[k]@ == format_spec(parts@[k]@, vars@),
{
    let mut r: Vec<String> = Vec::new();
    let mut i: usize = 0;
    while i < parts.len()
        invariant
            i <= parts.len(),
            r@.len() == i,
            forall|k: int| 0 <= k < i ==> #[trigger] r@[k]@ == format_spec(parts@[k]@, vars@),
        decreases parts.len() - i,
    {
        r.push(format_string(parts[i].as_str(), vars));
        i += 1;
    }
    r
}

fn parse_repos(
    repos: &Vec<&RepoItem>,
    vars: &Vec<(String, String)>,
    project_path: &str,
    url_replace_list: Option<&Vec<UrlReplace>>,
) -> (r: Vec<ParsedRepoItem>)
    ensures
        r@.len() == repos@.len(),
        forall|k: int|
            0 <= k < r@.len() ==> repo_parsed(
                #[trigger] r@[k],
                *repos@[k],
                vars@,
                project_path@,
                replace_list(url_replace_list),
            ),
{
    let mut result: Vec<ParsedRepoItem> = Vec::new();
    let mut i: usize = 0;
    while i < repos.len()
        invariant
            i <= repos.len(),
            result@.len() == i,
            forall|k: int|
                0 <= k < i ==> repo_parsed(
                    #[trigger] result@[k],
                    *repos@[k],
                    vars@,
                    project_path@,
                    replace_list(url_replace_list),
                ),
        decreases repos.len() - i,
    {
        let item = repos[i];
        let formatted = format_string(item.url.as_str(), vars);
        let url = apply_url_replace(formatted.as_str(), url_replace_list);
        let commit = format_string(item.commit.as_str(), vars);
        let dir_str = format_string(item.dir.as_str(), vars);
        let dir = join(project_path, dir_str.as_str());
        result.push(ParsedRepoItem { url, commit, dir });
        i += 1;
    }
    result
}

fn parse_files(
    files: &Vec<&FileItem>,
    vars: &Vec<(String, String)>,
    project_path: &str,
    url_replace_list: Option<&Vec<UrlReplace>>,
) -> (r: Vec<ParsedFileItem>)
    ensures
        r@.len() == files@.len(),
        forall|k: int|
            0 <= k < r@.len() ==> file_parsed(
                #[trigger] r@[k],
                *files@[k],
                vars@,
                project_path@,
                replace_list(url_replace_list),
            ),
{
    let mut result: Vec<ParsedFileItem> = Vec::new();
    let mut i: usize = 0;
    while i < files.len()
        invariant
            i <= files.len(),
            result@.len() == i,
            forall|k: int|
                0 <= k < i ==> file_parsed(
                    #[trigger] result@[k],
                    *files@[k],
                    vars@,
                    project_path@,
                    replace_list(url_replace_list),
                ),
        decreases files.len() - i,
    {
        let item = files[i];
        let formatted = format_string(item.url.as_str(), vars);
        let url = apply_url_replace(formatted.as_str(), url_replace_list);
        let dir_str = format_string(item.dir.as_str(), vars);
        let dir = join(project_path, dir_str.as_str());
        let hash = get_hash(url.as_str());
        let hash_file = hash_file_path(dir.as_str(), url.as_str());
        let multipart = match &item.multipart {
            Some(parts) => Some(format_all(parts, vars)),
            None => None,
        };
        let timeout = match item.timeout {
            Some(t) => t,
            None => 15000u64,
        };
        result.push(
            ParsedFileItem { url, dir, hash, hash_file, unzip: item.unzip, multipart, timeout },
        );
        i += 1;
    }
    result
}

fn parse_actions(actions: &Vec<&ActionItem>, vars: &Vec<(String, String)>, project_path: &str) -> (r:
    Vec<ParsedActionItem>)
    ensures
        r@.len() == actions@.len(),
        forall|k: int|
            0 <= k < r@.len() ==> action_parsed(#[trigger] r@[k], *actions@[k], vars@, project_path@),
{
    let mut result: Vec<ParsedActionItem> = Vec::new();
    let mut i: usize = 0;
    while i < actions.len()
        invariant
            i <= actions.len(),
            result@.len() == i,
            forall|k: int|
                0 <= k < i ==> action_parsed(#[trigger] result@[k], *actions@[k], vars@, project_path@),
        decreases actions.len() - i,
    {
        let item = actions[i];
        let command = format_string(item.command.as_str(), vars);
        let dir_str = format_string(item.dir.as_str(), vars);
        let dir = join(project_path, dir_str.as_str());
        result.push(ParsedActionItem { command, dir });
        i += 1;
    }
    result
}

fn parse_linkfiles(
    linkfiles: &Vec<&LinkFileItem>,
    vars: &Vec<(String, String)>,
    project_path: &str,
) -> (r: Vec<ParsedLinkFileItem>)
    ensures
        r@.len() == linkfiles@.len(),
        forall|k: int|
            0 <= k < r@.len() ==> linkfile_parsed(
                #[trigger] r@[k],
                *linkfiles@[k],
                vars@,
                project_path@,
            ),
{
    let mut result: Vec<ParsedLinkFileItem> = Vec::new();
    let mut i: usize = 0;
    while i < linkfiles.len()
        invariant
            i <= linkfiles.len(),
            result@.len() == i,
            forall|k: int|
                0 <= k < i ==> linkfile_parsed(
                    #[trigger] result@[k],
                    *linkfiles@[k],
                    vars@,
                    project_path@,
                ),
        decreases linkfiles.len() - i,
    {
        let item = linkfiles[i];
        let src_str = format_string(item.src.as_str(), vars);
        let dest_str = format_string(item.dest.as_str(), vars);
        let src = join(project_path, src_str.as_str());
        let dest = join(project_path, dest_str.as_str());
        result.push(ParsedLinkFileItem { src, dest });
        i += 1;
    }
    result
}

fn parse_copyfiles(
    copyfiles: &Vec<&CopyFileItem>,
    vars: &Vec<(String, String)>,
    project_path: &str,
) -> (r: Vec<ParsedCopyFileItem>)
    ensures
        r@.len() == copyfiles@.len(),
        forall|k: int|
            0 <= k < r@.len() ==> copyfile_parsed(
                #[trigger] r@[k],
                *copyfiles@[k],
                vars@,
                project_path@,
            ),
{
    let mut result: Vec<ParsedCopyFileItem> = Vec::new();
    let mut i: usize = 0;
    while i < copyfiles.len()
        invariant
            i <= copyfiles.len(),
            result@.len() == i,
            forall|k: int|
                0 <= k < i ==> copyfile_parsed(
                    #[trigger] result@[k],
                    *copyfiles@[k],
                    vars@,
                    project_path@,
                ),
        decreases copyfiles.len() - i,
    {
        let item = copyfiles[i];
        let src_str = format_string(item.src.as_str(), vars);
        let dest_str = format_string(item.dest.as_str(), vars);
        let src = join(project_path, src_str.as_str());
        let dest = join(project_path, dest_str.as_str());
        result.push(ParsedCopyFileItem { src, dest });
        i += 1;
    }
    result
}

/// The version a DEPS file asks for (`0.0.0` when it names none).
pub open spec fn config_version_spec(deps: DepsConfig) -> Seq<char> {
    match deps.version {
        Some(v) => v@,
        None => "0.0.0"@,
    }
}

/// A DEPS file resolved for one platform.
pub open spec fn config_parsed(
    c: ParsedConfig,
    deps: DepsConfig,
    project: Seq<char>,
    platform: Option<Seq<char>>,
    reps: Seq<UrlReplace>,
) -> bool {
    let vars = vars_of(deps.vars);
    let repos = selected_opt(deps.repos, platform);
    let files = selected_opt(deps.files, platform);
    let actions = selected_opt(deps.actions, platform);
    let linkfiles = selected_opt(deps.linkfiles, platform);
    let copyfiles = selected_opt(deps.copyfiles, platform);
    &&& c.version@ == config_version_spec(deps)
    &&& c.repos@.len() == repos.len()
    &&& forall|k: int|
        0 <= k < repos.len() ==> repo_parsed(#[trigger] c.repos@[k], repos[k], vars, project, reps)
    &&& c.files@.len() == files.len()
    &&& forall|k: int|
        0 <= k < files.len() ==> file_parsed(#[trigger] c.files@[k], files[k], vars, project, reps)
    &&& c.actions@.len() == actions.len()
    &&& forall|k: int|
        0 <= k < actions.len() ==> action_parsed(#[trigger] c.actions@[k], actions[k], vars, project)
    &&& c.linkfiles@.len() == linkfiles.len()
    &&& forall|k: int|
        0 <= k < linkfiles.len() ==> linkfile_parsed(
            #[trigger] c.linkfiles@[k],
            linkfiles[k],
            vars,
            project,
        )
    &&& c.copyfiles@.len() == copyfiles.len()
    &&& forall|k: int|
        0 <= k < copyfiles.len() ==> copyfile_parsed(
            #[trigger] c.copyfiles@[k],
            copyfiles[k],
            vars,
            project,
        )
}

/// Resolves the sections of a DEPS file that apply to `platform` (all of
/// them when no platform is given).
fn resolve(
    deps_config: &DepsConfig,
    project_path: &str,
    tool_version: &str,
    platform: Option<&str>,
    url_replace_list: Option<&Vec<UrlReplace>>,
) -> (r: Result<ParsedConfig, ConfigError>)
    requires
        deps_config.well_formed(),
    ensures
        r is Err <==> compare_version_spec(tool_version@, config_version_spec(*deps_config)) < 0,
        r matches Err(e) ==> e matches ConfigError::VersionTooLow { required, current }
            && required@ == config_version_spec(*deps_config) && current@ == tool_version@,
        r matches Ok(c) ==> config_parsed(
            c,
            *deps_config,
            project_path@,
            opt_str(platform),
            replace_list(url_replace_list),
        ),
{
    let config_version = match &deps_config.version {
        Some(v) => v.clone(),
        None => to_owned("0.0.0"),
    };
    if compare_version(tool_version, config_version.as_str()) < 0 {
        return Err(
            ConfigError::VersionTooLow { required: config_version, current: to_owned(tool_version) },
        );
    }
    let no_vars: Vec<(String, String)> = Vec::new();
    let vars: &Vec<(String, String)> = match &deps_config.vars {
        Some(v) => v,
        None => &no_vars,
    };
    assert(vars@ == vars_of(deps_config.vars));
    let repos = filter_sections(&deps_config.repos, platform);
    let files = filter_sections(&deps_config.files, platform);
    let actions = filter_sections(&deps_config.actions, platform);
    let linkfiles = filter_sections(&deps_config.linkfiles, platform);
    let copyfiles = filter_sections(&deps_config.copyfiles, platform);
    let parsed_repos = parse_repos(&repos, vars, project_path, url_replace_list);
    let parsed_files = parse_files(&files, vars, project_path, url_replace_list);
    let parsed_actions = parse_actions(&actions, vars, project_path);
    let parsed_linkfiles = parse_linkfiles(&linkfiles, vars, project_path);
    let parsed_copyfiles = parse_copyfiles(&copyfiles, vars, project_path);
    Ok(
        ParsedConfig {
            version: config_version,
            repos: parsed_repos,
            files: parsed_files,
            actions: parsed_actions,
            linkfiles: parsed_linkfiles,
            copyfiles: parsed_copyfiles,
        },
    )
}

/// Resolves a DEPS file found in `project_path` for `platform`: refuses it
/// when it asks for a newer tool than `tool_version`, otherwise substitutes
/// its variables, applies the mirrors to repository and file URLs and joins
/// every directory to the project directory.
pub fn parse(
    deps_config: &DepsConfig,
    project_path: &str,
    tool_version: &str,
    platform: &str,
    url_replace_list: Option<&Vec<UrlReplace>>,
) -> (r: Result<ParsedConfig, ConfigError>)
    requires
        deps_config.well_formed(),
    ensures
        r is Err <==> compare_version_spec(tool_version@, config_version_spec(*deps_config)) < 0,
        r matches Err(e) ==> e matches ConfigError::VersionTooLow { required, current }
            && required@ == config_version_spec(*deps_config) && current@ == tool_version@,
        r matches Ok(c) ==> config_parsed(
            c,
            *deps_config,
            project_path@,
            Some(platform@),
            replace_list(url_replace_list),
        ),
{
    resolve(deps_config, project_path, tool_version, Some(platform), url_replace_list)
}

/// Resolves every entry a DEPS file found in `project_path` names, for every
/// platform: what a clean keeps. Refuses the file when it asks for a newer
/// tool than `tool_version`.
pub fn parse_all_platforms(
    deps_config: &DepsConfig,
    project_path: &str,
    tool_version: &str,
    url_replace_list: Option<&Vec<UrlReplace>>,
) -> (r: Result<ParsedConfig, ConfigError>)
    requires
        deps_config.well_formed(),
    ensures
        r is Err <==> compare_version_spec(tool_version@, config_version_spec(*deps_config)) < 0,
        r matches Err(e) ==> e matches ConfigError::VersionTooLow { required, current }
            && required@ == config_version_spec(*deps_config) && current@ == tool_version@,
        r matches Ok(c) ==> config_parsed(
            c,
            *deps_config,
            project_path@,
            None,
            replace_list(url_replace_list),
        ),
{
    resolve(deps_config, project_path, tool_version, None, url_replace_list)
}

/// How a `unzip` field written as text reads: only `true` turns it on.
pub fn unzip_from_text(s: &str) -> (r: bool)
    ensures
        r == (s@ == "true"@),
{
    str_eq(s, "true")
}

// ---------------------------------------------------------------------------
// Finding the DEPS file
// ---------------------------------------------------------------------------

/// One step of looking for a DEPS file, from a directory upwards.
pub enum ConfigSearch {
    /// The DEPS file is this one.
    Found(String),
    /// Look in this directory next.
    Continue(String),
    /// There is no DEPS file above the start directory.
    NotFound,
}

/// Looks for a DEPS file in `current`, given whether `current/DEPS` exists:
/// found there, or go on with the parent directory, or stop at the top.
pub fn config_search_step(current: &str, deps_exists: bool) -> (r: ConfigSearch)
    ensures
        deps_exists ==> (r matches ConfigSearch::Found(f) && f@ == join_spec(current@, "DEPS"@)),
        !deps_exists ==> match path_parent(current@) {
            Some(p) => if path_same(p, current@) {
                r is NotFound
            } else {
                r matches ConfigSearch::Continue(q) && q@ == p
            },
            None => r is NotFound,
        },
{
    if deps_exists {
        return ConfigSearch::Found(join(current, "DEPS"));
    }
    match parent(current) {
        Some(p) => {
            if same(p.as_str(), current) {
                ConfigSearch::NotFound
            } else {
                ConfigSearch::Continue(p)
            }
        },
        None => ConfigSearch::NotFound,
    }
}

/// The DEPS file a directory would hold.
pub fn config_candidate(dir: &str) -> (r: String)
    ensures
        r@ == join_spec(dir@, "DEPS"@),
{
    join(dir, "DEPS")
}

// ---------------------------------------------------------------------------
// Laws
// ---------------------------------------------------------------------------

proof fn lemma_contains_drop_first(s: Seq<char>, p: Seq<char>)
    requires
        s.len() > 0,
        contains_spec(s.drop_first(), p),
    ensures
        contains_spec(s, p),
{
    let i = choose|i: int| matches_at(s.drop_first(), p, i);
    assert(s.subrange(i + 1, i + 1 + p.len()) == s.drop_first().subrange(i, i + p.len()));
    assert(matches_at(s, p, i + 1));
}

/// Text holding no `${` comes out of variable substitution unchanged.
pub proof fn law_format_without_references(s: Seq<char>, vars: Seq<(String, String)>)
    requires
        !contains_spec(s, seq!['$', '{']),
    ensures
        format_spec(s, vars) == s,
    decreases s.len(),
{
    if s.len() > 0 {
        if s.len() >= 2 && s[0] == '$' && s[1] == '{' {
            assert(s.subrange(0, 2) == seq!['$', '{']);
            assert(matches_at(s, seq!['$', '{'], 0));
        } else {
            if contains_spec(s.drop_first(), seq!['$', '{']) {
                lemma_contains_drop_first(s, seq!['$', '{']);
            }
            law_format_without_references(s.drop_first(), vars);
            assert(s == seq![s[0]] + s.drop_first());
        }
    }
}

/// A reference `${key}` stands for the variable's value, or stays as it is
/// when no variable has that name.
pub proof fn law_format_reference(key: Seq<char>, vars: Seq<(String, String)>)
    requires
        forall|k: int| 0 <= k < key.len() ==> key[k] != '}',
    ensures
        format_spec(seq!['$', '{'] + key + seq!['}'], vars) == var_text(vars, key),
{
    let s = seq!['$', '{'] + key + seq!['}'];
    let rest = s.skip(2);
    assert(rest == key + seq!['}']);
    lemma_find_char_at(rest, '}', key.len() as int);
    assert(rest.take(key.len() as int) == key);
    assert(rest.skip(key.len() as int + 1).len() == 0);
    assert(format_spec(rest.skip(key.len() as int + 1), vars) == Seq::<char>::empty());
    assert(var_text(vars, key) + Seq::<char>::empty() == var_text(vars, key));
}

/// A mirror replaces the prefix it names and keeps the rest of the URL; a
/// URL it does not prefix is left alone.
pub proof fn law_mirror_replaces_prefix(u: UrlReplace, url: Seq<char>)
    ensures
        starts_with_spec(url, u.old_prefix@) ==> apply_replace_spec(url, seq![u]) == u.new_prefix@
            + url.skip(u.old_prefix@.len() as int),
        !starts_with_spec(url, u.old_prefix@) ==> apply_replace_spec(url, seq![u]) == url,
        apply_replace_spec(u.old_prefix@ + url, seq![u]) == u.new_prefix@ + url,
{
    assert(seq![u].drop_first().len() == 0);
    assert(apply_replace_spec(url, seq![u].drop_first()) == url);
    let full = u.old_prefix@ + url;
    assert(full.take(u.old_prefix@.len() as int) == u.old_prefix@);
    assert(full.skip(u.old_prefix@.len() as int) == url);
}


proof fn lemma_first_match(s: Seq<char>, p: Seq<char>, l: int)
    requires
        matches_at(s, p, l),
        forall|j: int| 0 <= j < l ==> !matches_at(s, p, j),
    ensures
        find_spec(s, p) == Some(l),
{
    let w = choose|i: int| matches_at(s, p, i) && forall|j: int| 0 <= j < i ==> !matches_at(s, p, j);
    assert(matches_at(s, p, l) && forall|j: int| 0 <= j < l ==> !matches_at(s, p, j));
    if w < l {
        assert(!matches_at(s, p, w));
    } else if w > l {
        assert(!matches_at(s, p, l));
    }
}

proof fn lemma_arrow_first_after(old: Seq<char>, new: Seq<char>)
    requires
        !contains_spec(old, arrow()),
    ensures
        find_spec(old + arrow() + new, arrow()) == Some(old.len() as int),
{
    let s = old + arrow() + new;
    let l = old.len() as int;
    assert(s.subrange(l, l + 2) == arrow());
    assert forall|j: int| 0 <= j < l implies !matches_at(s, arrow(), j) by {
        if matches_at(s, arrow(), j) {
            if j + 1 < l {
                assert(old.subrange(j, j + 2) == s.subrange(j, j + 2));
                assert(matches_at(old, arrow(), j));
            } else {
                assert(s.subrange(j, j + 2)[1] == '>');
                assert(s[l] == '-');
            }
        }
    }
    lemma_first_match(s, arrow(), l);
}

proof fn lemma_pair_text_comma_free(old: Seq<char>, new: Seq<char>)
    requires
        forall|k: int| 0 <= k < old.len() ==> old[k] != ',',
        forall|k: int| 0 <= k < new.len() ==> new[k] != ',',
    ensures
        forall|k: int| 0 <= k < (old + arrow() + new).len() ==> (old + arrow() + new)[k] != ',',
{
    let s = old + arrow() + new;
    let l = old.len() as int;
    assert forall|k: int| 0 <= k < s.len() implies s[k] != ',' by {
        if k < l {
            assert(s[k] == old[k]);
        } else if k < l + 2 {
            assert(s[k] == arrow()[k - l]);
        } else {
            assert(s[k] == new[k - l - 2]);
        }
    }
}

proof fn lemma_pair_without_comma(old: Seq<char>, new: Seq<char>)
    requires
        forall|k: int| 0 <= k < old.len() ==> old[k] != ',',
        forall|k: int| 0 <= k < new.len() ==> new[k] != ',',
    ensures
        split_char_spec(old + arrow() + new, ',') == seq![old + arrow() + new],
{
    lemma_pair_text_comma_free(old, new);
    lemma_split_without_separator(old + arrow() + new, ',');
}

#[verifier::spinoff_prover]
proof fn lemma_pair_halves(old: Seq<char>, new: Seq<char>)
    requires
        old.len() > 0,
        new.len() > 0,
        !contains_spec(old, arrow()),
        !contains_spec(new, arrow()),
    ensures
        mirror_pair_spec(old + arrow() + new) == Some((old, new)),
{
    let s = old + arrow() + new;
    let l = old.len() as int;
    lemma_arrow_first_after(old, new);
    assert(s.take(l) =~= old);
    assert(s.skip(l + 2) =~= new);
}

/// A mirror argument holding one `old->new` pair, where neither half holds
/// `->` or `,` and both are non-empty, reads as exactly that replacement.
pub proof fn law_mirror_single_pair(old: Seq<char>, new: Seq<char>)
    requires
        old.len() > 0,
        new.len() > 0,
        !contains_spec(old, arrow()),
        !contains_spec(new, arrow()),
        forall|k: int| 0 <= k < old.len() ==> old[k] != ',',
        forall|k: int| 0 <= k < new.len() ==> new[k] != ',',
    ensures
        split_char_spec(old + arrow() + new, ',') == seq![old + arrow() + new],
        mirror_pair_spec(old + arrow() + new) == Some((old, new)),
        mirror_valid(old + arrow() + new),
{
    let s = old + arrow() + new;
    lemma_pair_without_comma(old, new);
    lemma_pair_halves(old, new);
    assert forall|k: int| 0 <= k < split_char_spec(s, ',').len() implies (#[trigger] mirror_pair_spec(
        split_char_spec(s, ',')[k],
    )) is Some by {
        assert(k == 0);
        assert(split_char_spec(s, ',')[k] == s);
    }
}

/// `old->new`.
pub open spec fn pair_text(p: (Seq<char>, Seq<char>)) -> Seq<char> {
    p.0 + arrow() + p.1
}

/// The pairs written as a mirror argument: `old1->new1,old2->new2,...`.
pub open spec fn join_pairs(ps: Seq<(Seq<char>, Seq<char>)>) -> Seq<char>
    decreases ps.len(),
{
    if ps.len() == 0 {
        Seq::<char>::empty()
    } else if ps.len() == 1 {
        pair_text(ps[0])
    } else {
        join_pairs(ps.drop_last()) + seq![','] + pair_text(ps.last())
    }
}

/// A half of a mirror pair that reads back as written.
pub open spec fn mirror_half(h: Seq<char>) -> bool {
    &&& h.len() > 0
    &&& !contains_spec(h, arrow())
    &&& forall|k: int| 0 <= k < h.len() ==> h[k] != ','
}


proof fn lemma_split_join_pairs(ps: Seq<(Seq<char>, Seq<char>)>)
    requires
        ps.len() > 0,
        forall|k: int| 0 <= k < ps.len() ==> mirror_half(#[trigger] ps[k].0) && mirror_half(ps[k].1),
    ensures
        split_char_spec(join_pairs(ps), ',') == ps.map_values(|p: (Seq<char>, Seq<char>)| pair_text(p)),
    decreases ps.len(),
{
    let last = ps.last();
    assert(mirror_half(ps[ps.len() - 1].0));
    lemma_pair_text_comma_free(last.0, last.1);
    if ps.len() == 1 {
        lemma_split_without_separator(pair_text(last), ',');
        assert(ps.map_values(|p: (Seq<char>, Seq<char>)| pair_text(p)) =~= seq![pair_text(last)]);
    } else {
        let init = ps.drop_last();
        assert forall|k: int| 0 <= k < init.len() implies mirror_half(#[trigger] init[k].0) && mirror_half(
            init[k].1,
        ) by {
            assert(init[k] == ps[k]);
        }
        lemma_split_join_pairs(init);
        lemma_split_appended(join_pairs(init), ',', pair_text(last));
        assert(ps.map_values(|p: (Seq<char>, Seq<char>)| pair_text(p)) =~= init.map_values(
            |p: (Seq<char>, Seq<char>)| pair_text(p),
        ).push(pair_text(last)));
    }
}

/// Mirror pairs written as `old1->new1,old2->new2,...`, whose halves are
/// non-empty and hold neither `->` nor `,`, read back as exactly those
/// pairs, in order.
pub proof fn law_mirror_round_trip(ps: Seq<(Seq<char>, Seq<char>)>)
    requires
        ps.len() > 0,
        forall|k: int| 0 <= k < ps.len() ==> mirror_half(#[trigger] ps[k].0) && mirror_half(ps[k].1),
    ensures
        mirror_valid(join_pairs(ps)),
        split_char_spec(join_pairs(ps), ',').len() == ps.len(),
        forall|k: int|
            0 <= k < ps.len() ==> mirror_pair_spec(#[trigger] split_char_spec(join_pairs(ps), ',')[k])
                == Some(ps[k]),
{
    lemma_split_join_pairs(ps);
    let pieces = split_char_spec(join_pairs(ps), ',');
    assert forall|k: int| 0 <= k < ps.len() implies mirror_pair_spec(#[trigger] pieces[k]) == Some(
        ps[k],
    ) by {
        assert(mirror_half(ps[k].0) && mirror_half(ps[k].1));
        assert(pieces[k] == pair_text(ps[k]));
        lemma_pair_halves(ps[k].0, ps[k].1);
    }
    assert forall|k: int| 0 <= k < pieces.len() implies (#[trigger] mirror_pair_spec(pieces[k])) is Some by {
        assert(mirror_pair_spec(pieces[k]) == Some(ps[k]));
    }
}

/// The halves of each replacement.
pub open spec fn replaces_view(v: Seq<UrlReplace>) -> Seq<(Seq<char>, Seq<char>)> {
    v.map_values(|u: UrlReplace| (u.old_prefix@, u.new_prefix@))
}

/// Replacements written as `old1->new1,old2->new2,...`, whose halves are
/// non-empty and hold neither `->` nor `,`, are read back by `parse_mirror`
/// as exactly those replacements, in order.
pub proof fn law_parse_mirror_round_trip(v: Seq<UrlReplace>, r: Result<Vec<UrlReplace>, ConfigError>)
    requires
        v.len() > 0,
        forall|k: int|
            0 <= k < v.len() ==> mirror_half(#[trigger] v[k].old_prefix@) && mirror_half(v[k].new_prefix@),
        parse_mirror_post(join_pairs(replaces_view(v)), r),
    ensures
        r is Ok,
        r->Ok_0@.len() == v.len(),
        forall|k: int|
            0 <= k < v.len() ==> (#[trigger] r->Ok_0@[k]).old_prefix@ == v[k].old_prefix@
                && r->Ok_0@[k].new_prefix@ == v[k].new_prefix@,
{
    let ps = replaces_view(v);
    assert forall|k: int| 0 <= k < ps.len() implies mirror_half(#[trigger] ps[k].0) && mirror_half(ps[k].1) by {
        assert(mirror_half(v[k].old_prefix@));
    }
    law_mirror_round_trip(ps);
    let s = join_pairs(ps);
    let w = r->Ok_0@;
    assert forall|k: int| 0 <= k < v.len() implies (#[trigger] w[k]).old_prefix@ == v[k].old_prefix@
        && w[k].new_prefix@ == v[k].new_prefix@ by {
        assert(mirror_pair_spec(split_char_spec(s, ',')[k]) == Some(ps[k]));
        assert((w[k].old_prefix@, w[k].new_prefix@) == mirror_pair_spec(split_char_spec(s, ',')[k])->0);
    }
}

} // verus!
