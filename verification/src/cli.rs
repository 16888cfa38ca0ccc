//! Command-line options and what they resolve to.
use vstd::prelude::*;
use crate::text::{
    chars_of, concat, is_white_space, lemma_trim_ends, split_char, split_char_spec, str_eq, to_owned,
    trim, trim_spec,
};

verus! {

/// The options `depctl` was started with.
pub struct CommandOptions {
    /// Platform to synchronize (mac, win, linux, or custom).
    pub platform: Option<String>,
    /// Print the version.
    pub version: bool,
    /// Synchronize the project in this directory.
    pub project: Option<String>,
    /// Remove repositories and files that the DEPS file no longer names.
    pub clean: bool,
    /// Skip synchronizing sub-projects.
    pub non_recursive: bool,
    /// URL mirrors, `old1->new1,old2->new2`.
    pub mirror: Option<String>,
    /// Recreate links even where the destination exists.
    pub force_linkfiles: bool,
    /// Copy again even where the destination exists.
    pub force_copyfiles: bool,
    /// Comma-separated paths whose DEPS files are not followed.
    pub skip_paths: Option<String>,
}

/// The platform name chosen for the operating system `os` (as
/// `std::env::consts::OS` names it): `mac`, `win`, `linux` or `unknown`.
pub open spec fn platform_for_os_spec(os: Seq<char>) -> Seq<char> {
    if os == "macos"@ {
        "mac"@
    } else if os == "windows"@ {
        "win"@
    } else if os == "linux"@ {
        "linux"@
    } else {
        "unknown"@
    }
}

/// The platform name chosen for the operating system `os`.
pub fn platform_for_os(os: &str) -> (r: String)
    ensures
        r@ == platform_for_os_spec(os@),
{
    if str_eq(os, "macos") {
        to_owned("mac")
    } else if str_eq(os, "windows") {
        to_owned("win")
    } else if str_eq(os, "linux") {
        to_owned("linux")
    } else {
        to_owned("unknown")
    }
}

/// The trimmed, non-empty pieces of a comma-separated list.
pub open spec fn skip_paths_spec(s: Seq<char>) -> Seq<Seq<char>> {
    split_char_spec(s, ',').map_values(|p: Seq<char>| trim_spec(p)).filter(|p: Seq<char>| p.len() > 0)
}

proof fn lemma_filter_push(s: Seq<Seq<char>>, e: Seq<char>)
    ensures
        e.len() > 0 ==> s.push(e).filter(|p: Seq<char>| p.len() > 0) == s.filter(
            |p: Seq<char>| p.len() > 0,
        ).push(e),
        e.len() == 0 ==> s.push(e).filter(|p: Seq<char>| p.len() > 0) == s.filter(
            |p: Seq<char>| p.len() > 0,
        ),
{
    reveal(Seq::filter);
    assert(s.push(e).drop_last() == s);
}

impl CommandOptions {
    /// The platform to synchronize: the one given, or the one chosen for the
    /// host operating system `os`.
    pub fn platform(&self, os: &str) -> (r: String)
        ensures
            r@ == match self.platform {
                Some(p) => p@,
                None => platform_for_os_spec(os@),
            },
    {
        match &self.platform {
            Some(p) => p.clone(),
            None => platform_for_os(os),
        }
    }

    /// The paths given to `--skip-paths`, trimmed, empty ones left out.
    pub fn skip_paths(&self) -> (r: Vec<String>)
        ensures
            r@.len() == skip_paths_spec(
                match self.skip_paths {
                    Some(s) => s@,
                    None => ""@,
                },
            ).len(),
            forall|k: int|
                0 <= k < r@.len() ==> #[trigger] r@[k]@ == skip_paths_spec(
                    match self.skip_paths {
                        Some(s) => s@,
                        None => ""@,
                    },
                )[k],
    {
        let source = match &self.skip_paths {
            Some(s) => s.clone(),
            None => to_owned(""),
        };
        let pieces = split_char(source.as_str(), ',');
        let ghost trimmed = split_char_spec(source@, ',').map_values(|p: Seq<char>| trim_spec(p));
        let mut r: Vec<String> = Vec::new();
        let mut i: usize = 0;
        assert(trimmed.take(0) == Seq::<Seq<char>>::empty());
        while i < pieces.len()
            invariant
                i <= pieces.len(),
                pieces@.len() == split_char_spec(source@, ',').len(),
                trimmed == split_char_spec(source@, ',').map_values(|p: Seq<char>| trim_spec(p)),
                forall|k: int|
                    0 <= k < pieces@.len() ==> #[trigger] pieces@[k]@ == split_char_spec(
                        source@,
                        ',',
                    )[k],
                r@.len() == trimmed.take(i as int).filter(|p: Seq<char>| p.len() > 0).len(),
                forall|k: int|
                    0 <= k < r@.len() ==> #[trigger] r@[k]@ == trimmed.take(i as int).filter(
                        |p: Seq<char>| p.len() > 0,
                    )[k],
            decreases pieces.len() - i,
        {
            let t = trim(pieces[i].as_str());
            proof {
                assert(trimmed.take(i + 1) == trimmed.take(i as int).push(trimmed[i as int]));
                assert(trimmed[i as int] == t@);
                lemma_filter_push(trimmed.take(i as int), t@);
            }
            let t_chars = chars_of(t.as_str());
            if t_chars.len() > 0 {
                r.push(t);
            }
            i += 1;
        }
        assert(trimmed.take(pieces.len() as int) == trimmed);
        r
    }
}

/// Every path `--skip-paths` yields is non-empty and starts and ends with a
/// character other than white space.
pub proof fn law_skip_paths_trimmed(s: Seq<char>)
    ensures
        forall|k: int|
            0 <= k < skip_paths_spec(s).len() ==> {
                let p = #[trigger] skip_paths_spec(s)[k];
                &&& p.len() > 0
                &&& !is_white_space(p[0])
                &&& !is_white_space(p.last())
            },
{
    let pieces = split_char_spec(s, ',');
    let trimmed = pieces.map_values(|p: Seq<char>| trim_spec(p));
    let keep = |p: Seq<char>| p.len() > 0;
    assert forall|k: int| 0 <= k < skip_paths_spec(s).len() implies {
        let p = #[trigger] skip_paths_spec(s)[k];
        &&& p.len() > 0
        &&& !is_white_space(p[0])
        &&& !is_white_space(p.last())
    } by {
        let p = skip_paths_spec(s)[k];
        assert(skip_paths_spec(s) == trimmed.filter(keep));
        trimmed.lemma_filter_pred(keep, k);
        assert(trimmed.filter(keep).contains(p));
        trimmed.lemma_filter_contains_rev(keep, p);
        let j = choose|j: int| 0 <= j < trimmed.len() && trimmed[j] == p;
        assert(p == trim_spec(pieces[j]));
        lemma_trim_ends(pieces[j]);
    }
}

/// The number of bytes `c` takes in UTF-8.
pub open spec fn utf8_len(c: char) -> nat {
    if (c as u32) < 0x80 {
        1
    } else if (c as u32) < 0x800 {
        2
    } else if (c as u32) < 0x10000 {
        3
    } else {
        4
    }
}

/// The number of bytes `s` takes in UTF-8.
pub open spec fn byte_len(s: Seq<char>) -> nat
    decreases s.len(),
{
    if s.len() == 0 {
        0
    } else {
        utf8_len(s[0]) + byte_len(s.drop_first())
    }
}

/// How many leading characters of `s` fit in `n` bytes of UTF-8.
pub open spec fn chars_in_bytes(s: Seq<char>, n: int) -> int
    decreases s.len(),
{
    if s.len() == 0 || utf8_len(s[0]) > n {
        0
    } else {
        1 + chars_in_bytes(s.drop_first(), n - utf8_len(s[0]))
    }
}

/// The first `n` bytes of `s` (all of it when shorter), as characters.
pub open spec fn byte_prefix(s: Seq<char>, n: int) -> Seq<char> {
    s.take(chars_in_bytes(s, n))
}

/// The first `n` bytes of `s` end on a character boundary (or `s` is
/// shorter), so they can be cut off as text.
pub open spec fn byte_prefix_whole(s: Seq<char>, n: int) -> bool {
    byte_len(s) < n || byte_len(byte_prefix(s, n)) == n
}

proof fn lemma_chars_in_bytes_bound(s: Seq<char>, n: int)
    ensures
        0 <= chars_in_bytes(s, n) <= s.len(),
    decreases s.len(),
{
    if s.len() > 0 && utf8_len(s[0]) <= n {
        lemma_chars_in_bytes_bound(s.drop_first(), n - utf8_len(s[0]));
    }
}

fn utf8_len_of(c: char) -> (r: usize)
    ensures
        r == utf8_len(c),
{
    let code = c as u32;
    if code < 0x80 {
        1
    } else if code < 0x800 {
        2
    } else if code < 0x10000 {
        3
    } else {
        4
    }
}

/// The first `n` bytes of the text, as text.
fn byte_prefix_of(s: &str, n: usize) -> (r: String)
    ensures
        r@ == byte_prefix(s@, n as int),
{
    let v = chars_of(s);
    let mut k: usize = 0;
    let mut room: usize = n;
    proof {
        lemma_chars_in_bytes_bound(v@, n as int);
        assert(v@.skip(0) == v@);
    }
    while k < v.len() && utf8_len_of(v[k]) <= room
        invariant
            k <= v.len(),
            room <= n,
            v@ == s@,
            chars_in_bytes(v@, n as int) == k + chars_in_bytes(v@.skip(k as int), room as int),
        decreases v.len() - k,
    {
        let ghost rest = v@.skip(k as int);
        assert(rest[0] == v@[k as int]);
        assert(rest.drop_first() == v@.skip(k + 1));
        room = room - utf8_len_of(v[k]);
        k += 1;
    }
    let ghost rest = v@.skip(k as int);
    if k < v.len() {
        assert(rest[0] == v@[k as int]);
    }
    crate::text::string_of_range(&v, 0, k)
}

/// The line `--version` prints: the package version, followed by the short
/// (seven byte) commit, the repository URL and the build time where
/// they are known (`unknown` means not known).
pub open spec fn version_banner_spec(
    version: Seq<char>,
    git_hash: Seq<char>,
    git_url: Seq<char>,
    build_time: Seq<char>,
) -> Seq<char> {
    let short = byte_prefix(git_hash, 7);
    if git_hash != "unknown"@ && git_url != "unknown"@ {
        "depctl version "@ + version + " (commit "@ + short + ", "@ + git_url + ", built "@
            + build_time + ")"@
    } else if git_hash != "unknown"@ {
        "depctl version "@ + version + " (commit "@ + short + ", built "@ + build_time + ")"@
    } else if build_time != "unknown"@ {
        "depctl version "@ + version + " (built "@ + build_time + ")"@
    } else {
        "depctl version "@ + version
    }
}

/// The line `--version` prints.
pub fn version_banner(version: &str, git_hash: &str, git_url: &str, build_time: &str) -> (r: String)
    requires
        byte_prefix_whole(git_hash@, 7),
    ensures
        r@ == version_banner_spec(version@, git_hash@, git_url@, build_time@),
{
    let short = byte_prefix_of(git_hash, 7);
    let mut r = concat("depctl version ", version);
    if !str_eq(git_hash, "unknown") && !str_eq(git_url, "unknown") {
        r.append(" (commit ");
        r.append(short.as_str());
        r.append(", ");
        r.append(git_url);
        r.append(", built ");
        r.append(build_time);
        r.append(")");
    } else if !str_eq(git_hash, "unknown") {
        r.append(" (commit ");
        r.append(short.as_str());
        r.append(", built ");
        r.append(build_time);
        r.append(")");
    } else if !str_eq(build_time, "unknown") {
        r.append(" (built ");
        r.append(build_time);
        r.append(")");
    }
    r
}

} // verus!
