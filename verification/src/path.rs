//! Paths, held as strings with `/` as separator.
//!
//! The path model is the Unix one: `/` separates components and a path is
//! absolute when it starts with `/`. On Windows, where `\` also separates
//! components and absolute paths start with a drive or a prefix, `join` and
//! `is_absolute` differ from `std::path`, so the library's path results hold
//! for Unix hosts.
//!
//! Joining is the library's own, stated in full. Splitting a path into its
//! parent, its last component or comparing it component-wise is what
//! `std::path` computes; those results are named here and computed by the
//! standard library.
use vstd::prelude::*;
use crate::text::{lemma_split_appended, lemma_split_without_separator, split_char_spec};

verus! {

/// A path is absolute when it starts at the root.
pub open spec fn is_absolute_spec(p: Seq<char>) -> bool {
    p.len() > 0 && p[0] == '/'
}

/// `base` extended by `part`: an absolute `part` replaces `base`; otherwise a
/// separator is put between them unless `base` is empty or already ends with
/// one (what `Path::join` does on Unix).
pub open spec fn join_spec(base: Seq<char>, part: Seq<char>) -> Seq<char> {
    if is_absolute_spec(part) {
        part
    } else if base.len() > 0 && base.last() != '/' {
        base.push('/') + part
    } else {
        base + part
    }
}

/// Whether a path starts at the root.
pub fn is_absolute(p: &str) -> (r: bool)
    ensures
        r == is_absolute_spec(p@),
{
    let v = crate::text::chars_of(p);
    v.len() > 0 && v[0] == '/'
}

/// `base` extended by `part`.
pub fn join(base: &str, part: &str) -> (r: String)
    ensures
        r@ == join_spec(base@, part@),
{
    let pv = crate::text::chars_of(part);
    if pv.len() > 0 && pv[0] == '/' {
        return crate::text::to_owned(part);
    }
    let bv = crate::text::chars_of(base);
    let mut r = crate::text::to_owned(base);
    if bv.len() > 0 && bv[bv.len() - 1] != '/' {
        crate::text::push_char(&mut r, '/');
    }
    r.append(part);
    r
}

/// The view of an optional string.
pub open spec fn opt_view(o: Option<String>) -> Option<Seq<char>> {
    match o {
        Some(s) => Some(s@),
        None => None,
    }
}

/// A component written plainly: not empty, holding no separator (`/`, `\\`)
/// and no `:`, and not `.`. (`..` is a plain component.)
pub open spec fn simple_component(n: Seq<char>) -> bool {
    &&& n.len() > 0
    &&& forall|k: int| 0 <= k < n.len() ==> n[k] != '/' && n[k] != '\\' && n[k] != ':'
    &&& n != seq!['.']
}

/// Every component is written plainly.
pub open spec fn simple_components(cs: Seq<Seq<char>>) -> bool {
    forall|k: int| 0 <= k < cs.len() ==> simple_component(#[trigger] cs[k])
}

/// No component is `..`.
pub open spec fn no_parent_refs(cs: Seq<Seq<char>>) -> bool {
    forall|k: int| 0 <= k < cs.len() ==> #[trigger] cs[k] != seq!['.', '.']
}

/// The path without one trailing separator (a lone `/` stays).
pub open spec fn without_trailing_sep(p: Seq<char>) -> Seq<char> {
    if p.len() > 1 && p.last() == '/' {
        p.drop_last()
    } else {
        p
    }
}

/// A path written plainly, read as whether it starts at the root and its
/// components: plain components separated by single `/`, optionally after a
/// leading `/` and before one trailing `/`. `None` for any other text (such
/// as one starting with `//`, which some hosts read as a network prefix).
pub open spec fn plain_view(p: Seq<char>) -> Option<(bool, Seq<Seq<char>>)> {
    let q = without_trailing_sep(p);
    let root = q.len() > 0 && q[0] == '/';
    let cs = if q.len() == 0 || q == seq!['/'] {
        Seq::<Seq<char>>::empty()
    } else if root {
        split_char_spec(q.drop_first(), '/')
    } else {
        split_char_spec(q, '/')
    };
    if simple_components(cs) && !(p.len() >= 2 && p[0] == '/' && p[1] == '/') {
        Some((root, cs))
    } else {
        None
    }
}

/// Whether a plainly written path starts at the root.
pub open spec fn plain_root(p: Seq<char>) -> bool {
    match plain_view(p) {
        Some((root, _)) => root,
        None => false,
    }
}

/// The components of a plainly written path.
pub open spec fn plain_components(p: Seq<char>) -> Seq<Seq<char>> {
    match plain_view(p) {
        Some((_, cs)) => cs,
        None => Seq::<Seq<char>>::empty(),
    }
}

/// Components joined by `/`.
pub open spec fn joined_components(cs: Seq<Seq<char>>) -> Seq<char>
    decreases cs.len(),
{
    if cs.len() == 0 {
        Seq::<char>::empty()
    } else if cs.len() == 1 {
        cs[0]
    } else {
        joined_components(cs.drop_last()) + seq!['/'] + cs.last()
    }
}

/// The plain text of a path from the root (or not) through `cs`.
pub open spec fn plain_text(root: bool, cs: Seq<Seq<char>>) -> Seq<char> {
    if root {
        seq!['/'] + joined_components(cs)
    } else {
        joined_components(cs)
    }
}

/// How many leading components two paths share.
pub open spec fn common_prefix_len(a: Seq<Seq<char>>, b: Seq<Seq<char>>) -> nat
    decreases a.len(),
{
    if a.len() == 0 || b.len() == 0 || a[0] != b[0] {
        0
    } else {
        1 + common_prefix_len(a.drop_first(), b.drop_first())
    }
}

/// The components of the relative path that leads from the path with
/// components `base` to the one with components `p`: one `..` for each
/// component of `base` after their common prefix, then the rest of `p`.
pub open spec fn relative_components(p: Seq<Seq<char>>, base: Seq<Seq<char>>) -> Seq<Seq<char>> {
    let k = common_prefix_len(p, base) as int;
    Seq::new((base.len() - k) as nat, |i: int| seq!['.', '.']) + p.skip(k)
}

proof fn lemma_joined_components(cs: Seq<Seq<char>>)
    requires
        cs.len() > 0,
        simple_components(cs),
    ensures
        split_char_spec(joined_components(cs), '/') == cs,
        joined_components(cs).len() > 0,
        joined_components(cs)[0] == cs[0][0],
        joined_components(cs).last() == cs.last().last(),
    decreases cs.len(),
{
    assert(simple_component(cs[cs.len() - 1]));
    if cs.len() == 1 {
        assert(simple_component(cs[0]));
        lemma_split_without_separator(cs[0], '/');
        assert(cs =~= seq![cs[0]]);
    } else {
        let init = cs.drop_last();
        assert forall|k: int| 0 <= k < init.len() implies simple_component(#[trigger] init[k]) by {
            assert(init[k] == cs[k]);
        }
        lemma_joined_components(init);
        let j = joined_components(init);
        assert(init[0] == cs[0]);
        lemma_split_appended(j, '/', cs.last());
        assert(cs =~= init.push(cs.last()));
        assert((j + seq!['/'] + cs.last())[0] == j[0]);
    }
}

/// A path written plainly from its components reads back as those
/// components: `plain_view` is how such paths are read.
pub proof fn law_plain_text_read_back(root: bool, cs: Seq<Seq<char>>)
    requires
        simple_components(cs),
    ensures
        plain_view(plain_text(root, cs)) == Some((root, cs)),
{
    let s = plain_text(root, cs);
    if cs.len() == 0 {
        if root {
            assert(s =~= seq!['/']);
        } else {
            assert(s =~= Seq::<char>::empty());
        }
        assert(cs =~= Seq::<Seq<char>>::empty());
    } else {
        lemma_joined_components(cs);
        let j = joined_components(cs);
        assert(simple_component(cs[cs.len() - 1]));
        assert(simple_component(cs[0]));
        assert(cs[0][0] != '/');
        assert(cs.last()[cs.last().len() - 1] != '/');
        if root {
            assert(s.drop_first() =~= j);
            assert(s[1] == j[0]);
            assert(s.last() == j.last());
            assert(s != seq!['/']);
        } else {
            assert(s == j);
        }
        assert(without_trailing_sep(s) == s);
    }
}

/// `target` and `link` are plainly written paths, both or neither from the
/// root, with no `..`, and `link` has a component: the case in which the
/// relative path from the link's directory to the target is stated.
pub open spec fn plain_link_inputs(target: Seq<char>, link: Seq<char>) -> bool {
    &&& plain_view(target) is Some
    &&& plain_view(link) is Some
    &&& plain_root(target) == plain_root(link)
    &&& plain_components(link).len() > 0
    &&& no_parent_refs(plain_components(target))
    &&& no_parent_refs(plain_components(link))
}

/// The `/`-written relative path that leads from the directory holding
/// `link` to `target`: one `..` for each directory of `link` past the
/// common prefix, then the rest of `target`.
pub open spec fn relative_from_dir_of(target: Seq<char>, link: Seq<char>) -> Seq<char> {
    plain_text(false, relative_components(plain_components(target), plain_components(link).drop_last()))
}

/// The path without its last component (`Path::parent`).
pub uninterp spec fn path_parent(p: Seq<char>) -> Option<Seq<char>>;

/// The last component of the path (`Path::file_name`).
pub uninterp spec fn path_file_name(p: Seq<char>) -> Option<Seq<char>>;

/// Whether the components of `p` end with the components of `child`
/// (`Path::ends_with`).
pub uninterp spec fn path_ends_with(p: Seq<char>, child: Seq<char>) -> bool;

/// Whether two paths have the same components (`==` on `Path`).
pub uninterp spec fn path_same(a: Seq<char>, b: Seq<char>) -> bool;

/// The relative path that leads from `base` to `p` (`pathdiff::diff_paths`).
pub uninterp spec fn path_relative(p: Seq<char>, base: Seq<char>) -> Option<Seq<char>>;

/// Trusted: `std::path::Path::parent`, the path without its final component,
/// `None` for a root or the empty path. The contract names the result,
/// states the documented `None` for the empty path, and, for a plainly
/// written path with a component, that the parent is the text up to its last
/// component: the same root and all components but the last.
#[verifier::external_body]
pub(crate) fn parent(p: &str) -> (r: Option<String>)
    ensures
        opt_view(r) == path_parent(p@),
        p@.len() == 0 ==> r is None,
        plain_view(p@) is Some && plain_components(p@).len() > 0 ==> r is Some && plain_view(r->0@)
            == Some((plain_root(p@), plain_components(p@).drop_last())),
{
    match std::path::Path::new(p).parent() {
        Some(q) => Some(q.to_string_lossy().into_owned()),
        None => None,
    }
}

/// Trusted: `std::path::Path::file_name`, the final component of the path.
/// The contract names the result, states the documented `None` for the
/// empty path, and, for a plainly written path whose last component is a
/// name (not `..`), that it is that component.
#[verifier::external_body]
pub(crate) fn file_name(p: &str) -> (r: Option<String>)
    ensures
        opt_view(r) == path_file_name(p@),
        p@.len() == 0 ==> r is None,
        plain_view(p@) is Some && plain_components(p@).len() > 0 && plain_components(p@).last()
            != seq!['.', '.'] ==> opt_view(r) == Some(plain_components(p@).last()),
{
    match std::path::Path::new(p).file_name() {
        Some(q) => Some(q.to_string_lossy().into_owned()),
        None => None,
    }
}

/// Trusted: `std::path::Path::ends_with`, which compares whole components
/// from the end. Only the name of the result is stated.
#[verifier::external_body]
pub(crate) fn ends_with(p: &str, child: &str) -> (r: bool)
    ensures
        r == path_ends_with(p@, child@),
{
    std::path::Path::new(p).ends_with(std::path::Path::new(child))
}

/// Trusted: `PartialEq::eq` on `std::path::Path`, which compares components.
/// The contract names the result, states that a path equals itself, and that
/// two plainly written paths are equal exactly when both or neither start at
/// the root and their components are the same.
#[verifier::external_body]
pub(crate) fn same(a: &str, b: &str) -> (r: bool)
    ensures
        r == path_same(a@, b@),
        a@ == b@ ==> r,
        plain_view(a@) is Some && plain_view(b@) is Some ==> (r <==> plain_view(a@) == plain_view(b@)),
{
    std::path::Path::new(a) == std::path::Path::new(b)
}

/// Trusted: `pathdiff::diff_paths(p, base)`, the relative path from `base` to
/// `p`. The result is named. For two plainly written paths that both or
/// neither start at the root and hold no `..`, the crate walks their
/// components: past the common prefix it puts one `..` for each remaining
/// component of `base`, then the rest of `p`; that path is stated up to the
/// separator the host writes between components (so as equal by
/// `Path` comparison to its `/`-written text).
#[verifier::external_body]
pub(crate) fn relative(p: &str, base: &str) -> (r: Option<String>)
    ensures
        opt_view(r) == path_relative(p@, base@),
        plain_view(p@) is Some && plain_view(base@) is Some && plain_root(p@) == plain_root(base@)
            && no_parent_refs(plain_components(p@)) && no_parent_refs(plain_components(base@))
            ==> r is Some && path_same(
            r->0@,
            plain_text(false, relative_components(plain_components(p@), plain_components(base@))),
        ),
{
    match pathdiff::diff_paths(p, base) {
        Some(q) => Some(q.to_string_lossy().into_owned()),
        None => None,
    }
}

} // verus!
