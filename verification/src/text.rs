//! Character-level string operations with their specifications.
//!
//! Strings are viewed as sequences of `char`; every operation here is stated
//! over that view.
use vstd::prelude::*;

verus! {

// ---------------------------------------------------------------------------
// Specifications
// ---------------------------------------------------------------------------

/// The characters for which `char::is_whitespace` holds (Unicode `White_Space`).
pub open spec fn is_white_space(c: char) -> bool {
    ||| c == '\t' || c == '\n' || c == '\u{0B}' || c == '\u{0C}' || c == '\r'
    ||| c == ' ' || c == '\u{85}' || c == '\u{A0}' || c == '\u{1680}'
    ||| ('\u{2000}' <= c && c <= '\u{200A}')
    ||| c == '\u{2028}' || c == '\u{2029}' || c == '\u{202F}' || c == '\u{205F}'
    ||| c == '\u{3000}'
}

/// `s` with its leading white space removed.
pub open spec fn trim_start_spec(s: Seq<char>) -> Seq<char>
    decreases s.len(),
{
    if s.len() > 0 && is_white_space(s[0]) {
        trim_start_spec(s.drop_first())
    } else {
        s
    }
}

/// `s` with its trailing white space removed.
pub open spec fn trim_end_spec(s: Seq<char>) -> Seq<char>
    decreases s.len(),
{
    if s.len() > 0 && is_white_space(s.last()) {
        trim_end_spec(s.drop_last())
    } else {
        s
    }
}

/// `s` with leading and trailing white space removed (what `str::trim` gives).
pub open spec fn trim_spec(s: Seq<char>) -> Seq<char> {
    trim_end_spec(trim_start_spec(s))
}

/// The pieces of `s` between occurrences of `sep` (what `str::split` with a
/// `char` pattern yields): there is always at least one piece.
pub open spec fn split_char_spec(s: Seq<char>, sep: char) -> Seq<Seq<char>>
    decreases s.len(),
{
    if s.len() == 0 {
        seq![Seq::<char>::empty()]
    } else {
        let prev = split_char_spec(s.drop_last(), sep);
        if s.last() == sep {
            prev.push(Seq::<char>::empty())
        } else {
            prev.update(prev.len() - 1, prev.last().push(s.last()))
        }
    }
}

/// `p` occurs in `s` at position `i`.
pub open spec fn matches_at(s: Seq<char>, p: Seq<char>, i: int) -> bool {
    &&& 0 <= i
    &&& i + p.len() <= s.len()
    &&& s.subrange(i, i + p.len()) == p
}

/// `p` occurs somewhere in `s`.
pub open spec fn contains_spec(s: Seq<char>, p: Seq<char>) -> bool {
    exists|i: int| matches_at(s, p, i)
}

/// `s` begins with `p`.
pub open spec fn starts_with_spec(s: Seq<char>, p: Seq<char>) -> bool {
    p.len() <= s.len() && s.take(p.len() as int) == p
}

/// `s` ends with `p`.
pub open spec fn ends_with_spec(s: Seq<char>, p: Seq<char>) -> bool {
    p.len() <= s.len() && s.skip(s.len() - p.len()) == p
}

/// The first position at which `p` occurs in `s`, if any.
pub open spec fn find_spec(s: Seq<char>, p: Seq<char>) -> Option<int> {
    if contains_spec(s, p) {
        Some(choose|i: int| matches_at(s, p, i) && forall|j: int| 0 <= j < i ==> !matches_at(s, p, j))
    } else {
        None
    }
}

/// `s` with every occurrence of `pat` replaced by `rep`, scanning from the
/// left and never reusing replaced characters (what `str::replace` gives).
pub open spec fn replace_spec(s: Seq<char>, pat: Seq<char>, rep: Seq<char>) -> Seq<char>
    decreases s.len(),
{
    if s.len() == 0 || pat.len() == 0 {
        s
    } else if starts_with_spec(s, pat) {
        rep + replace_spec(s.skip(pat.len() as int), pat, rep)
    } else {
        seq![s[0]] + replace_spec(s.drop_first(), pat, rep)
    }
}

/// The piece of `s` before the first `sep` (the first item `str::split` yields).
pub open spec fn before_char_spec(s: Seq<char>, sep: char) -> Seq<char> {
    split_char_spec(s, sep)[0]
}

// ---------------------------------------------------------------------------
// Lemmas
// ---------------------------------------------------------------------------

/// `split_char_spec` always yields at least one piece.
pub proof fn lemma_split_nonempty(s: Seq<char>, sep: char)
    ensures
        split_char_spec(s, sep).len() >= 1,
    decreases s.len(),
{
    if s.len() > 0 {
        lemma_split_nonempty(s.drop_last(), sep);
    }
}

/// Text without the separator is one piece.
pub proof fn lemma_split_without_separator(s: Seq<char>, sep: char)
    requires
        forall|k: int| 0 <= k < s.len() ==> s[k] != sep,
    ensures
        split_char_spec(s, sep) == seq![s],
    decreases s.len(),
{
    if s.len() > 0 {
        lemma_split_without_separator(s.drop_last(), sep);
        let prev = split_char_spec(s.drop_last(), sep);
        assert(prev == seq![s.drop_last()]);
        assert(s[s.len() - 1] != sep);
        assert(s.drop_last().push(s.last()) =~= s);
        assert(prev.update(0, s) =~= seq![s]);
    } else {
        assert(s =~= Seq::<char>::empty());
    }
}

/// Appending a separator and separator-free text adds that text as a piece.
pub proof fn lemma_split_appended(a: Seq<char>, sep: char, b: Seq<char>)
    requires
        forall|k: int| 0 <= k < b.len() ==> b[k] != sep,
    ensures
        split_char_spec(a + seq![sep] + b, sep) == split_char_spec(a, sep).push(b),
    decreases b.len(),
{
    let s = a + seq![sep] + b;
    if b.len() == 0 {
        assert(s.drop_last() =~= a);
        assert(s.last() == sep);
        assert(b =~= Seq::<char>::empty());
    } else {
        lemma_split_appended(a, sep, b.drop_last());
        assert(s.drop_last() =~= a + seq![sep] + b.drop_last());
        assert(s.last() == b[b.len() - 1]);
        let prev = split_char_spec(a, sep).push(b.drop_last());
        assert(b.drop_last().push(b.last()) =~= b);
        assert(prev.update(prev.len() - 1, prev.last().push(s.last())) =~= split_char_spec(a, sep).push(b));
    }
}

/// Trimming leaves no white space at either end.
pub proof fn lemma_trim_ends(s: Seq<char>)
    ensures
        trim_spec(s).len() > 0 ==> !is_white_space(trim_spec(s)[0]) && !is_white_space(
            trim_spec(s).last(),
        ),
{
    lemma_trim_start(s);
    lemma_trim_end(trim_start_spec(s));
}

proof fn lemma_trim_start(s: Seq<char>)
    ensures
        trim_start_spec(s).len() > 0 ==> !is_white_space(trim_start_spec(s)[0]),
        trim_start_spec(s).len() <= s.len(),
    decreases s.len(),
{
    if s.len() > 0 && is_white_space(s[0]) {
        lemma_trim_start(s.drop_first());
    }
}

proof fn lemma_trim_end(s: Seq<char>)
    ensures
        trim_end_spec(s).len() > 0 ==> !is_white_space(trim_end_spec(s).last()),
        trim_end_spec(s).len() > 0 && s.len() > 0 && !is_white_space(s[0]) ==> trim_end_spec(s)[0]
            == s[0],
        trim_end_spec(s).len() <= s.len(),
        trim_end_spec(s) == s.take(trim_end_spec(s).len() as int),
    decreases s.len(),
{
    if s.len() > 0 && is_white_space(s.last()) {
        lemma_trim_end(s.drop_last());
        assert(s.drop_last().take(trim_end_spec(s).len() as int) == s.take(
            trim_end_spec(s).len() as int,
        ));
    } else {
        assert(s.take(s.len() as int) == s);
    }
}

// ---------------------------------------------------------------------------
// Conversions between `str`/`String` and `Vec<char>`
// ---------------------------------------------------------------------------

/// Appends one character to a string.
///
/// Trusted: calls `String::push`, which the standard library documents as
/// appending the given char to the end of the string.
#[verifier::external_body]
pub(crate) fn push_char(s: &mut String, c: char)
    ensures
        final(s)@ == old(s)@.push(c),
{
    s.push(c);
}

/// The characters of a string slice, in order.
pub fn chars_of(s: &str) -> (v: Vec<char>)
    ensures
        v@ == s@,
{
    let mut v: Vec<char> = Vec::new();
    for c in it: s.chars()
        invariant
            v@ == it.seq().take(it.index() as int),
            it.seq() == s@,
    {
        v.push(c);
    }
    v
}

/// The string made of the characters `v[from..to]`.
pub fn string_of_range(v: &Vec<char>, from: usize, to: usize) -> (s: String)
    requires
        from <= to <= v.len(),
    ensures
        s@ == v@.subrange(from as int, to as int),
{
    let mut s = String::new();
    let mut i = from;
    while i < to
        invariant
            from <= i <= to <= v.len(),
            s@ == v@.subrange(from as int, i as int),
        decreases to - i,
    {
        push_char(&mut s, v[i]);
        assert(v@.subrange(from as int, i + 1) == v@.subrange(from as int, i as int).push(v@[i as int]));
        i += 1;
    }
    s
}

/// A fresh copy of a string slice.
pub fn to_owned(s: &str) -> (r: String)
    ensures
        r@ == s@,
{
    s.to_owned()
}

/// Concatenation of two string slices.
pub fn concat(a: &str, b: &str) -> (r: String)
    ensures
        r@ == a@ + b@,
{
    let mut r = to_owned(a);
    r.append(b);
    r
}

/// Whether two string slices hold the same characters.
pub fn str_eq(a: &str, b: &str) -> (r: bool)
    ensures
        r == (a@ == b@),
{
    let x = to_owned(a);
    let y = to_owned(b);
    x == y
}

// ---------------------------------------------------------------------------
// Operations
// ---------------------------------------------------------------------------

/// Whether `c` is white space (what `char::is_whitespace` decides).
pub fn is_white_space_char(c: char) -> (r: bool)
    ensures
        r == is_white_space(c),
{
    c == '\t' || c == '\n' || c == '\u{0B}' || c == '\u{0C}' || c == '\r' || c == ' ' || c
        == '\u{85}' || c == '\u{A0}' || c == '\u{1680}' || ('\u{2000}' <= c && c <= '\u{200A}')
        || c == '\u{2028}' || c == '\u{2029}' || c == '\u{202F}' || c == '\u{205F}' || c
        == '\u{3000}'
}

/// `s` with leading and trailing white space removed.
pub fn trim(s: &str) -> (r: String)
    ensures
        r@ == trim_spec(s@),
{
    let v = chars_of(s);
    let mut lo: usize = 0;
    assert(v@.skip(0) == v@);
    while lo < v.len() && is_white_space_char(v[lo])
        invariant
            lo <= v.len(),
            v@ == s@,
            trim_start_spec(v@) == trim_start_spec(v@.skip(lo as int)),
        decreases v.len() - lo,
    {
        assert(v@.skip(lo as int).drop_first() == v@.skip(lo + 1));
        lo += 1;
    }
    assert(trim_start_spec(v@) == v@.skip(lo as int));
    let mut hi: usize = v.len();
    while hi > lo && is_white_space_char(v[hi - 1])
        invariant
            lo <= hi <= v.len(),
            v@ == s@,
            trim_start_spec(v@) == v@.skip(lo as int),
            trim_spec(v@) == trim_end_spec(v@.subrange(lo as int, hi as int)),
        decreases hi - lo,
    {
        assert(v@.subrange(lo as int, hi as int).drop_last() == v@.subrange(lo as int, hi - 1));
        hi -= 1;
    }
    assert(v@.skip(lo as int) == v@.subrange(lo as int, v.len() as int));
    string_of_range(&v, lo, hi)
}

/// Whether `p` occurs at position `i` of `s`.
fn matches_at_exec(s: &Vec<char>, p: &Vec<char>, i: usize) -> (r: bool)
    requires
        i + p.len() <= s.len(),
    ensures
        r == matches_at(s@, p@, i as int),
{
    let mut k: usize = 0;
    while k < p.len()
        invariant
            i + p.len() <= s.len(),
            k <= p.len(),
            forall|j: int| 0 <= j < k ==> s@[i + j] == p@[j],
        decreases p.len() - k,
    {
        if s[i + k] != p[k] {
            assert(s@.subrange(i as int, i + p.len())[k as int] != p@[k as int]);
            return false;
        }
        k += 1;
    }
    assert(s@.subrange(i as int, i + p.len()) == p@);
    true
}

/// The first position at which `p` occurs in `s`, if any.
pub fn find_chars(s: &Vec<char>, p: &Vec<char>) -> (r: Option<usize>)
    ensures
        r is Some <==> contains_spec(s@, p@),
        r is Some ==> matches_at(s@, p@, r->0 as int),
        r is Some ==> forall|j: int| 0 <= j < r->0 ==> !matches_at(s@, p@, j),
        r is Some ==> find_spec(s@, p@) == Some(r->0 as int),
        r is None ==> find_spec(s@, p@) is None,
{
    if p.len() > s.len() {
        assert forall|j: int| !matches_at(s@, p@, j) by {}
        return None;
    }
    let mut i: usize = 0;
    loop
        invariant
            p.len() <= s.len(),
            i <= s.len() - p.len(),
            forall|j: int| 0 <= j < i ==> !matches_at(s@, p@, j),
        ensures
            forall|j: int| 0 <= j <= s.len() - p.len() ==> !matches_at(s@, p@, j),
        decreases s.len() - p.len() - i,
    {
        if matches_at_exec(s, p, i) {
            proof {
                let w = choose|k: int| matches_at(s@, p@, k) && forall|j: int| 0 <= j < k ==> !matches_at(s@, p@, j);
                assert(matches_at(s@, p@, i as int) && forall|j: int| 0 <= j < i ==> !matches_at(s@, p@, j));
                if w < i {
                } else if w > i {
                    assert(!matches_at(s@, p@, i as int));
                }
            }
            return Some(i);
        }
        if i == s.len() - p.len() {
            break;
        }
        i += 1;
    }
    assert forall|j: int| !matches_at(s@, p@, j) by {
        if 0 <= j <= s.len() - p.len() {
        }
    }
    None
}

/// Whether `p` occurs in `s`.
pub fn contains(s: &str, p: &str) -> (r: bool)
    ensures
        r == contains_spec(s@, p@),
{
    let sv = chars_of(s);
    let pv = chars_of(p);
    find_chars(&sv, &pv).is_some()
}

/// Whether `s` begins with `p`.
pub fn starts_with(s: &str, p: &str) -> (r: bool)
    ensures
        r == starts_with_spec(s@, p@),
{
    let sv = chars_of(s);
    let pv = chars_of(p);
    if pv.len() > sv.len() {
        return false;
    }
    let r = matches_at_exec(&sv, &pv, 0);
    assert(sv@.subrange(0, pv@.len() as int) == sv@.take(pv@.len() as int));
    r
}

/// Whether `s` ends with `p`.
pub fn ends_with(s: &str, p: &str) -> (r: bool)
    ensures
        r == ends_with_spec(s@, p@),
{
    let sv = chars_of(s);
    let pv = chars_of(p);
    if pv.len() > sv.len() {
        return false;
    }
    let r = matches_at_exec(&sv, &pv, sv.len() - pv.len());
    assert(sv@.subrange(sv.len() - pv.len(), sv.len() as int) == sv@.skip(sv.len() - pv.len()));
    r
}

proof fn lemma_replace_step(s: Seq<char>, pat: Seq<char>, rep: Seq<char>, i: int)
    requires
        0 <= i < s.len(),
        pat.len() > 0,
    ensures
        matches_at(s, pat, i) ==> replace_spec(s.skip(i), pat, rep) == rep + replace_spec(
            s.skip(i + pat.len()),
            pat,
            rep,
        ),
        !matches_at(s, pat, i) ==> replace_spec(s.skip(i), pat, rep) == seq![s[i]]
            + replace_spec(s.skip(i + 1), pat, rep),
{
    let t = s.skip(i);
    if matches_at(s, pat, i) {
        assert(t.take(pat.len() as int) == s.subrange(i, i + pat.len()));
        assert(t.skip(pat.len() as int) == s.skip(i + pat.len()));
    } else {
        if pat.len() <= t.len() {
            assert(t.take(pat.len() as int) == s.subrange(i, i + pat.len()));
        }
        assert(t.drop_first() == s.skip(i + 1));
    }
}

/// `s` with every occurrence of `pat` replaced by `rep`, left to right.
pub fn replace_all(s: &str, pat: &str, rep: &str) -> (r: String)
    requires
        pat@.len() > 0,
    ensures
        r@ == replace_spec(s@, pat@, rep@),
{
    let sv = chars_of(s);
    let pv = chars_of(pat);
    let mut r = String::new();
    let mut i: usize = 0;
    assert(sv@.skip(0) == sv@);
    while i < sv.len()
        invariant
            i <= sv.len(),
            sv@ == s@,
            pv@ == pat@,
            pv@.len() > 0,
            r@ + replace_spec(sv@.skip(i as int), pv@, rep@) == replace_spec(sv@, pv@, rep@),
        decreases sv.len() - i,
    {
        proof {
            lemma_replace_step(sv@, pv@, rep@, i as int);
        }
        if pv.len() <= sv.len() - i && matches_at_exec(&sv, &pv, i) {
            let ghost old_r = r@;
            r.append(rep);
            assert(r@ + replace_spec(sv@.skip(i + pv.len()), pv@, rep@) == old_r + (rep@
                + replace_spec(sv@.skip(i + pv.len()), pv@, rep@)));
            i += pv.len();
        } else {
            let ghost old_r = r@;
            push_char(&mut r, sv[i]);
            assert(r@ + replace_spec(sv@.skip(i + 1), pv@, rep@) == old_r + (seq![sv@[i as int]]
                + replace_spec(sv@.skip(i + 1), pv@, rep@)));
            i += 1;
        }
    }
    assert(sv@.skip(i as int).len() == 0);
    assert(r@ + Seq::<char>::empty() == r@);
    r
}

/// The pieces of `s` between occurrences of `sep`.
pub fn split_char(s: &str, sep: char) -> (r: Vec<String>)
    ensures
        r@.len() == split_char_spec(s@, sep).len(),
        forall|k: int| 0 <= k < r@.len() ==> #[trigger] r@[k]@ == split_char_spec(s@, sep)[k],
{
    let v = chars_of(s);
    let mut pieces: Vec<String> = Vec::new();
    let mut cur = String::new();
    let mut i: usize = 0;
    assert(v@.take(0) == Seq::<char>::empty());
    while i < v.len()
        invariant
            i <= v.len(),
            v@ == s@,
            pieces@.len() + 1 == split_char_spec(v@.take(i as int), sep).len(),
            forall|k: int|
                0 <= k < pieces@.len() ==> #[trigger] pieces@[k]@ == split_char_spec(
                    v@.take(i as int),
                    sep,
                )[k],
            cur@ == split_char_spec(v@.take(i as int), sep).last(),
        decreases v.len() - i,
    {
        proof {
            lemma_split_nonempty(v@.take(i as int), sep);
            assert(v@.take(i + 1).drop_last() == v@.take(i as int));
            assert(v@.take(i + 1).last() == v@[i as int]);
        }
        if v[i] == sep {
            let done = cur;
            pieces.push(done);
            cur = String::new();
        } else {
            push_char(&mut cur, v[i]);
        }
        i += 1;
    }
    pieces.push(cur);
    assert(v@.take(v.len() as int) == v@);
    pieces
}

/// The piece of `s` before the first `sep` (all of `s` if there is none).
pub fn before_char(s: &str, sep: char) -> (r: String)
    ensures
        r@ == before_char_spec(s@, sep),
{
    let mut pieces = split_char(s, sep);
    proof {
        lemma_split_nonempty(s@, sep);
    }
    pieces.swap_remove(0)
}

} // verus!
