//! Version comparison, content hashing and the captured result of a command.
use sha1::Digest;
use vstd::prelude::*;
use crate::text::{chars_of, push_char, split_char, split_char_spec, str_eq};

verus! {

// ---------------------------------------------------------------------------
// Unsigned decimal parsing
// ---------------------------------------------------------------------------

/// `c` is an ASCII decimal digit.
pub open spec fn is_digit(c: char) -> bool {
    '0' <= c && c <= '9'
}

/// The value of a digit character.
pub open spec fn digit_value(c: char) -> nat {
    (c as int - '0' as int) as nat
}

/// The value of a sequence of decimal digits, most significant first.
pub open spec fn digits_value(d: Seq<char>) -> nat
    decreases d.len(),
{
    if d.len() == 0 {
        0
    } else {
        digits_value(d.drop_last()) * 10 + digit_value(d.last())
    }
}

/// All characters of `d` are decimal digits.
pub open spec fn all_digits(d: Seq<char>) -> bool {
    forall|i: int| 0 <= i < d.len() ==> is_digit(#[trigger] d[i])
}

/// The digits part of a number: an optional leading `+` is dropped, unless it
/// is the only character.
pub open spec fn unsigned_digits(s: Seq<char>) -> Seq<char> {
    if s.len() > 1 && s[0] == '+' {
        s.drop_first()
    } else {
        s
    }
}

/// What `str::parse::<u32>` gives: a non-empty run of decimal digits after an
/// optional `+`, whose value fits in a `u32`.
pub open spec fn parse_u32_spec(s: Seq<char>) -> Option<u32> {
    let d = unsigned_digits(s);
    if d.len() > 0 && all_digits(d) && digits_value(d) <= u32::MAX {
        Some(digits_value(d) as u32)
    } else {
        None
    }
}

/// A version component: its value, or 0 where it does not parse.
pub open spec fn version_part_value(s: Seq<char>) -> u32 {
    match parse_u32_spec(s) {
        Some(v) => v,
        None => 0,
    }
}

proof fn lemma_digits_value_grows(d: Seq<char>, k: int)
    requires
        0 <= k <= d.len(),
    ensures
        digits_value(d.take(k)) <= digits_value(d),
    decreases d.len() - k,
{
    if k < d.len() {
        lemma_digits_value_grows(d, k + 1);
        assert(d.take(k + 1).drop_last() == d.take(k));
    } else {
        assert(d.take(k) == d);
    }
}

/// Parses a decimal `u32` as `str::parse` does.
pub fn parse_u32(s: &str) -> (r: Option<u32>)
    ensures
        r == parse_u32_spec(s@),
{
    let v = chars_of(s);
    let start: usize = if v.len() > 1 && v[0] == '+' {
        1
    } else {
        0
    };
    let ghost d = unsigned_digits(v@);
    assert(d == v@.skip(start as int));
    if start == v.len() {
        return None;
    }
    let mut acc: u64 = 0;
    let mut i: usize = start;
    assert(d.take(0) == Seq::<char>::empty());
    while i < v.len()
        invariant
            start <= i <= v.len(),
            v@ == s@,
            d == v@.skip(start as int),
            d == unsigned_digits(s@),
            acc == digits_value(d.take(i - start)),
            acc <= u32::MAX,
            all_digits(d.take(i - start)),
        decreases v.len() - i,
    {
        let c = v[i];
        if !('0' <= c && c <= '9') {
            assert(d[i - start] == c);
            assert(!is_digit(d[i - start]));
            assert(!all_digits(d));
            return None;
        }
        let dv: u64 = (c as u64) - ('0' as u64);
        assert(acc * 10 <= u32::MAX * 10) by (nonlinear_arith)
            requires
                acc <= u32::MAX,
        ;
        let next = acc * 10 + dv;
        proof {
            assert(d.take(i - start + 1).drop_last() == d.take(i - start));
            assert(d.take(i - start + 1).last() == c);
            assert(digits_value(d.take(i - start + 1)) == digits_value(d.take(i - start)) * 10
                + digit_value(c));
            assert(next == digits_value(d.take(i - start + 1)));
        }
        if next > 0xffff_ffffu64 {
            proof {
                lemma_digits_value_grows(d, i - start + 1);
            }
            return None;
        }
        acc = next;
        i += 1;
    }
    assert(d.take(i - start) == d);
    Some(acc as u32)
}

// ---------------------------------------------------------------------------
// Version comparison
// ---------------------------------------------------------------------------

/// The numeric components of a dotted version string.
pub open spec fn version_parts(s: Seq<char>) -> Seq<u32> {
    split_char_spec(s, '.').map_values(|p: Seq<char>| version_part_value(p))
}

/// Component `i` of a version, 0 past its end.
pub open spec fn part_at(p: Seq<u32>, i: int) -> u32 {
    if 0 <= i < p.len() {
        p[i]
    } else {
        0
    }
}

/// The larger of two lengths.
pub open spec fn max_len(a: Seq<u32>, b: Seq<u32>) -> int {
    if a.len() >= b.len() {
        a.len() as int
    } else {
        b.len() as int
    }
}

/// Compares two component lists from position `i` on, the shorter one
/// padded with zeros: 1 if `a` is greater, -1 if smaller, 0 if equal.
pub open spec fn compare_parts_from(a: Seq<u32>, b: Seq<u32>, i: int) -> i32
    decreases max_len(a, b) - i,
{
    if i >= max_len(a, b) || i < 0 {
        0
    } else if part_at(a, i) != part_at(b, i) {
        if part_at(a, i) > part_at(b, i) {
            1i32
        } else {
            -1i32
        }
    } else {
        compare_parts_from(a, b, i + 1)
    }
}

/// The result of comparing two version strings.
pub open spec fn compare_version_spec(a: Seq<char>, b: Seq<char>) -> i32 {
    if a == b {
        0
    } else {
        compare_parts_from(version_parts(a), version_parts(b), 0)
    }
}

/// Parses every component of a dotted version string.
fn version_parts_exec(s: &str) -> (r: Vec<u32>)
    ensures
        r@ == version_parts(s@),
{
    let pieces = split_char(s, '.');
    let mut r: Vec<u32> = Vec::new();
    let mut i: usize = 0;
    while i < pieces.len()
        invariant
            i <= pieces.len(),
            pieces@.len() == split_char_spec(s@, '.').len(),
            forall|k: int| 0 <= k < pieces@.len() ==> #[trigger] pieces@[k]@ == split_char_spec(s@, '.')[k],
            r@.len() == i,
            forall|k: int| 0 <= k < i ==> r@[k] == version_part_value(#[trigger] split_char_spec(s@, '.')[k]),
        decreases pieces.len() - i,
    {
        let v = match parse_u32(pieces[i].as_str()) {
            Some(v) => v,
            None => 0,
        };
        assert(pieces@[i as int]@ == split_char_spec(s@, '.')[i as int]);
        r.push(v);
        i += 1;
    }
    assert(r@ == version_parts(s@));
    r
}

/// Compares two dotted version strings component by component, treating
/// missing or unparsable components as 0: 1 if `version_a` is newer, -1 if
/// older, 0 if they are the same.
pub fn compare_version(version_a: &str, version_b: &str) -> (r: i32)
    ensures
        r == compare_version_spec(version_a@, version_b@),
        -1 <= r <= 1,
{
    proof {
        lemma_compare_parts_range(version_parts(version_a@), version_parts(version_b@), 0);
    }
    if str_eq(version_a, version_b) {
        return 0;
    }
    let parts_a = version_parts_exec(version_a);
    let parts_b = version_parts_exec(version_b);
    let longest: usize = if parts_a.len() >= parts_b.len() {
        parts_a.len()
    } else {
        parts_b.len()
    };
    let mut i: usize = 0;
    while i < longest
        invariant
            i <= longest,
            version_a@ != version_b@,
            parts_a@ == version_parts(version_a@),
            parts_b@ == version_parts(version_b@),
            longest == max_len(parts_a@, parts_b@),
            compare_parts_from(parts_a@, parts_b@, 0) == compare_parts_from(
                parts_a@,
                parts_b@,
                i as int,
            ),
        decreases longest - i,
    {
        let a = if i < parts_a.len() {
            parts_a[i]
        } else {
            0
        };
        let b = if i < parts_b.len() {
            parts_b[i]
        } else {
            0
        };
        if a != b {
            assert(part_at(parts_a@, i as int) == a && part_at(parts_b@, i as int) == b);
            assert(compare_parts_from(parts_a@, parts_b@, i as int) == (if a > b { 1i32 } else { -1i32 }));
            return if a > b {
                1
            } else {
                -1
            };
        }
        i += 1;
    }
    0
}

proof fn lemma_compare_parts_range(a: Seq<u32>, b: Seq<u32>, i: int)
    ensures
        -1 <= compare_parts_from(a, b, i) <= 1,
    decreases max_len(a, b) - i,
{
    if i < max_len(a, b) && i >= 0 && part_at(a, i) == part_at(b, i) {
        lemma_compare_parts_range(a, b, i + 1);
    }
}

proof fn lemma_compare_parts_antisymmetric(a: Seq<u32>, b: Seq<u32>, i: int)
    ensures
        compare_parts_from(a, b, i) == -compare_parts_from(b, a, i),
    decreases max_len(a, b) - i,
{
    assert(max_len(a, b) == max_len(b, a));
    if i < max_len(a, b) && i >= 0 && part_at(a, i) == part_at(b, i) {
        lemma_compare_parts_antisymmetric(a, b, i + 1);
    }
}

spec fn max3(a: Seq<u32>, b: Seq<u32>, c: Seq<u32>) -> int {
    if max_len(a, b) >= max_len(b, c) {
        max_len(a, b)
    } else {
        max_len(b, c)
    }
}

proof fn lemma_compare_parts_transitive(a: Seq<u32>, b: Seq<u32>, c: Seq<u32>, i: int)
    requires
        i >= 0,
        compare_parts_from(a, b, i) <= 0,
        compare_parts_from(b, c, i) <= 0,
    ensures
        compare_parts_from(a, c, i) <= 0,
    decreases max3(a, b, c) - i,
{
    if i < max_len(a, c) {
        let (x, y, z) = (part_at(a, i), part_at(b, i), part_at(c, i));
        if i >= max_len(a, b) {
            assert(x == 0 && y == 0);
        }
        if i >= max_len(b, c) {
            assert(y == 0 && z == 0);
        }
        if x != y {
            assert(x < y);
        }
        if y != z {
            assert(y < z);
        }
        if x == y && y == z {
            if i < max_len(a, b) {
                assert(compare_parts_from(a, b, i) == compare_parts_from(a, b, i + 1));
            } else {
                assert(compare_parts_from(a, b, i + 1) == 0);
            }
            if i < max_len(b, c) {
                assert(compare_parts_from(b, c, i) == compare_parts_from(b, c, i + 1));
            } else {
                assert(compare_parts_from(b, c, i + 1) == 0);
            }
            lemma_compare_parts_transitive(a, b, c, i + 1);
        }
    }
}

/// Comparing two versions in either order gives opposite results, and a
/// version compares equal to itself.
pub proof fn law_compare_version_antisymmetric(a: Seq<char>, b: Seq<char>)
    ensures
        compare_version_spec(a, b) == -compare_version_spec(b, a),
        compare_version_spec(a, a) == 0,
{
    lemma_compare_parts_antisymmetric(version_parts(a), version_parts(b), 0);
}

/// If `a` is not newer than `b` and `b` is not newer than `c`, then `a` is
/// not newer than `c`.
pub proof fn law_compare_version_transitive(a: Seq<char>, b: Seq<char>, c: Seq<char>)
    requires
        compare_version_spec(a, b) <= 0,
        compare_version_spec(b, c) <= 0,
    ensures
        compare_version_spec(a, c) <= 0,
{
    let (pa, pb, pc) = (version_parts(a), version_parts(b), version_parts(c));
    if a == b || b == c {
    } else if a == c {
    } else {
        lemma_compare_parts_transitive(pa, pb, pc, 0);
    }
}

// ---------------------------------------------------------------------------
// Hashing
// ---------------------------------------------------------------------------

/// The SHA-1 digest of the UTF-8 encoding of `text`.
pub uninterp spec fn sha1_digest_of(text: Seq<char>) -> Seq<u8>;

/// Trusted: runs `sha1::Sha1` (`new`, `update` with the UTF-8 bytes of `text`,
/// `finalize`) and returns the digest bytes. The contract claims that the
/// result is the SHA-1 digest of the text and that it has 20 bytes (the
/// crate's `OutputSize` for `Sha1Core` is `U20`); nothing else about SHA-1
/// is stated.
#[verifier::external_body]
fn sha1_digest(text: &str) -> (d: Vec<u8>)
    ensures
        d@ == sha1_digest_of(text@),
        d@.len() == 20,
{
    let mut hasher = sha1::Sha1::new();
    hasher.update(text.as_bytes());
    hasher.finalize().to_vec()
}

/// The lower-case hexadecimal digit for `n < 16`.
pub open spec fn hex_digit_spec(n: int) -> char {
    if n < 10 {
        (48 + n) as char
    } else {
        (87 + n) as char
    }
}

/// Lower-case hexadecimal encoding, two digits per byte, high nibble first.
pub open spec fn hex_lower_spec(d: Seq<u8>) -> Seq<char>
    decreases d.len(),
{
    if d.len() == 0 {
        Seq::<char>::empty()
    } else {
        hex_lower_spec(d.drop_last()).push(hex_digit_spec(d.last() as int / 16)).push(
            hex_digit_spec(d.last() as int % 16),
        )
    }
}

fn hex_digit(n: u8) -> (c: char)
    requires
        n < 16,
    ensures
        c == hex_digit_spec(n as int),
{
    if n < 10 {
        (48u8 + n) as char
    } else {
        (87u8 + n) as char
    }
}

/// Lower-case hexadecimal encoding of a byte sequence.
pub fn hex_lower(d: &Vec<u8>) -> (s: String)
    ensures
        s@ == hex_lower_spec(d@),
{
    let mut s = String::new();
    let mut i: usize = 0;
    assert(d@.take(0) == Seq::<u8>::empty());
    while i < d.len()
        invariant
            i <= d.len(),
            s@ == hex_lower_spec(d@.take(i as int)),
        decreases d.len() - i,
    {
        let b = d[i];
        push_char(&mut s, hex_digit(b / 16));
        push_char(&mut s, hex_digit(b % 16));
        assert(d@.take(i + 1).drop_last() == d@.take(i as int));
        i += 1;
    }
    assert(d@.take(d.len() as int) == d@);
    s
}

/// The lower-case hexadecimal SHA-1 digest of `content`.
pub fn get_hash(content: &str) -> (r: String)
    ensures
        r@ == hex_lower_spec(sha1_digest_of(content@)),
        r@.len() == 40,
{
    let d = sha1_digest(content);
    proof {
        lemma_hex_len(d@);
    }
    hex_lower(&d)
}

proof fn lemma_hex_len(d: Seq<u8>)
    ensures
        hex_lower_spec(d).len() == 2 * d.len(),
    decreases d.len(),
{
    if d.len() > 0 {
        lemma_hex_len(d.drop_last());
    }
}

// ---------------------------------------------------------------------------
// Command output
// ---------------------------------------------------------------------------

/// What a finished shell command reported.
pub struct CapturedCommand {
    pub success: bool,
    pub stdout: String,
    pub stderr: String,
}

} // verus!
