//! Small verified string utilities shared by the other modules: character
//! tests, prefix and suffix checks, concatenation and decimal rendering.

use vstd::prelude::*;
use vstd::string::StrSliceExecFns;
use vstd::string::StringExecFns;

verus! {

/// Relies on String::push: appends exactly the given character.
#[verifier::external_body]
pub(crate) fn push_char(s: &mut String, c: char)
    ensures
        final(s)@ == old(s)@.push(c),
{
    s.push(c);
}

/// The characters of `pre` stand at the start of `s`.
pub open spec fn spec_starts_with(s: Seq<char>, pre: Seq<char>) -> bool {
    pre.len() <= s.len() && s.subrange(0, pre.len() as int) == pre
}

/// The characters of `suf` stand at the end of `s`.
pub open spec fn spec_ends_with(s: Seq<char>, suf: Seq<char>) -> bool {
    suf.len() <= s.len() && s.subrange(s.len() - suf.len(), s.len() as int) == suf
}

/// Whether `s` starts with the characters of `pre`.
pub fn starts_with(s: &str, pre: &str) -> (r: bool)
    ensures
        r == spec_starts_with(s@, pre@),
{
    let n = s.unicode_len();
    let m = pre.unicode_len();
    if m > n {
        assert(!spec_starts_with(s@, pre@));
        return false;
    }
    let mut i: usize = 0;
    while i < m
        invariant
            0 <= i <= m,
            m <= n,
            n == s@.len(),
            m == pre@.len(),
            forall|k: int| 0 <= k < i ==> s@[k] == pre@[k],
        decreases m - i,
    {
        if s.get_char(i) != pre.get_char(i) {
            assert(s@[i as int] != pre@[i as int]);
            assert(!spec_starts_with(s@, pre@)) by {
                if spec_starts_with(s@, pre@) {
                    assert(s@.subrange(0, pre@.len() as int)[i as int] == s@[i as int]);
                }
            }
            return false;
        }
        i = i + 1;
    }
    assert(s@.subrange(0, pre@.len() as int) =~= pre@);
    true
}

/// Whether `s` ends with the characters of `suf`.
pub fn ends_with(s: &str, suf: &str) -> (r: bool)
    ensures
        r == spec_ends_with(s@, suf@),
{
    let n = s.unicode_len();
    let m = suf.unicode_len();
    if m > n {
        assert(!spec_ends_with(s@, suf@));
        return false;
    }
    let off: usize = n - m;
    let mut i: usize = 0;
    while i < m
        invariant
            0 <= i <= m,
            m <= n,
            n == s@.len(),
            m == suf@.len(),
            off == n - m,
            forall|k: int| 0 <= k < i ==> s@[off + k] == suf@[k],
        decreases m - i,
    {
        if s.get_char(off + i) != suf.get_char(i) {
            assert(s@[off + i] != suf@[i as int]);
            assert(!spec_ends_with(s@, suf@)) by {
                if spec_ends_with(s@, suf@) {
                    assert(s@.subrange(s@.len() - suf@.len(), s@.len() as int)[i as int]
                        == s@[off + i]);
                }
            }
            return false;
        }
        i = i + 1;
    }
    assert(s@.subrange(s@.len() - suf@.len(), s@.len() as int) =~= suf@);
    true
}

/// Whether some character of `s` satisfies membership in `set`.
pub open spec fn spec_contains_char(s: Seq<char>, c: char) -> bool {
    exists|k: int| 0 <= k < s.len() && s[k] == c
}

/// Whether the character `c` occurs in `s`.
pub fn contains_char(s: &str, c: char) -> (r: bool)
    ensures
        r == spec_contains_char(s@, c),
{
    let n = s.unicode_len();
    let mut i: usize = 0;
    while i < n
        invariant
            0 <= i <= n,
            n == s@.len(),
            forall|k: int| 0 <= k < i ==> s@[k] != c,
        decreases n - i,
    {
        if s.get_char(i) == c {
            return true;
        }
        i = i + 1;
    }
    false
}

/// `s` with every occurrence of `from` replaced by `to`.
pub open spec fn spec_replace_char(s: Seq<char>, from: char, to: char) -> Seq<char> {
    s.map_values(|c: char| if c == from { to } else { c })
}

/// Replaces every occurrence of one character by another.
pub fn replace_char(s: &str, from: char, to: char) -> (r: String)
    ensures
        r@ == spec_replace_char(s@, from, to),
{
    let n = s.unicode_len();
    let mut out = String::new();
    let mut i: usize = 0;
    while i < n
        invariant
            0 <= i <= n,
            n == s@.len(),
            out@ == spec_replace_char(s@.subrange(0, i as int), from, to),
        decreases n - i,
    {
        let c = s.get_char(i);
        if c == from {
            push_char(&mut out, to);
        } else {
            push_char(&mut out, c);
        }
        proof {
            assert(s@.subrange(0, i + 1) =~= s@.subrange(0, i as int).push(s@[i as int]));
            assert(spec_replace_char(s@.subrange(0, i + 1), from, to)
                =~= spec_replace_char(s@.subrange(0, i as int), from, to).push(
                    if s@[i as int] == from { to } else { s@[i as int] }));
        }
        i = i + 1;
    }
    proof {
        assert(s@.subrange(0, n as int) =~= s@);
    }
    out
}

/// The decimal digit character for a value below ten.
pub open spec fn spec_digit(d: int) -> char {
    if d == 0 { '0' }
    else if d == 1 { '1' }
    else if d == 2 { '2' }
    else if d == 3 { '3' }
    else if d == 4 { '4' }
    else if d == 5 { '5' }
    else if d == 6 { '6' }
    else if d == 7 { '7' }
    else if d == 8 { '8' }
    else { '9' }
}

/// The decimal rendering of a natural number, without leading zeroes
/// (a single zero for zero itself).
pub open spec fn spec_decimal(n: nat) -> Seq<char>
    decreases n,
{
    if n < 10 {
        seq![spec_digit(n as int)]
    } else {
        spec_decimal(n / 10) + seq![spec_digit((n % 10) as int)]
    }
}

pub fn digit_char(d: u64) -> (c: char)
    requires
        d < 10,
    ensures
        c == spec_digit(d as int),
{
    match d {
        0 => '0',
        1 => '1',
        2 => '2',
        3 => '3',
        4 => '4',
        5 => '5',
        6 => '6',
        7 => '7',
        8 => '8',
        _ => '9',
    }
}

/// Renders a number in decimal.
pub fn decimal_string(n: u64) -> (r: String)
    ensures
        r@ == spec_decimal(n as nat),
    decreases n,
{
    if n < 10 {
        let mut out = String::new();
        push_char(&mut out, digit_char(n));
        assert(out@ =~= spec_decimal(n as nat));
        out
    } else {
        let mut out = decimal_string(n / 10);
        push_char(&mut out, digit_char(n % 10));
        assert(out@ =~= spec_decimal(n as nat));
        out
    }
}

/// The characters with the Unicode `White_Space` property: the ASCII
/// space and controls, next line, no-break spaces, the Ogham space mark,
/// the en-quad-to-hair-space range, the line and paragraph separators,
/// and the medium mathematical and ideographic spaces.
pub open spec fn is_space_char(c: char) -> bool {
    ||| c == ' '
    ||| c == '\t'
    ||| c == '\n'
    ||| c == '\u{000B}'
    ||| c == '\u{000C}'
    ||| c == '\r'
    ||| c == '\u{0085}'
    ||| c == '\u{00A0}'
    ||| c == '\u{1680}'
    ||| ('\u{2000}' <= c && c <= '\u{200A}')
    ||| c == '\u{2028}'
    ||| c == '\u{2029}'
    ||| c == '\u{202F}'
    ||| c == '\u{205F}'
    ||| c == '\u{3000}'
}

/// Relies on char::is_whitespace: true exactly of the `White_Space`
/// characters that `is_space_char` lists.
#[verifier::external_body]
pub(crate) fn char_is_space(c: char) -> (r: bool)
    ensures
        r == is_space_char(c),
{
    c.is_whitespace()
}

/// The first position at or after `pos` whose character is not white
/// space, or the length when only white space follows.
pub open spec fn first_non_space(s: Seq<char>, pos: int) -> int
    decreases s.len() - pos when 0 <= pos
{
    if pos < s.len() && is_space_char(s[pos]) {
        first_non_space(s, pos + 1)
    } else {
        pos
    }
}

/// The position after the last character before `e` that is not white
/// space, or zero when only white space precedes.
pub open spec fn end_non_space(s: Seq<char>, e: int) -> int
    decreases e when 0 <= e
{
    if e > 0 && e <= s.len() && is_space_char(s[e - 1]) {
        end_non_space(s, e - 1)
    } else {
        e
    }
}

/// The text with white space removed from both ends.
pub open spec fn spec_trim(s: Seq<char>) -> Seq<char> {
    let a = first_non_space(s, 0);
    let b = end_non_space(s, s.len() as int);
    if a < b {
        s.subrange(a, b)
    } else {
        Seq::empty()
    }
}

/// The first non-space position never passes the length.
proof fn lemma_first_non_space_le(s: Seq<char>, pos: int)
    requires
        0 <= pos <= s.len(),
    ensures
        pos <= first_non_space(s, pos) <= s.len(),
    decreases s.len() - pos,
{
    if pos < s.len() && is_space_char(s[pos]) {
        lemma_first_non_space_le(s, pos + 1);
    }
}

/// The trimmed end never passes the start.
proof fn lemma_end_non_space_le(s: Seq<char>, e: int)
    requires
        0 <= e <= s.len(),
    ensures
        0 <= end_non_space(s, e) <= e,
    decreases e,
{
    if e > 0 && is_space_char(s[e - 1]) {
        lemma_end_non_space_le(s, e - 1);
    }
}

/// Removes white space from both ends of the text.
pub fn trim_str(s: &str) -> (r: String)
    ensures
        r@ == spec_trim(s@),
{
    let n = s.unicode_len();
    let mut a: usize = 0;
    while a < n && char_is_space(s.get_char(a))
        invariant
            0 <= a <= n,
            n == s@.len(),
            first_non_space(s@, 0) == first_non_space(s@, a as int),
        decreases n - a,
    {
        a = a + 1;
    }
    proof {
        lemma_first_non_space_le(s@, a as int);
        assert(first_non_space(s@, a as int) == a as int);
    }
    let mut b: usize = n;
    while b > a && char_is_space(s.get_char(b - 1))
        invariant
            a <= b <= n,
            n == s@.len(),
            a == first_non_space(s@, 0),
            end_non_space(s@, n as int) == end_non_space(s@, b as int),
        decreases b,
    {
        b = b - 1;
    }
    proof {
        lemma_end_non_space_le(s@, b as int);
        if b > a {
            assert(!is_space_char(s@[b - 1]));
            assert(end_non_space(s@, b as int) == b as int);
        } else {
            // Only white space at and after `a`, so the trimmed end stops
            // at or before `a` and the trim is empty.
            assert(a == b);
            assert(end_non_space(s@, b as int) <= b as int);
            assert(first_non_space(s@, 0) == a as int);
            assert(spec_trim(s@) =~= Seq::<char>::empty()) by {
                lemma_end_non_space_le(s@, b as int);
            }
        }
    }
    if b > a {
        let part = s.substring_char(a, b);
        let out = String::from_str(part);
        proof {
            assert(out@ =~= spec_trim(s@));
        }
        out
    } else {
        let out = String::new();
        proof {
            assert(out@ =~= spec_trim(s@));
        }
        out
    }
}

/// Whether two texts hold the same characters.
pub fn str_equal(a: &str, b: &str) -> (r: bool)
    ensures
        r == (a@ == b@),
{
    let n = a.unicode_len();
    let m = b.unicode_len();
    if n != m {
        return false;
    }
    let mut i: usize = 0;
    while i < n
        invariant
            0 <= i <= n,
            n == a@.len(),
            n == b@.len(),
            forall|k: int| 0 <= k < i ==> a@[k] == b@[k],
        decreases n - i,
    {
        if a.get_char(i) != b.get_char(i) {
            return false;
        }
        i = i + 1;
    }
    proof {
        assert(a@ =~= b@);
    }
    true
}

/// The characters of `sub` stand somewhere in `s`.
pub open spec fn spec_contains_sub(s: Seq<char>, sub: Seq<char>) -> bool {
    exists|k: int| 0 <= k <= s.len() - sub.len() && #[trigger] s.subrange(k, k + sub.len())
        == sub
}

/// Whether `sub` matches `s` at position `k`.
fn matches_at(s: &str, n: usize, sub: &str, m: usize, k: usize) -> (r: bool)
    requires
        n == s@.len(),
        m == sub@.len(),
        k + m <= n,
    ensures
        r == (s@.subrange(k as int, k + m) == sub@),
{
    let mut j: usize = 0;
    while j < m
        invariant
            0 <= j <= m,
            n == s@.len(),
            m == sub@.len(),
            k + m <= n,
            forall|t: int| 0 <= t < j ==> s@[k + t] == sub@[t],
        decreases m - j,
    {
        if s.get_char(k + j) != sub.get_char(j) {
            assert(s@.subrange(k as int, k + m) != sub@) by {
                if s@.subrange(k as int, k + m) == sub@ {
                    assert(s@.subrange(k as int, k + m)[j as int] == s@[k + j]);
                }
            }
            return false;
        }
        j = j + 1;
    }
    proof {
        assert(s@.subrange(k as int, k + m) =~= sub@);
    }
    true
}

/// Whether `sub` occurs anywhere in `s`.
pub fn contains_sub(s: &str, sub: &str) -> (r: bool)
    ensures
        r == spec_contains_sub(s@, sub@),
{
    let n = s.unicode_len();
    let m = sub.unicode_len();
    if m > n {
        return false;
    }
    if m == 0 {
        proof {
            assert(s@.subrange(0, 0 + sub@.len() as int) =~= sub@);
        }
        return true;
    }
    let mut k: usize = 0;
    while k <= n - m
        invariant
            0 <= k <= n - m + 1,
            m <= n,
            n == s@.len(),
            m == sub@.len(),
            1 <= m,
            forall|t: int| 0 <= t < k ==> #[trigger] s@.subrange(t, t + sub@.len()) != sub@,
        decreases n - m - k + 1,
    {
        if matches_at(s, n, sub, m, k) {
            return true;
        }
        k = k + 1;
    }
    false
}

/// The position of the first occurrence of `c`, or the length.
pub open spec fn spec_find_char(s: Seq<char>, c: char, pos: int) -> int
    decreases s.len() - pos when 0 <= pos
{
    if pos < s.len() {
        if s[pos] == c {
            pos
        } else {
            spec_find_char(s, c, pos + 1)
        }
    } else {
        pos
    }
}

/// The first line of the text: everything before the first line feed,
/// with a carriage return before that line feed stripped; without a line
/// feed, the whole text.
pub open spec fn spec_first_line(s: Seq<char>) -> Seq<char> {
    let e = spec_find_char(s, '\n', 0);
    if e < s.len() {
        let line = s.subrange(0, e);
        if line.len() > 0 && line[line.len() - 1] == '\r' {
            line.drop_last()
        } else {
            line
        }
    } else {
        s
    }
}

/// The first find never passes the length.
proof fn lemma_find_char_le(s: Seq<char>, c: char, pos: int)
    requires
        0 <= pos <= s.len(),
    ensures
        pos <= spec_find_char(s, c, pos) <= s.len(),
    decreases s.len() - pos,
{
    if pos < s.len() && s[pos] != c {
        lemma_find_char_le(s, c, pos + 1);
    }
}

/// The first line of the text, as `spec_first_line` describes.
pub fn first_line(s: &str) -> (r: String)
    ensures
        r@ == spec_first_line(s@),
{
    let n = s.unicode_len();
    let mut e: usize = 0;
    while e < n && s.get_char(e) != '\n'
        invariant
            0 <= e <= n,
            n == s@.len(),
            spec_find_char(s@, '\n', 0) == spec_find_char(s@, '\n', e as int),
        decreases n - e,
    {
        e = e + 1;
    }
    proof {
        lemma_find_char_le(s@, '\n', e as int);
        assert(spec_find_char(s@, '\n', e as int) == e as int);
    }
    if e < n {
        let stop = if e > 0 && s.get_char(e - 1) == '\r' {
            e - 1
        } else {
            e
        };
        let part = s.substring_char(0, stop);
        proof {
            if e > 0 && s@[e - 1] == '\r' {
                assert(s@.subrange(0, e as int).drop_last() =~= s@.subrange(0, e - 1));
                assert(s@.subrange(0, e as int)[e - 1] == s@[e - 1]);
            }
        }
        String::from_str(part)
    } else {
        String::from_str(s)
    }
}

/// Whether the string `s` is among the strings of `v`.
pub fn string_list_contains(v: &Vec<String>, s: &str) -> (r: bool)
    ensures
        r == crate::registry::view_strings(v@).contains(s@),
{
    let n = v.len();
    let mut i: usize = 0;
    while i < n
        invariant
            0 <= i <= n,
            n == v@.len(),
            forall|k: int| 0 <= k < i ==> crate::registry::view_strings(v@)[k] != s@,
        decreases n - i,
    {
        if str_equal(v[i].as_str(), s) {
            assert(crate::registry::view_strings(v@)[i as int] == s@);
            return true;
        }
        i = i + 1;
    }
    false
}

/// Concatenates two string slices.
pub fn concat_str(a: &str, b: &str) -> (r: String)
    ensures
        r@ == a@ + b@,
{
    let mut out = String::from_str(a);
    out.append(b);
    out
}

} // verus!
