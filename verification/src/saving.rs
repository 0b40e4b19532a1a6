//! Saving clipboard content to a file: guessing a file extension from the
//! content's shape, and picking the first free numbered file name in a
//! directory.  The filesystem enters only as the list of paths that
//! already exist; the caller does the writing.

use vstd::prelude::*;
use vstd::set_lib::lemma_len_subset;
use vstd::seq_lib::seq_to_set_is_finite;
use vstd::string::StrSliceExecFns;
use vstd::string::StringExecFns;
use crate::registry::{join_path, spec_join, view_strings};
use crate::text;

verus! {

/// The extension guessed for a content: JSON and XML wrappers and PHP
/// and shebang openings on the trimmed text, language keywords anywhere,
/// a comma in the first line for tabular data, and markdown otherwise.
pub open spec fn spec_detect_format(s: Seq<char>) -> Seq<char> {
    let t = text::spec_trim(s);
    if (text::spec_starts_with(t, "{"@) && text::spec_ends_with(t, "}"@)) || (
    text::spec_starts_with(t, "["@) && text::spec_ends_with(t, "]"@)) {
        "json"@
    } else if text::spec_starts_with(t, "<?xml"@) || (text::spec_starts_with(t, "<"@)
        && text::spec_ends_with(t, ">"@)) {
        "xml"@
    } else if text::spec_starts_with(t, "<?php"@) {
        "php"@
    } else if text::spec_starts_with(t, "#!"@) || text::spec_contains_sub(t, "echo "@) {
        "sh"@
    } else if text::spec_contains_sub(s, "fn "@) && text::spec_contains_sub(s, "let "@)
        && text::spec_contains_sub(s, "match "@) {
        "rs"@
    } else if text::spec_contains_sub(s, "interface "@) || (text::spec_contains_sub(
        s,
        "type "@,
    ) && text::spec_contains_char(s, ':')) {
        "ts"@
    } else if text::spec_contains_sub(s, "function "@) || text::spec_contains_sub(s, "var "@)
        || text::spec_contains_sub(s, "const "@) {
        "js"@
    } else if text::spec_contains_char(text::spec_first_line(s), ',') {
        "csv"@
    } else {
        "md"@
    }
}

/// Guesses a file extension for the content, as `spec_detect_format`
/// describes.
pub fn detect_format(content: &str) -> (r: &str)
    ensures
        r@ == spec_detect_format(content@),
{
    let trimmed = text::trim_str(content);
    let t = trimmed.as_str();
    if (text::starts_with(t, "{") && text::ends_with(t, "}")) || (text::starts_with(t, "[")
        && text::ends_with(t, "]")) {
        "json"
    } else if text::starts_with(t, "<?xml") || (text::starts_with(t, "<") && text::ends_with(
        t,
        ">",
    )) {
        "xml"
    } else if text::starts_with(t, "<?php") {
        "php"
    } else if text::starts_with(t, "#!") || text::contains_sub(t, "echo ") {
        "sh"
    } else if text::contains_sub(content, "fn ") && text::contains_sub(content, "let ")
        && text::contains_sub(content, "match ") {
        "rs"
    } else if text::contains_sub(content, "interface ") || (text::contains_sub(
        content,
        "type ",
    ) && text::contains_char(content, ':')) {
        "ts"
    } else if text::contains_sub(content, "function ") || text::contains_sub(content, "var ")
        || text::contains_sub(content, "const ") {
        "js"
    } else {
        let line = text::first_line(content);
        if text::contains_char(line.as_str(), ',') {
            "csv"
        } else {
            "md"
        }
    }
}

/// The two-digit-or-more counter rendering: a leading zero below ten,
/// plain decimal from ten on.
pub open spec fn spec_pad2(k: nat) -> Seq<char> {
    if k < 10 {
        seq!['0', text::spec_digit(k as int)]
    } else {
        text::spec_decimal(k)
    }
}

/// The file name tried for counter `k`: the plain `base.ext` for zero,
/// `base` with the padded counter before the extension otherwise.
pub open spec fn spec_file_name(base: Seq<char>, ext: Seq<char>, k: nat) -> Seq<char> {
    if k == 0 {
        base + "."@ + ext
    } else {
        base + spec_pad2(k) + "."@ + ext
    }
}

/// The path tried for counter `k`.
pub open spec fn spec_candidate(
    dir: Seq<char>,
    base: Seq<char>,
    ext: Seq<char>,
    k: nat,
) -> Seq<char> {
    spec_join(dir, spec_file_name(base, ext, k))
}

/// A decimal rendering is never empty, is one digit exactly below ten,
/// and always starts with a digit.
proof fn lemma_decimal_shape(n: nat)
    ensures
        text::spec_decimal(n).len() >= 1,
        n < 10 <==> text::spec_decimal(n).len() == 1,
        is_digit_char(text::spec_decimal(n)[0]),
        n >= 1 ==> text::spec_decimal(n)[0] != '0',
    decreases n,
{
    if n >= 10 {
        lemma_decimal_shape(n / 10);
        assert(text::spec_decimal(n)[0] == text::spec_decimal(n / 10)[0]);
    }
}

/// A decimal digit character.
pub open spec fn is_digit_char(c: char) -> bool {
    crate::netaddr::is_dec_digit(c)
}

/// Decimal renderings are distinct for distinct numbers.
proof fn lemma_decimal_injective(m: nat, n: nat)
    requires
        text::spec_decimal(m) == text::spec_decimal(n),
    ensures
        m == n,
    decreases m,
{
    lemma_decimal_shape(m);
    lemma_decimal_shape(n);
    if m < 10 && n < 10 {
        assert(text::spec_decimal(m)[0] == text::spec_digit(m as int));
        assert(text::spec_decimal(n)[0] == text::spec_digit(n as int));
    } else if m >= 10 && n >= 10 {
        assert(text::spec_decimal(m).last() == text::spec_digit((m % 10) as int));
        assert(text::spec_decimal(n).last() == text::spec_digit((n % 10) as int));
        assert(m % 10 == n % 10);
        assert(text::spec_decimal(m).drop_last() =~= text::spec_decimal(m / 10));
        assert(text::spec_decimal(n).drop_last() =~= text::spec_decimal(n / 10));
        lemma_decimal_injective(m / 10, n / 10);
    }
}

/// Padded counters are distinct for distinct counters.
proof fn lemma_pad2_injective(j: nat, k: nat)
    requires
        spec_pad2(j) == spec_pad2(k),
    ensures
        j == k,
{
    lemma_decimal_shape(j);
    lemma_decimal_shape(k);
    if j < 10 && k < 10 {
        assert(spec_pad2(j)[1] == text::spec_digit(j as int));
        assert(spec_pad2(k)[1] == text::spec_digit(k as int));
    } else if j < 10 && k >= 10 {
        assert(spec_pad2(j)[0] == '0');
        assert(spec_pad2(k)[0] != '0');
    } else if j >= 10 && k < 10 {
        assert(spec_pad2(j)[0] != '0');
        assert(spec_pad2(k)[0] == '0');
    } else {
        lemma_decimal_injective(j, k);
    }
}

/// The padded counter is at least two characters.
proof fn lemma_pad2_len(k: nat)
    ensures
        spec_pad2(k).len() >= 2,
        is_digit_char(spec_pad2(k)[0]) || spec_pad2(k)[0] == '0',
{
    lemma_decimal_shape(k);
    if k >= 10 {
        assert(text::spec_decimal(k).len() >= 2);
    }
}

/// File names are distinct for distinct counters.
proof fn lemma_file_name_injective(base: Seq<char>, ext: Seq<char>, j: nat, k: nat)
    requires
        spec_file_name(base, ext, j) == spec_file_name(base, ext, k),
    ensures
        j == k,
{
    if j != k {
        if j == 0 || k == 0 {
            let nz: nat = if j == 0 { k } else { j };
            lemma_pad2_len(nz);
            assert(spec_file_name(base, ext, 0).len() == base.len() + "."@.len() + ext.len());
            assert(spec_file_name(base, ext, nz).len() == base.len() + spec_pad2(nz).len()
                + "."@.len() + ext.len());
            assert(false);
        } else {
            lemma_pad2_len(j);
            lemma_pad2_len(k);
            let a = spec_file_name(base, ext, j);
            let b = spec_file_name(base, ext, k);
            assert(a.len() == base.len() + spec_pad2(j).len() + "."@.len() + ext.len());
            assert(b.len() == base.len() + spec_pad2(k).len() + "."@.len() + ext.len());
            assert(spec_pad2(j).len() == spec_pad2(k).len());
            assert(spec_pad2(j) =~= spec_pad2(k)) by {
                assert forall|t: int| 0 <= t < spec_pad2(j).len() implies spec_pad2(j)[t]
                    == spec_pad2(k)[t] by {
                    assert(a[base.len() + t] == spec_pad2(j)[t]);
                    assert(b[base.len() + t] == spec_pad2(k)[t]);
                }
            }
            lemma_pad2_injective(j, k);
        }
    }
}

/// Candidate paths are distinct for distinct counters.
proof fn lemma_candidate_injective(
    dir: Seq<char>,
    base: Seq<char>,
    ext: Seq<char>,
    j: nat,
    k: nat,
)
    requires
        spec_candidate(dir, base, ext, j) == spec_candidate(dir, base, ext, k),
    ensures
        j == k,
{
    let a = spec_file_name(base, ext, j);
    let b = spec_file_name(base, ext, k);
    if j != k {
        lemma_file_name_shape(base, ext, j);
        lemma_file_name_shape(base, ext, k);
        // The two names agree on absoluteness, so the join treats them
        // alike; in every case equal joins force equal names.
        if crate::registry::spec_is_absolute(a) || crate::registry::spec_is_absolute(b) {
            assert(crate::registry::spec_is_absolute(a) == crate::registry::spec_is_absolute(
                b,
            ));
            assert(a == b);
        } else if dir.len() == 0 {
            assert(a == b);
        } else if dir[dir.len() - 1] == '/' {
            assert((dir + a).len() == (dir + b).len());
            assert(a =~= b) by {
                assert forall|t: int| 0 <= t < a.len() implies a[t] == b[t] by {
                    assert((dir + a)[dir.len() + t] == a[t]);
                    assert((dir + b)[dir.len() + t] == b[t]);
                }
            }
        } else {
            assert((dir + seq!['/'] + a).len() == (dir + seq!['/'] + b).len());
            assert(a =~= b) by {
                assert forall|t: int| 0 <= t < a.len() implies a[t] == b[t] by {
                    assert((dir + seq!['/'] + a)[dir.len() + 1 + t] == a[t]);
                    assert((dir + seq!['/'] + b)[dir.len() + 1 + t] == b[t]);
                }
            }
        }
        lemma_file_name_injective(base, ext, j, k);
    }
}

/// Two file names over one base agree on their first character, so they
/// agree on absoluteness.
proof fn lemma_file_name_shape(base: Seq<char>, ext: Seq<char>, k: nat)
    ensures
        spec_file_name(base, ext, k).len() > 0,
        base.len() > 0 ==> spec_file_name(base, ext, k)[0] == base[0],
        base.len() == 0 && k == 0 ==> spec_file_name(base, ext, k)[0] == '.',
        base.len() == 0 && k != 0 ==> spec_file_name(base, ext, k)[0] != '/',
{
    reveal_strlit(".");
    lemma_pad2_len(k);
    if base.len() == 0 && k != 0 {
        assert(spec_file_name(base, ext, k)[0] == spec_pad2(k)[0]);
    }
    if base.len() == 0 && k == 0 {
        assert(spec_file_name(base, ext, 0)[0] == "."@[0]);
    }
}

/// Among the first `len + 1` candidates, at least one is not among the
/// `len` existing paths: the candidates are pairwise distinct.
proof fn lemma_some_candidate_free(
    dir: Seq<char>,
    base: Seq<char>,
    ext: Seq<char>,
    fs: Seq<Seq<char>>,
)
    ensures
        exists|k: nat| k <= fs.len() && !fs.contains(
            #[trigger] spec_candidate(dir, base, ext, k),
        ),
{
    if forall|k: nat| k <= fs.len() ==> fs.contains(#[trigger] spec_candidate(dir, base, ext, k)) {
        let m = fs.len() as int;
        let cands = Seq::new((m + 1) as nat, |i: int| spec_candidate(dir, base, ext, i as nat));
        assert(cands.no_duplicates()) by {
            assert forall|x: int, y: int| 0 <= x < y < cands.len() implies cands[x]
                != cands[y] by {
                if cands[x] == cands[y] {
                    lemma_candidate_injective(dir, base, ext, x as nat, y as nat);
                }
            }
        }
        cands.unique_seq_to_set();
        assert(cands.to_set().subset_of(fs.to_set())) by {
            assert forall|p: Seq<char>| cands.to_set().contains(p) implies fs.to_set().contains(
                p,
            ) by {
                let i = choose|i: int| 0 <= i < cands.len() && cands[i] == p;
                assert(fs.contains(spec_candidate(dir, base, ext, i as nat)));
            }
        }
        seq_to_set_is_finite(fs);
        lemma_len_subset(cands.to_set(), fs.to_set());
        fs.lemma_cardinality_of_set();
        assert(false);
    }
}

fn pad2(k: u64) -> (r: String)
    requires
        k >= 1,
    ensures
        r@ == spec_pad2(k as nat),
{
    if k < 10 {
        let mut out = String::new();
        text::push_char(&mut out, '0');
        let d = text::digit_char(k);
        text::push_char(&mut out, d);
        proof {
            assert(out@ =~= spec_pad2(k as nat));
        }
        out
    } else {
        text::decimal_string(k)
    }
}

fn file_name_for(base: &str, ext: &str, k: u64) -> (r: String)
    ensures
        r@ == spec_file_name(base@, ext@, k as nat),
{
    if k == 0 {
        let mut out = text::concat_str(base, ".");
        out.append(ext);
        proof {
            assert(out@ =~= spec_file_name(base@, ext@, 0));
        }
        out
    } else {
        let pad = pad2(k);
        let mut out = text::concat_str(base, pad.as_str());
        out.append(".");
        out.append(ext);
        proof {
            assert(out@ =~= spec_file_name(base@, ext@, k as nat));
        }
        out
    }
}

/// Picks the first free file name in the directory: `base.ext` first,
/// then `base01.ext`, `base02.ext` and so on, against the given list of
/// existing paths.  The result is the candidate with the least counter
/// that is not among them.
pub fn get_available_path(
    dir: &String,
    base_name: &str,
    ext: &str,
    existing: &Vec<String>,
) -> (r: String)
    ensures
        ({
            let fs = view_strings(existing@);
            exists|k: nat|
                {
                    &&& r@ == spec_candidate(dir@, base_name@, ext@, k)
                    &&& !fs.contains(#[trigger] spec_candidate(dir@, base_name@, ext@, k))
                    &&& forall|j: nat| j < k ==> fs.contains(
                        #[trigger] spec_candidate(dir@, base_name@, ext@, j),
                    )
                }
        }),
{
    let ghost fs = view_strings(existing@);
    let n = existing.len();
    proof {
        lemma_some_candidate_free(dir@, base_name@, ext@, fs);
    }
    let mut k: u64 = 0;
    loop
        invariant
            fs == view_strings(existing@),
            fs.len() == n,
            k <= fs.len(),
            forall|j: nat| j < k as nat ==> fs.contains(
                #[trigger] spec_candidate(dir@, base_name@, ext@, j),
            ),
            exists|w: nat| w <= fs.len() && !fs.contains(
                #[trigger] spec_candidate(dir@, base_name@, ext@, w),
            ),
        decreases fs.len() - k,
    {
        let name = file_name_for(base_name, ext, k);
        let cand = join_path(dir, &name);
        proof {
            assert(cand@ == spec_candidate(dir@, base_name@, ext@, k as nat));
        }
        if !text::string_list_contains(existing, cand.as_str()) {
            proof {
                assert(!fs.contains(spec_candidate(dir@, base_name@, ext@, k as nat)));
            }
            return cand;
        }
        proof {
            assert(fs.contains(spec_candidate(dir@, base_name@, ext@, k as nat)));
            if k as nat == fs.len() {
                let w = choose|w: nat| w <= fs.len() && !fs.contains(
                    #[trigger] spec_candidate(dir@, base_name@, ext@, w),
                );
                assert(fs.contains(spec_candidate(dir@, base_name@, ext@, w)));
            }
        }
        k = k + 1;
    }
}

} // verus!
