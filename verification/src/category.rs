//! Classifying a piece of clipboard text: what kind of input it is, and
//! which icon that kind carries.
//!
//! The shape checks — IP address, colour code, email, git hash, file path,
//! shell command, code keywords — are verified character-level logic.
//! Whether the text parses as a URL, as JSON, as an arithmetic expression
//! or as an English date phrase is decided by outside parsers behind
//! trusted probes; the classifier takes their verdicts and applies the
//! fixed precedence, which is verified.

use vstd::prelude::*;
use vstd::string::StrSliceExecFns;
use crate::icon::SystemIcon;
use crate::netaddr;
use crate::protocol::view_opt_string;
use crate::text;

verus! {

/// The kind of input a clipboard text is taken for.  `All` is not a
/// detected kind: an action marked `All` accepts every kind.
#[derive(Clone, Copy, Debug, PartialEq, Eq, Structural)]
pub enum InputCategory {
    Json,
    Code,
    ShellCommand,
    GitHash,
    MathExpression,
    Url,
    FilePath,
    IpAddress,
    Color,
    DateTime,
    Email,
    Plaintext,
    All,
}

/// A hexadecimal colour code: a hash sign and six or three hex digits.
pub open spec fn spec_is_color_hex(s: Seq<char>) -> bool {
    (s.len() == 7 || s.len() == 4) && s[0] == '#' && forall|k: int| 1 <= k < s.len()
        ==> netaddr::is_hex_digit(#[trigger] s[k])
}

/// A lowercase hexadecimal digit.
pub open spec fn is_lower_hex_digit(c: char) -> bool {
    netaddr::is_dec_digit(c) || ('a' <= c && c <= 'f')
}

/// A full git object name: forty lowercase hex digits.
pub open spec fn spec_is_git_hash(s: Seq<char>) -> bool {
    s.len() == 40 && forall|k: int| 0 <= k < s.len() ==> is_lower_hex_digit(#[trigger] s[k])
}

/// An email shape: no white space, exactly one `@` with something before
/// it, and a dot inside what follows, with something on both sides.
pub open spec fn spec_is_email(s: Seq<char>) -> bool {
    exists|i: int|
        {
            &&& 0 < i < s.len()
            &&& #[trigger] s[i] == '@'
            &&& (forall|k: int| 0 <= k < s.len() && k != i ==> s[k] != '@')
            &&& (forall|k: int| 0 <= k < s.len() ==> !text::is_space_char(#[trigger] s[k]))
            &&& (exists|j: int| i + 1 < j < s.len() - 1 && #[trigger] s[j] == '.')
        }
}

/// One of the arithmetic operator characters the classifier looks for.
pub open spec fn is_math_op_char(c: char) -> bool {
    c == '+' || c == '-' || c == '*' || c == '/' || c == '^' || c == '%'
}

/// What `char::is_numeric` holds true of: the Unicode numeric property,
/// a fact of the character alone.
pub uninterp spec fn is_numeric_char(c: char) -> bool;

/// Relies on char::is_numeric: whether the character is numeric.
#[verifier::external_body]
fn char_is_numeric(c: char) -> (r: bool)
    ensures
        r == is_numeric_char(c),
{
    c.is_numeric()
}

/// What url::Url::parse followed by url::Url::scheme yields for a text:
/// the parsed URL's scheme, or nothing when the text is no URL.  A
/// function of the text alone.
pub uninterp spec fn url_scheme_of(s: Seq<char>) -> Option<Seq<char>>;

/// Relies on url::Url::parse and url::Url::scheme: the scheme of the text
/// read as a URL.
#[verifier::external_body]
fn url_scheme(s: &str) -> (r: Option<String>)
    ensures
        view_opt_string(r) == url_scheme_of(s@),
{
    match url::Url::parse(s) {
        Ok(u) => Some(u.scheme().to_string()),
        Err(_) => None,
    }
}

/// Whether serde_json::from_str accepts the text as a JSON value.  A
/// function of the text alone.
pub uninterp spec fn json_accepted(s: Seq<char>) -> bool;

/// Relies on serde_json::from_str: whether the text is well-formed JSON.
#[verifier::external_body]
fn json_is_valid(s: &str) -> (r: bool)
    ensures
        r == json_accepted(s@),
{
    serde_json::from_str::<serde_json::Value>(s).is_ok()
}

/// Whether evalexpr::build_operator_tree accepts the text as an
/// arithmetic expression.  A function of the text alone.
pub uninterp spec fn expr_accepted(s: Seq<char>) -> bool;

/// Relies on evalexpr::build_operator_tree: whether the text is a
/// well-formed expression.
#[verifier::external_body]
fn expr_is_valid(s: &str) -> (r: bool)
    ensures
        r == expr_accepted(s@),
{
    evalexpr::build_operator_tree::<evalexpr::DefaultNumericTypes>(s).is_ok()
}

/// Relies on chrono_english::parse_date_string and chrono::Utc::now:
/// whether the text reads as an English date phrase relative to the
/// moment of the call.  The verdict depends on that moment, so nothing is
/// stated about it; the classifier takes it as an argument and is
/// verified for either verdict.
#[verifier::external_body]
fn date_parses(s: &str) -> bool {
    chrono_english::parse_date_string(s, chrono::Utc::now(), chrono_english::Dialect::Uk)
        .is_ok()
}

/// The scheme names a plain or secure HTTP URL.
pub open spec fn spec_scheme_is_http(scheme: Option<Seq<char>>) -> bool {
    match scheme {
        Some(t) => t == "http"@ || t == "https"@,
        None => false,
    }
}

/// The first line's worth of the shell-command shapes: a `$` prompt or a
/// `sudo` invocation.
pub open spec fn spec_is_shellish(s: Seq<char>) -> bool {
    text::spec_starts_with(s, "$"@) || text::spec_starts_with(s, "sudo "@)
}

/// One of the path shapes: absolute, relative or home-anchored.
pub open spec fn spec_is_pathish(s: Seq<char>) -> bool {
    text::spec_starts_with(s, "/"@) || text::spec_starts_with(s, "./"@)
        || text::spec_starts_with(s, "~/"@)
}

/// The text is wrapped in braces or brackets, the way a JSON object or
/// array is.
pub open spec fn spec_is_jsonish(s: Seq<char>) -> bool {
    s.len() > 0 && ((s[0] == '{' && s[s.len() - 1] == '}') || (s[0] == '[' && s[s.len() - 1]
        == ']'))
}

/// Some keyword of a programming language occurs in the text.
pub open spec fn spec_has_code_keyword(s: Seq<char>) -> bool {
    ||| text::spec_contains_sub(s, "fn "@)
    ||| text::spec_contains_sub(s, "public "@)
    ||| text::spec_contains_sub(s, "import "@)
    ||| text::spec_contains_sub(s, "let "@)
    ||| text::spec_contains_sub(s, "const "@)
    ||| text::spec_contains_sub(s, "def "@)
    ||| text::spec_contains_sub(s, "class "@)
    ||| text::spec_contains_sub(s, "function"@)
    ||| text::spec_contains_sub(s, "func"@)
}

/// The classification of an already-trimmed text, given the outside
/// parsers' verdicts: the first matching kind in a fixed precedence.
pub open spec fn spec_classify(
    s: Seq<char>,
    scheme: Option<Seq<char>>,
    json_ok: bool,
    expr_ok: bool,
    date_ok: bool,
) -> InputCategory {
    if s.len() == 0 {
        InputCategory::Plaintext
    } else if netaddr::spec_is_ip(s) {
        InputCategory::IpAddress
    } else if spec_is_color_hex(s) {
        InputCategory::Color
    } else if spec_is_email(s) {
        InputCategory::Email
    } else if spec_is_git_hash(s) {
        InputCategory::GitHash
    } else if spec_scheme_is_http(scheme) {
        InputCategory::Url
    } else if spec_is_pathish(s) {
        InputCategory::FilePath
    } else if spec_is_jsonish(s) && json_ok {
        InputCategory::Json
    } else if (exists|k: int| 0 <= k < s.len() && is_math_op_char(#[trigger] s[k])) && (exists|
        k: int,
    | 0 <= k < s.len() && is_numeric_char(#[trigger] s[k])) && expr_ok {
        InputCategory::MathExpression
    } else if date_ok && !(forall|k: int| 0 <= k < s.len() ==> is_numeric_char(
        #[trigger] s[k],
    )) {
        InputCategory::DateTime
    } else if spec_is_shellish(s) {
        InputCategory::ShellCommand
    } else if spec_has_code_keyword(s) {
        InputCategory::Code
    } else {
        InputCategory::Plaintext
    }
}

/// Whether the text is a hexadecimal colour code.
fn is_color_hex(s: &str) -> (r: bool)
    ensures
        r == spec_is_color_hex(s@),
{
    let n = s.unicode_len();
    if !(n == 7 || n == 4) {
        return false;
    }
    if s.get_char(0) != '#' {
        return false;
    }
    let mut k: usize = 1;
    while k < n
        invariant
            1 <= k <= n,
            n == s@.len(),
            forall|t: int| 1 <= t < k ==> netaddr::is_hex_digit(#[trigger] s@[t]),
        decreases n - k,
    {
        let c = s.get_char(k);
        if !(('0' <= c && c <= '9') || ('a' <= c && c <= 'f') || ('A' <= c && c <= 'F')) {
            return false;
        }
        k = k + 1;
    }
    true
}

/// Whether the text is a full git object name.
fn is_git_hash(s: &str) -> (r: bool)
    ensures
        r == spec_is_git_hash(s@),
{
    let n = s.unicode_len();
    if n != 40 {
        return false;
    }
    let mut k: usize = 0;
    while k < n
        invariant
            0 <= k <= n,
            n == s@.len(),
            forall|t: int| 0 <= t < k ==> is_lower_hex_digit(#[trigger] s@[t]),
        decreases n - k,
    {
        let c = s.get_char(k);
        if !(('0' <= c && c <= '9') || ('a' <= c && c <= 'f')) {
            return false;
        }
        k = k + 1;
    }
    true
}

/// Whether the text has the email shape.
fn is_email(s: &str) -> (r: bool)
    ensures
        r == spec_is_email(s@),
{
    let n = s.unicode_len();
    // Find the single `@`, and reject white space on the way.
    let mut at: Option<usize> = None;
    let mut k: usize = 0;
    while k < n
        invariant
            0 <= k <= n,
            n == s@.len(),
            (match at {
                Some(i) => 0 < i < k && s@[i as int] == '@' && forall|t: int|
                    0 <= t < k && t != i ==> s@[t] != '@',
                None => forall|t: int| 0 <= t < k ==> s@[t] != '@',
            }),
            forall|t: int| 0 <= t < k ==> !text::is_space_char(#[trigger] s@[t]),
        decreases n - k,
    {
        let c = s.get_char(k);
        if text::char_is_space(c) {
            proof {
                lemma_no_email(s@, k as int);
            }
            return false;
        }
        if c == '@' {
            match at {
                Some(_) => {
                    proof {
                        lemma_no_email_two_ats(s@);
                    }
                    return false;
                },
                None => {
                    if k == 0 {
                        proof {
                            lemma_no_email_at_start(s@);
                        }
                        return false;
                    }
                    at = Some(k);
                },
            }
        }
        k = k + 1;
    }
    let i = match at {
        None => {
            return false;
        },
        Some(i) => i,
    };
    // A dot strictly inside what follows the `@`.
    let mut j: usize = i + 1;
    while j < n
        invariant
            i + 1 <= j <= n,
            0 < i < n,
            n == s@.len(),
            s@[i as int] == '@',
            forall|t: int| 0 <= t < n && t != i ==> s@[t] != '@',
            forall|t: int| 0 <= t < n ==> !text::is_space_char(#[trigger] s@[t]),
            forall|t: int| i + 1 < t < j && t < n - 1 ==> s@[t] != '.',
        decreases n - j,
    {
        if s.get_char(j) == '.' && j > i + 1 && j + 1 < n {
            proof {
                assert(s@[i as int] == '@');
                assert(i + 1 < j < s@.len() - 1 && s@[j as int] == '.');
                assert(spec_is_email(s@));
            }
            return true;
        }
        j = j + 1;
    }
    proof {
        assert(!spec_is_email(s@)) by {
            if spec_is_email(s@) {
                let w = choose|w: int|
                    0 < w < s@.len() && #[trigger] s@[w] == '@' && (forall|t: int|
                        0 <= t < s@.len() && t != w ==> s@[t] != '@') && (forall|t: int|
                        0 <= t < s@.len() ==> !text::is_space_char(#[trigger] s@[t])) && (
                    exists|d: int| w + 1 < d < s@.len() - 1 && #[trigger] s@[d] == '.');
                assert(w == i);
                let d = choose|d: int| i + 1 < d < s@.len() - 1 && #[trigger] s@[d] == '.';
                assert(s@[d] != '.');
            }
        }
    }
    false
}

/// A white-space character anywhere rules the email shape out.
proof fn lemma_no_email(s: Seq<char>, k: int)
    requires
        0 <= k < s.len(),
        text::is_space_char(s[k]),
    ensures
        !spec_is_email(s),
{
}

/// A second `@` rules the email shape out.
proof fn lemma_no_email_two_ats(s: Seq<char>)
    requires
        exists|a: int, b: int| 0 <= a < b < s.len() && s[a] == '@' && #[trigger] s[b] == '@'
            && #[trigger] s[a] == '@',
    ensures
        !spec_is_email(s),
{
}

/// An `@` at the very start rules the email shape out.
proof fn lemma_no_email_at_start(s: Seq<char>)
    requires
        s.len() > 0,
        s[0] == '@',
    ensures
        !spec_is_email(s),
{
}

/// Whether some character is one of the arithmetic operators.
fn has_math_op(s: &str) -> (r: bool)
    ensures
        r == exists|k: int| 0 <= k < s@.len() && is_math_op_char(#[trigger] s@[k]),
{
    let n = s.unicode_len();
    let mut k: usize = 0;
    while k < n
        invariant
            0 <= k <= n,
            n == s@.len(),
            forall|t: int| 0 <= t < k ==> !is_math_op_char(#[trigger] s@[t]),
        decreases n - k,
    {
        let c = s.get_char(k);
        if c == '+' || c == '-' || c == '*' || c == '/' || c == '^' || c == '%' {
            return true;
        }
        k = k + 1;
    }
    false
}

/// Whether some character is numeric.
fn has_numeric(s: &str) -> (r: bool)
    ensures
        r == exists|k: int| 0 <= k < s@.len() && is_numeric_char(#[trigger] s@[k]),
{
    let n = s.unicode_len();
    let mut k: usize = 0;
    while k < n
        invariant
            0 <= k <= n,
            n == s@.len(),
            forall|t: int| 0 <= t < k ==> !is_numeric_char(#[trigger] s@[t]),
        decreases n - k,
    {
        if char_is_numeric(s.get_char(k)) {
            return true;
        }
        k = k + 1;
    }
    false
}

/// Whether every character is numeric.
fn all_numeric(s: &str) -> (r: bool)
    ensures
        r == forall|k: int| 0 <= k < s@.len() ==> is_numeric_char(#[trigger] s@[k]),
{
    let n = s.unicode_len();
    let mut k: usize = 0;
    while k < n
        invariant
            0 <= k <= n,
            n == s@.len(),
            forall|t: int| 0 <= t < k ==> is_numeric_char(#[trigger] s@[t]),
        decreases n - k,
    {
        if !char_is_numeric(s.get_char(k)) {
            return false;
        }
        k = k + 1;
    }
    true
}

/// Whether the text is wrapped like a JSON object or array.
fn is_jsonish(s: &str) -> (r: bool)
    ensures
        r == spec_is_jsonish(s@),
{
    let n = s.unicode_len();
    if n == 0 {
        return false;
    }
    let first = s.get_char(0);
    let last = s.get_char(n - 1);
    (first == '{' && last == '}') || (first == '[' && last == ']')
}

impl InputCategory {
    /// Classifies an already-trimmed text given the outside parsers'
    /// verdicts, by the fixed precedence of `spec_classify`.
    pub fn classify(
        trimmed: &str,
        scheme: &Option<String>,
        json_ok: bool,
        expr_ok: bool,
        date_ok: bool,
    ) -> (r: InputCategory)
        ensures
            r == spec_classify(trimmed@, view_opt_string(*scheme), json_ok, expr_ok, date_ok),
    {
        if trimmed.unicode_len() == 0 {
            return InputCategory::Plaintext;
        }
        if netaddr::is_ip_literal(trimmed) {
            return InputCategory::IpAddress;
        }
        if is_color_hex(trimmed) {
            return InputCategory::Color;
        }
        if is_email(trimmed) {
            return InputCategory::Email;
        }
        if is_git_hash(trimmed) {
            return InputCategory::GitHash;
        }
        let scheme_http = match scheme {
            Some(t) => text::str_equal(t.as_str(), "http") || text::str_equal(
                t.as_str(),
                "https",
            ),
            None => false,
        };
        if scheme_http {
            return InputCategory::Url;
        }
        if text::starts_with(trimmed, "/") || text::starts_with(trimmed, "./")
            || text::starts_with(trimmed, "~/") {
            return InputCategory::FilePath;
        }
        if is_jsonish(trimmed) && json_ok {
            return InputCategory::Json;
        }
        if has_math_op(trimmed) && has_numeric(trimmed) && expr_ok {
            return InputCategory::MathExpression;
        }
        if date_ok && !all_numeric(trimmed) {
            return InputCategory::DateTime;
        }
        if text::starts_with(trimmed, "$") || text::starts_with(trimmed, "sudo ") {
            return InputCategory::ShellCommand;
        }
        if text::contains_sub(trimmed, "fn ") || text::contains_sub(trimmed, "public ")
            || text::contains_sub(trimmed, "import ") || text::contains_sub(trimmed, "let ")
            || text::contains_sub(trimmed, "const ") || text::contains_sub(trimmed, "def ")
            || text::contains_sub(trimmed, "class ") || text::contains_sub(trimmed, "function")
            || text::contains_sub(trimmed, "func") {
            return InputCategory::Code;
        }
        InputCategory::Plaintext
    }

    /// Detects what kind of input the text is: the text is trimmed, the
    /// outside parsers are consulted, and the fixed precedence decides.
    /// The date verdict depends on the moment of the call, so it is
    /// existential here; every other part of the verdict is pinned to the
    /// trimmed text.
    pub fn detect(input: &str) -> (r: InputCategory)
        ensures
            exists|d: bool|
                r == spec_classify(
                    text::spec_trim(input@),
                    url_scheme_of(text::spec_trim(input@)),
                    json_accepted(text::spec_trim(input@)),
                    expr_accepted(text::spec_trim(input@)),
                    d,
                ),
    {
        let trimmed = text::trim_str(input);
        let scheme = url_scheme(trimmed.as_str());
        let json_ok = json_is_valid(trimmed.as_str());
        let expr_ok = expr_is_valid(trimmed.as_str());
        let date_ok = date_parses(trimmed.as_str());
        let r = InputCategory::classify(trimmed.as_str(), &scheme, json_ok, expr_ok, date_ok);
        proof {
            assert(r == spec_classify(
                text::spec_trim(input@),
                url_scheme_of(text::spec_trim(input@)),
                json_accepted(text::spec_trim(input@)),
                expr_accepted(text::spec_trim(input@)),
                date_ok,
            ));
        }
        r
    }

    /// The icon identifier shown for this kind of input.
    pub fn get_icon(&self) -> (r: String)
        ensures
            r@ == crate::icon::spec_icon_name(self.spec_icon()),
    {
        let icon = match self {
            InputCategory::Json => SystemIcon::Json,
            InputCategory::Code => SystemIcon::FileCode,
            InputCategory::ShellCommand => SystemIcon::Terminal,
            InputCategory::GitHash => SystemIcon::Symbol,
            InputCategory::MathExpression => SystemIcon::Calculator,
            InputCategory::Url => SystemIcon::Url,
            InputCategory::FilePath => SystemIcon::Folder,
            InputCategory::IpAddress => SystemIcon::NetworkStatus,
            InputCategory::Color => SystemIcon::FileImage,
            InputCategory::DateTime => SystemIcon::Language,
            InputCategory::Email => SystemIcon::MailSend,
            InputCategory::Plaintext => SystemIcon::FileText,
            InputCategory::All => SystemIcon::FileText,
        };
        let s = icon.as_str();
        String::from_str(s)
    }

    /// The system icon each kind maps to.
    pub open spec fn spec_icon(self) -> SystemIcon {
        match self {
            InputCategory::Json => SystemIcon::Json,
            InputCategory::Code => SystemIcon::FileCode,
            InputCategory::ShellCommand => SystemIcon::Terminal,
            InputCategory::GitHash => SystemIcon::Symbol,
            InputCategory::MathExpression => SystemIcon::Calculator,
            InputCategory::Url => SystemIcon::Url,
            InputCategory::FilePath => SystemIcon::Folder,
            InputCategory::IpAddress => SystemIcon::NetworkStatus,
            InputCategory::Color => SystemIcon::FileImage,
            InputCategory::DateTime => SystemIcon::Language,
            InputCategory::Email => SystemIcon::MailSend,
            InputCategory::Plaintext => SystemIcon::FileText,
            InputCategory::All => SystemIcon::FileText,
        }
    }
}

} // verus!
