//! Universal actions: things the launcher can do with whatever is on the
//! clipboard, each guarded by the kind of input it applies to and an
//! optional validator.  Deciding whether an action matches is verified;
//! running a matched action — spawning a shell, writing a file — stays
//! outside, which is why a target here is data, not a function.

use vstd::prelude::*;
use crate::category::InputCategory;
use crate::protocol::view_opt_string;
use crate::text;

verus! {

/// An operation the broker performs itself rather than through a shell.
#[derive(Clone, Copy, Debug, PartialEq, Eq, Structural)]
pub enum InternalOp {
    /// Save the clipboard content to a file on the desktop, with a
    /// detected extension.
    SaveToDesktop,
}

/// What runs when an action is picked: a shell command template, with
/// `{clip}` standing for the clipboard content, or an internal operation.
#[derive(Clone, Debug, PartialEq, Eq)]
pub enum ActionTarget {
    Shell(String),
    Internal(InternalOp),
}

/// An extra check an action may demand of the clipboard content.
#[derive(Clone, Copy, Debug, PartialEq, Eq, Structural)]
pub enum Validator {
    /// The content must be a link into a well-known video site.
    Youtube,
}

/// One universal action: its display name, the same name lowercased for
/// matching, the input kind it applies to, what it runs, and an optional
/// validator.
#[derive(Clone, Debug)]
pub struct UniversalAction {
    pub name: String,
    pub name_lowercase: String,
    pub category: InputCategory,
    pub target: ActionTarget,
    pub validator: Option<Validator>,
}

/// What url::Url::parse followed by url::Url::host_str yields for a
/// text: the host of the parsed URL, or nothing.  A function of the text
/// alone.
pub uninterp spec fn url_host_of(s: Seq<char>) -> Option<Seq<char>>;

/// Relies on url::Url::parse and url::Url::host_str: the host of the
/// text read as a URL.
#[verifier::external_body]
fn url_host(s: &str) -> (r: Option<String>)
    ensures
        view_opt_string(r) == url_host_of(s@),
{
    match url::Url::parse(s) {
        Ok(u) => u.host_str().map(|h| h.to_string()),
        Err(_) => None,
    }
}

/// The host is one of the well-known video site hosts.
pub open spec fn spec_is_youtube(s: Seq<char>) -> bool {
    match url_host_of(s) {
        Some(h) => h == "www.youtube.com"@ || h == "youtube.com"@ || h == "m.youtube.com"@
            || h == "youtu.be"@,
        None => false,
    }
}

/// Whether the text is a link into the well-known video site: it parses
/// as a URL whose host is one of its hosts.
pub fn is_youtube(clipboard: &str) -> (r: bool)
    ensures
        r == spec_is_youtube(clipboard@),
{
    match url_host(clipboard) {
        Some(h) => text::str_equal(h.as_str(), "www.youtube.com") || text::str_equal(
            h.as_str(),
            "youtube.com",
        ) || text::str_equal(h.as_str(), "m.youtube.com") || text::str_equal(
            h.as_str(),
            "youtu.be",
        ),
        None => false,
    }
}

/// Whether an action applies: its kind accepts the detected kind, and
/// its validator, if any, accepts the content.
pub open spec fn spec_is_match(
    category: InputCategory,
    validator: Option<Validator>,
    clipboard: Seq<char>,
    detected: InputCategory,
) -> bool {
    (category == InputCategory::All || category == detected) && (match validator {
        Some(Validator::Youtube) => spec_is_youtube(clipboard),
        None => true,
    })
}

impl UniversalAction {
    /// Whether this action applies to the detected kind of the clipboard
    /// content, as `spec_is_match` describes.
    pub fn is_match(&self, clipboard: &str, detected_cat: InputCategory) -> (r: bool)
        ensures
            r == spec_is_match(self.category, self.validator, clipboard@, detected_cat),
    {
        let category_ok = self.category == InputCategory::All || self.category == detected_cat;
        if !category_ok {
            return false;
        }
        match self.validator {
            Some(Validator::Youtube) => is_youtube(clipboard),
            None => true,
        }
    }
}

/// The template with every `{clip}` replaced by the content, scanning
/// left to right without overlap.
pub open spec fn spec_substitute(s: Seq<char>, pat: Seq<char>, rep: Seq<char>) -> Seq<char>
    decreases s.len() when pat.len() > 0
{
    if text::spec_starts_with(s, pat) && pat.len() > 0 {
        rep + spec_substitute(s.skip(pat.len() as int), pat, rep)
    } else if s.len() == 0 {
        s
    } else {
        seq![s[0]] + spec_substitute(s.skip(1), pat, rep)
    }
}

fn substitute(s: &str, pat: &str, rep: &str) -> (r: String)
    requires
        pat@.len() > 0,
    ensures
        r@ == spec_substitute(s@, pat@, rep@),
    decreases s@.len(),
{
    let n = s.unicode_len();
    if text::starts_with(s, pat) {
        let m = pat.unicode_len();
        let rest = s.substring_char(m, n);
        proof {
            assert(rest@ =~= s@.skip(pat@.len() as int));
        }
        let tail = substitute(rest, pat, rep);
        let out = text::concat_str(rep, tail.as_str());
        out
    } else if n == 0 {
        String::new()
    } else {
        let rest = s.substring_char(1, n);
        proof {
            assert(rest@ =~= s@.skip(1));
        }
        let tail = substitute(rest, pat, rep);
        let head = s.substring_char(0, 1);
        let out = text::concat_str(head, tail.as_str());
        proof {
            assert(head@ =~= seq![s@[0]]);
        }
        out
    }
}

/// The shell command an action's template yields for a clipboard
/// content: the template with `{clip}` substituted.
pub fn shell_command_for(template: &str, clipboard: &str) -> (r: String)
    ensures
        r@ == spec_substitute(template@, "{clip}"@, clipboard@),
{
    proof {
        reveal_strlit("{clip}");
    }
    substitute(template, "{clip}", clipboard)
}

/// The built-in universal actions: downloading a video from a link,
/// saving the clipboard to the desktop, and opening a copied path in an
/// editor.
pub fn get_internal_actions() -> (r: Vec<UniversalAction>)
    ensures
        r@.len() == 3,
        r@[0].name@ == "Download Youtube Video"@,
        r@[0].name_lowercase@ == "download video youtube"@,
        r@[0].category == InputCategory::Url,
        (r@[0].target matches ActionTarget::Shell(c) && c@
            == "kitty -- zsh -c \"yt-dlp '{clip}'\""@),
        r@[0].validator == Some(Validator::Youtube),
        r@[1].name@ == "Save to Desktop"@,
        r@[1].name_lowercase@ == "save to desktop"@,
        r@[1].category == InputCategory::All,
        r@[1].target == ActionTarget::Internal(InternalOp::SaveToDesktop),
        r@[1].validator is None,
        r@[2].name@ == "Open path with neovim"@,
        r@[2].name_lowercase@ == "open path with neovim"@,
        r@[2].category == InputCategory::All,
        (r@[2].target matches ActionTarget::Shell(c) && c@
            == "kitty -- zsh -c \"nvim $(wl-paste | tr -d '\\n')\""@),
        r@[2].validator is None,
{
    let mut out: Vec<UniversalAction> = Vec::new();
    out.push(UniversalAction {
        name: String::from_str("Download Youtube Video"),
        name_lowercase: String::from_str("download video youtube"),
        category: InputCategory::Url,
        target: ActionTarget::Shell(String::from_str("kitty -- zsh -c \"yt-dlp '{clip}'\"")),
        validator: Some(Validator::Youtube),
    });
    out.push(UniversalAction {
        name: String::from_str("Save to Desktop"),
        name_lowercase: String::from_str("save to desktop"),
        category: InputCategory::All,
        target: ActionTarget::Internal(InternalOp::SaveToDesktop),
        validator: None,
    });
    out.push(UniversalAction {
        name: String::from_str("Open path with neovim"),
        name_lowercase: String::from_str("open path with neovim"),
        category: InputCategory::All,
        target: ActionTarget::Shell(
            String::from_str("kitty -- zsh -c \"nvim $(wl-paste | tr -d '\\n')\""),
        ),
        validator: None,
    });
    out
}

} // verus!
