//! System icon names: the fixed vocabulary of icons providers refer to,
//! the mapping from file extensions to icons, and the pure part of
//! resolving a favicon path for a search-engine entry.

use vstd::prelude::*;
use vstd::string::StrSliceExecFns;
use vstd::string::StringExecFns;
use crate::text;

verus! {

/// An icon a result entry can carry: a fixed set of well-known names,
/// or a custom icon name.
#[derive(Debug, Clone, PartialEq, Eq)]
pub enum SystemIcon {
    Settings,
    UserPassword,
    NetworkStatus,
    Battery,
    Bluetooth,
    Display,
    Sound,
    GoHome,
    GoBack,
    GoNext,
    Menu,
    DocumentSave,
    EditCopy,
    EditPaste,
    EditCut,
    EditDelete,
    ViewRefresh,
    Search,
    ZoomIn,
    ZoomOut,
    MailSend,
    Calculator,
    WebBrowser,
    Dictionary,
    Terminal,
    SystemRun,
    Symbol,
    Language,
    Monitor,
    Url,
    FileText,
    FileImage,
    FileVideo,
    FileAudio,
    FileArchive,
    FileCode,
    FilePdf,
    FileExcel,
    FileWord,
    FilePowerpoint,
    Folder,
    FolderRemote,
    Rust,
    JavaScript,
    TypeScript,
    Python,
    C,
    Cpp,
    Go,
    PHP,
    Lua,
    Shell,
    Nix,
    Json,
    Yaml,
    Toml,
    Html,
    Css,
    Obsidian,
    Rclone,
    Config,
    Firefox,
    Custom(String),
}

impl Default for SystemIcon {
    /// The default icon is the generic text file.
    fn default() -> (r: SystemIcon)
        ensures
            r == SystemIcon::FileText,
    {
        SystemIcon::FileText
    }
}

/// The freedesktop icon name each icon renders as.  A custom icon falls
/// back to the generic text icon here; its own name travels separately.
pub open spec fn spec_icon_name(i: SystemIcon) -> Seq<char> {
    match i {
        SystemIcon::Settings => "preferences-system"@,
        SystemIcon::UserPassword => "preferences-desktop-user-password"@,
        SystemIcon::NetworkStatus => "network-workgroup"@,
        SystemIcon::Battery => "battery-good"@,
        SystemIcon::Bluetooth => "bluetooth"@,
        SystemIcon::Display => "video-display"@,
        SystemIcon::Sound => "audio-speakers"@,
        SystemIcon::GoHome => "go-home"@,
        SystemIcon::GoBack => "go-previous"@,
        SystemIcon::GoNext => "go-next"@,
        SystemIcon::Menu => "open-menu"@,
        SystemIcon::DocumentSave => "document-save"@,
        SystemIcon::EditCopy => "edit-copy"@,
        SystemIcon::EditPaste => "edit-paste"@,
        SystemIcon::EditCut => "edit-cut"@,
        SystemIcon::EditDelete => "edit-delete"@,
        SystemIcon::ViewRefresh => "view-refresh"@,
        SystemIcon::Search => "system-search"@,
        SystemIcon::ZoomIn => "zoom-in"@,
        SystemIcon::ZoomOut => "zoom-out"@,
        SystemIcon::MailSend => "mail-send"@,
        SystemIcon::Calculator => "accessories-calculator"@,
        SystemIcon::WebBrowser => "internet-web-browser"@,
        SystemIcon::Dictionary => "accessories-dictionary"@,
        SystemIcon::Terminal => "utilities-terminal"@,
        SystemIcon::SystemRun => "system-run"@,
        SystemIcon::Symbol => "character-set"@,
        SystemIcon::Language => "preferences-desktop-locale"@,
        SystemIcon::Monitor => "preferences-desktop-display"@,
        SystemIcon::Url => "text-html"@,
        SystemIcon::FileText => "text-x-generic"@,
        SystemIcon::FileImage => "image-x-generic"@,
        SystemIcon::FileVideo => "video-x-generic"@,
        SystemIcon::FileAudio => "audio-x-generic"@,
        SystemIcon::FileArchive => "package-x-generic"@,
        SystemIcon::FileCode => "text-x-script"@,
        SystemIcon::FilePdf => "application-pdf"@,
        SystemIcon::FileExcel => "x-office-spreadsheet"@,
        SystemIcon::FileWord => "x-office-document"@,
        SystemIcon::FilePowerpoint => "x-office-presentation"@,
        SystemIcon::Folder => "folder"@,
        SystemIcon::FolderRemote => "folder-remote"@,
        SystemIcon::Rust => "text-rust"@,
        SystemIcon::JavaScript => "text-javascript"@,
        SystemIcon::TypeScript => "text-typescript"@,
        SystemIcon::Python => "text-x-python"@,
        SystemIcon::C => "text-x-csrc"@,
        SystemIcon::Cpp => "text-x-c++src"@,
        SystemIcon::Go => "text-x-go"@,
        SystemIcon::PHP => "application-x-php"@,
        SystemIcon::Lua => "text-x-lua"@,
        SystemIcon::Shell => "text-x-shellscript"@,
        SystemIcon::Nix => "text-x-nix"@,
        SystemIcon::Json => "application-json"@,
        SystemIcon::Yaml => "text-x-yaml"@,
        SystemIcon::Toml => "text-x-toml"@,
        SystemIcon::Html => "text-html"@,
        SystemIcon::Css => "text-css"@,
        SystemIcon::Obsidian => "obsidian"@,
        SystemIcon::Rclone => "rclone-browser"@,
        SystemIcon::Config => "system-config-display"@,
        SystemIcon::Firefox => "firefox"@,
        SystemIcon::Custom(_) => "text-x-generic"@,
    }
}

/// What str::to_lowercase yields: a function of the characters alone.
pub uninterp spec fn lower_of(s: Seq<char>) -> Seq<char>;

/// Relies on str::to_lowercase: the text with every character lowercased.
#[verifier::external_body]
fn lowercase(s: &str) -> (r: String)
    ensures
        r@ == lower_of(s@),
{
    s.to_lowercase()
}

/// The icon a lowercased file extension maps to: source and document
/// types by name, anything unknown to the folder icon.
pub open spec fn spec_from_ext(l: Seq<char>) -> SystemIcon {
    if l == "rs"@ {
        SystemIcon::Rust
    } else if l == "js"@ {
        SystemIcon::JavaScript
    } else if l == "ts"@ {
        SystemIcon::TypeScript
    } else if l == "py"@ {
        SystemIcon::Python
    } else if l == "c"@ || l == "h"@ {
        SystemIcon::C
    } else if l == "cpp"@ || l == "hpp"@ || l == "cc"@ {
        SystemIcon::Cpp
    } else if l == "go"@ {
        SystemIcon::Go
    } else if l == "php"@ {
        SystemIcon::PHP
    } else if l == "lua"@ {
        SystemIcon::Lua
    } else if l == "sh"@ || l == "bash"@ || l == "zsh"@ {
        SystemIcon::Shell
    } else if l == "nix"@ {
        SystemIcon::Nix
    } else if l == "pdf"@ {
        SystemIcon::FilePdf
    } else if l == "doc"@ || l == "docx"@ || l == "odt"@ {
        SystemIcon::FileWord
    } else if l == "xls"@ || l == "xlsx"@ || l == "csv"@ || l == "ods"@ {
        SystemIcon::FileExcel
    } else if l == "ppt"@ || l == "pptx"@ || l == "odp"@ {
        SystemIcon::FilePowerpoint
    } else if l == "png"@ || l == "jpg"@ || l == "jpeg"@ || l == "svg"@ || l == "webp"@ || l
        == "ico"@ {
        SystemIcon::FileImage
    } else if l == "mp4"@ || l == "mkv"@ || l == "avi"@ || l == "mov"@ || l == "webm"@ {
        SystemIcon::FileVideo
    } else if l == "mp3"@ || l == "flac"@ || l == "wav"@ || l == "ogg"@ || l == "m4a"@ {
        SystemIcon::FileAudio
    } else if l == "zip"@ || l == "tar"@ || l == "gz"@ || l == "7z"@ || l == "rar"@ || l
        == "xz"@ {
        SystemIcon::FileArchive
    } else {
        SystemIcon::Folder
    }
}

impl SystemIcon {
    /// The freedesktop icon name this icon renders as.
    pub fn as_str(&self) -> (r: &str)
        ensures
            r@ == spec_icon_name(*self),
    {
        match self {
            SystemIcon::Settings => "preferences-system",
            SystemIcon::UserPassword => "preferences-desktop-user-password",
            SystemIcon::NetworkStatus => "network-workgroup",
            SystemIcon::Battery => "battery-good",
            SystemIcon::Bluetooth => "bluetooth",
            SystemIcon::Display => "video-display",
            SystemIcon::Sound => "audio-speakers",
            SystemIcon::GoHome => "go-home",
            SystemIcon::GoBack => "go-previous",
            SystemIcon::GoNext => "go-next",
            SystemIcon::Menu => "open-menu",
            SystemIcon::DocumentSave => "document-save",
            SystemIcon::EditCopy => "edit-copy",
            SystemIcon::EditPaste => "edit-paste",
            SystemIcon::EditCut => "edit-cut",
            SystemIcon::EditDelete => "edit-delete",
            SystemIcon::ViewRefresh => "view-refresh",
            SystemIcon::Search => "system-search",
            SystemIcon::ZoomIn => "zoom-in",
            SystemIcon::ZoomOut => "zoom-out",
            SystemIcon::MailSend => "mail-send",
            SystemIcon::Calculator => "accessories-calculator",
            SystemIcon::WebBrowser => "internet-web-browser",
            SystemIcon::Dictionary => "accessories-dictionary",
            SystemIcon::Terminal => "utilities-terminal",
            SystemIcon::SystemRun => "system-run",
            SystemIcon::Symbol => "character-set",
            SystemIcon::Language => "preferences-desktop-locale",
            SystemIcon::Monitor => "preferences-desktop-display",
            SystemIcon::Url => "text-html",
            SystemIcon::FileText => "text-x-generic",
            SystemIcon::FileImage => "image-x-generic",
            SystemIcon::FileVideo => "video-x-generic",
            SystemIcon::FileAudio => "audio-x-generic",
            SystemIcon::FileArchive => "package-x-generic",
            SystemIcon::FileCode => "text-x-script",
            SystemIcon::FilePdf => "application-pdf",
            SystemIcon::FileExcel => "x-office-spreadsheet",
            SystemIcon::FileWord => "x-office-document",
            SystemIcon::FilePowerpoint => "x-office-presentation",
            SystemIcon::Folder => "folder",
            SystemIcon::FolderRemote => "folder-remote",
            SystemIcon::Rust => "text-rust",
            SystemIcon::JavaScript => "text-javascript",
            SystemIcon::TypeScript => "text-typescript",
            SystemIcon::Python => "text-x-python",
            SystemIcon::C => "text-x-csrc",
            SystemIcon::Cpp => "text-x-c++src",
            SystemIcon::Go => "text-x-go",
            SystemIcon::PHP => "application-x-php",
            SystemIcon::Lua => "text-x-lua",
            SystemIcon::Shell => "text-x-shellscript",
            SystemIcon::Nix => "text-x-nix",
            SystemIcon::Json => "application-json",
            SystemIcon::Yaml => "text-x-yaml",
            SystemIcon::Toml => "text-x-toml",
            SystemIcon::Html => "text-html",
            SystemIcon::Css => "text-css",
            SystemIcon::Obsidian => "obsidian",
            SystemIcon::Rclone => "rclone-browser",
            SystemIcon::Config => "system-config-display",
            SystemIcon::Firefox => "firefox",
            _ => "text-x-generic",
        }
    }

    /// A custom icon under the given name.
    pub fn custom(name: String) -> (r: SystemIcon)
        ensures
            r == SystemIcon::Custom(name),
    {
        SystemIcon::Custom(name)
    }

    /// The icon for a file extension, compared case-insensitively.
    pub fn from_ext(ext: &str) -> (r: SystemIcon)
        ensures
            r == spec_from_ext(lower_of(ext@)),
    {
        let low = lowercase(ext);
        let l = low.as_str();
        if text::str_equal(l, "rs") {
            SystemIcon::Rust
        } else if text::str_equal(l, "js") {
            SystemIcon::JavaScript
        } else if text::str_equal(l, "ts") {
            SystemIcon::TypeScript
        } else if text::str_equal(l, "py") {
            SystemIcon::Python
        } else if text::str_equal(l, "c") || text::str_equal(l, "h") {
            SystemIcon::C
        } else if text::str_equal(l, "cpp") || text::str_equal(l, "hpp") || text::str_equal(
            l,
            "cc",
        ) {
            SystemIcon::Cpp
        } else if text::str_equal(l, "go") {
            SystemIcon::Go
        } else if text::str_equal(l, "php") {
            SystemIcon::PHP
        } else if text::str_equal(l, "lua") {
            SystemIcon::Lua
        } else if text::str_equal(l, "sh") || text::str_equal(l, "bash") || text::str_equal(
            l,
            "zsh",
        ) {
            SystemIcon::Shell
        } else if text::str_equal(l, "nix") {
            SystemIcon::Nix
        } else if text::str_equal(l, "pdf") {
            SystemIcon::FilePdf
        } else if text::str_equal(l, "doc") || text::str_equal(l, "docx") || text::str_equal(
            l,
            "odt",
        ) {
            SystemIcon::FileWord
        } else if text::str_equal(l, "xls") || text::str_equal(l, "xlsx") || text::str_equal(
            l,
            "csv",
        ) || text::str_equal(l, "ods") {
            SystemIcon::FileExcel
        } else if text::str_equal(l, "ppt") || text::str_equal(l, "pptx") || text::str_equal(
            l,
            "odp",
        ) {
            SystemIcon::FilePowerpoint
        } else if text::str_equal(l, "png") || text::str_equal(l, "jpg") || text::str_equal(
            l,
            "jpeg",
        ) || text::str_equal(l, "svg") || text::str_equal(l, "webp") || text::str_equal(
            l,
            "ico",
        ) {
            SystemIcon::FileImage
        } else if text::str_equal(l, "mp4") || text::str_equal(l, "mkv") || text::str_equal(
            l,
            "avi",
        ) || text::str_equal(l, "mov") || text::str_equal(l, "webm") {
            SystemIcon::FileVideo
        } else if text::str_equal(l, "mp3") || text::str_equal(l, "flac") || text::str_equal(
            l,
            "wav",
        ) || text::str_equal(l, "ogg") || text::str_equal(l, "m4a") {
            SystemIcon::FileAudio
        } else if text::str_equal(l, "zip") || text::str_equal(l, "tar") || text::str_equal(
            l,
            "gz",
        ) || text::str_equal(l, "7z") || text::str_equal(l, "rar") || text::str_equal(
            l,
            "xz",
        ) {
            SystemIcon::FileArchive
        } else {
            SystemIcon::Folder
        }
    }
}

/// The text with every leading repetition of the prefix removed.
pub open spec fn spec_strip_all_prefix(s: Seq<char>, pre: Seq<char>) -> Seq<char>
    decreases s.len(),
{
    if pre.len() > 0 && text::spec_starts_with(s, pre) {
        spec_strip_all_prefix(s.skip(pre.len() as int), pre)
    } else {
        s
    }
}

/// The text up to its first slash.
pub open spec fn spec_up_to_slash(s: Seq<char>) -> Seq<char>
    decreases s.len(),
{
    if s.len() == 0 {
        s
    } else if s[0] == '/' {
        Seq::empty()
    } else {
        seq![s[0]] + spec_up_to_slash(s.skip(1))
    }
}

/// The host-like identifier of a search-engine entry: the text with any
/// repeated `https://` and then `http://` prefixes removed, up to the
/// first slash.
pub open spec fn spec_icon_identifier(s: Seq<char>) -> Seq<char> {
    spec_up_to_slash(spec_strip_all_prefix(spec_strip_all_prefix(s, "https://"@), "http://"@))
}

fn strip_all_prefix(s: &str, pre: &str) -> (r: String)
    requires
        pre@.len() > 0,
    ensures
        r@ == spec_strip_all_prefix(s@, pre@),
    decreases s@.len(),
{
    let n = s.unicode_len();
    if text::starts_with(s, pre) {
        let m = pre.unicode_len();
        let rest = s.substring_char(m, n);
        proof {
            assert(rest@ =~= s@.skip(pre@.len() as int));
        }
        strip_all_prefix(rest, pre)
    } else {
        String::from_str(s)
    }
}

fn up_to_slash(s: &str) -> (r: String)
    ensures
        r@ == spec_up_to_slash(s@),
{
    let n = s.unicode_len();
    let mut i: usize = 0;
    while i < n && s.get_char(i) != '/'
        invariant
            0 <= i <= n,
            n == s@.len(),
            forall|k: int| 0 <= k < i ==> s@[k] != '/',
        decreases n - i,
    {
        i = i + 1;
    }
    let part = s.substring_char(0, i);
    proof {
        lemma_up_to_slash_prefix(s@, i as int);
        assert(part@ =~= s@.subrange(0, i as int));
    }
    String::from_str(part)
}

/// When no slash stands before `i`, and `i` is the length or a slash,
/// the text up to the first slash is exactly the first `i` characters.
proof fn lemma_up_to_slash_prefix(s: Seq<char>, i: int)
    requires
        0 <= i <= s.len(),
        forall|k: int| 0 <= k < i ==> s[k] != '/',
        i == s.len() || s[i] == '/',
    ensures
        spec_up_to_slash(s) == s.subrange(0, i),
    decreases s.len(),
{
    if s.len() == 0 {
        assert(s.subrange(0, 0) =~= s);
    } else if s[0] == '/' {
        assert(s.subrange(0, 0) =~= Seq::<char>::empty());
    } else {
        lemma_up_to_slash_prefix(s.skip(1), i - 1);
        assert(s.skip(1).subrange(0, i - 1) =~= s.subrange(1, i));
        assert(seq![s[0]] + s.subrange(1, i) =~= s.subrange(0, i));
    }
}

/// The identifier a search-engine entry's icon is cached under: the text
/// without its scheme prefixes, up to the first slash.
pub fn icon_identifier(input: &str) -> (r: String)
    ensures
        r@ == spec_icon_identifier(input@),
{
    proof {
        reveal_strlit("https://");
        reveal_strlit("http://");
    }
    let a = strip_all_prefix(input, "https://");
    let b = strip_all_prefix(a.as_str(), "http://");
    up_to_slash(b.as_str())
}

/// Whether the text carries a scheme marker at all.
pub fn has_scheme_marker(input: &str) -> (r: bool)
    ensures
        r == text::spec_contains_sub(input@, "://"@),
{
    text::contains_sub(input, "://")
}

/// The path a favicon for this identifier is cached at, under the given
/// home directory.
pub fn favicon_cache_path(home: &str, identifier: &str) -> (r: String)
    ensures
        r@ == home@ + "/.config/anyrun/anyrun-favicons/"@ + identifier@ + ".png"@,
{
    let mut out = text::concat_str(home, "/.config/anyrun/anyrun-favicons/");
    out.append(identifier);
    out.append(".png");
    proof {
        assert(out@ =~= home@ + "/.config/anyrun/anyrun-favicons/"@ + identifier@ + ".png"@);
    }
    out
}

/// The address a favicon for this identifier is fetched from.
pub fn favicon_fetch_url(identifier: &str) -> (r: String)
    ensures
        r@ == "https://t3.gstatic.com/faviconV2?client=SOCIAL&type=FAVICON&fallback_opts=TYPE,SIZE,URL&url=https://"@
            + identifier@ + "&size=64"@,
{
    let mut out = text::concat_str(
        "https://t3.gstatic.com/faviconV2?client=SOCIAL&type=FAVICON&fallback_opts=TYPE,SIZE,URL&url=https://",
        identifier,
    );
    out.append("&size=64");
    out
}

/// Which icon a search-engine entry gets: the identifier itself when the
/// text has no scheme, the generic search icon without a home directory,
/// the cached favicon when it is on disk, and otherwise the generic
/// browser icon while a fetch is requested.
#[derive(Debug)]
pub enum IconDecision {
    /// Use this name directly; nothing to fetch.
    Name(String),
    /// Use the cached file at this path.
    CachedFile(String),
    /// Use the generic browser icon and fetch the favicon for later.
    FetchAndFallback(String),
}

/// Decides the icon for a search-engine entry from plain facts: the raw
/// text, the home directory if one is known, and whether the favicon is
/// already cached.  The caller checks the filesystem and performs the
/// fetch.
pub fn icon_path_decision(input: &str, home: &Option<String>, cached: bool) -> (r: IconDecision)
    ensures
        (match r {
            IconDecision::Name(s) => (!text::spec_contains_sub(input@, "://"@) && s@
                == spec_icon_identifier(input@)) || (text::spec_contains_sub(input@, "://"@)
                && home is None && s@ == "system-search"@),
            IconDecision::CachedFile(p) => text::spec_contains_sub(input@, "://"@) && cached
                && (home matches Some(h) && p@ == h@ + "/.config/anyrun/anyrun-favicons/"@
                + spec_icon_identifier(input@) + ".png"@),
            IconDecision::FetchAndFallback(u) => text::spec_contains_sub(input@, "://"@)
                && home is Some && !cached && u@
                == "https://t3.gstatic.com/faviconV2?client=SOCIAL&type=FAVICON&fallback_opts=TYPE,SIZE,URL&url=https://"@
                + spec_icon_identifier(input@) + "&size=64"@,
        }),
{
    let identifier = icon_identifier(input);
    if !has_scheme_marker(input) {
        return IconDecision::Name(identifier);
    }
    match home {
        None => IconDecision::Name(String::from_str("system-search")),
        Some(h) => {
            if cached {
                IconDecision::CachedFile(favicon_cache_path(h.as_str(), identifier.as_str()))
            } else {
                IconDecision::FetchAndFallback(favicon_fetch_url(identifier.as_str()))
            }
        },
    }
}

} // verus!
