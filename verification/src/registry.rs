//! The provider registry: resolving provider identifiers to loadable module
//! paths on a search path, and the loaded providers with their metadata.
//!
//! The filesystem enters this module only as a plain value: the list of
//! paths known to exist.  The caller checks existence and loads modules;
//! everything decided here — which candidate wins, which index a name maps
//! to, what re-initialization does — is verified.

use vstd::prelude::*;
use crate::protocol::{ProviderInfo, ProviderInfoV};
use crate::text;

verus! {

/// A path is absolute when it starts with the path separator.
pub open spec fn spec_is_absolute(p: Seq<char>) -> bool {
    p.len() > 0 && p[0] == '/'
}

/// Joining a file name onto a directory, the way paths are pushed:
/// an absolute name replaces the directory; otherwise a separator is
/// inserted unless the directory is empty or already ends with one.
pub open spec fn spec_join(dir: Seq<char>, name: Seq<char>) -> Seq<char> {
    if spec_is_absolute(name) {
        name
    } else if dir.len() == 0 {
        name
    } else if dir[dir.len() - 1] == '/' {
        dir + name
    } else {
        dir + seq!['/'] + name
    }
}

/// The platform library file name for a provider identifier:
/// `lib` + the identifier with `-` turned into `_` + `.so`.
pub open spec fn spec_lib_name(name: Seq<char>) -> Seq<char> {
    seq!['l', 'i', 'b'] + text::spec_replace_char(name, '-', '_') + seq!['.', 's', 'o']
}

/// Whether the filesystem model says this path exists.
pub open spec fn spec_path_exists(fs: Seq<Seq<char>>, p: Seq<char>) -> bool {
    fs.contains(p)
}

/// Resolution against the search directories alone: in each directory, in
/// the given order, first the literal join, then the library-name transform;
/// the first existing candidate wins.
pub open spec fn spec_resolve_in_dirs(
    name: Seq<char>,
    dirs: Seq<Seq<char>>,
    fs: Seq<Seq<char>>,
) -> Option<Seq<char>>
    decreases dirs.len(),
{
    if dirs.len() == 0 {
        None
    } else {
        let literal = spec_join(dirs[0], name);
        let libname = spec_join(dirs[0], spec_lib_name(name));
        if spec_path_exists(fs, literal) {
            Some(literal)
        } else if spec_path_exists(fs, libname) {
            Some(libname)
        } else {
            spec_resolve_in_dirs(name, dirs.skip(1), fs)
        }
    }
}

/// Full resolution of a provider identifier: an absolute existing path is
/// used verbatim; otherwise the search directories decide.
pub open spec fn spec_resolve(
    name: Seq<char>,
    dirs: Seq<Seq<char>>,
    fs: Seq<Seq<char>>,
) -> Option<Seq<char>> {
    if spec_is_absolute(name) && spec_path_exists(fs, name) {
        Some(name)
    } else {
        spec_resolve_in_dirs(name, dirs, fs)
    }
}

/// The view of a list of strings.
pub open spec fn view_strings(v: Seq<String>) -> Seq<Seq<char>> {
    v.map_values(|s: String| s@)
}

/// Whether `p` is among the paths of `existing`.
fn path_exists(existing: &Vec<String>, p: &String) -> (r: bool)
    ensures
        r == spec_path_exists(view_strings(existing@), p@),
{
    let n = existing.len();
    let mut i: usize = 0;
    while i < n
        invariant
            0 <= i <= n,
            n == existing@.len(),
            forall|k: int| 0 <= k < i ==> view_strings(existing@)[k] != p@,
        decreases n - i,
    {
        if existing[i].eq(p) {
            assert(view_strings(existing@)[i as int] == p@);
            return true;
        }
        i = i + 1;
    }
    assert(forall|k: int| 0 <= k < existing@.len()
        ==> view_strings(existing@)[k] != p@);
    false
}

/// Whether the path in `p` is absolute.
fn is_absolute(p: &String) -> (r: bool)
    ensures
        r == spec_is_absolute(p@),
{
    let s = p.as_str();
    if s.unicode_len() == 0 {
        false
    } else {
        s.get_char(0) == '/'
    }
}

/// Joins a file name onto a directory as `spec_join` describes.
pub fn join_path(dir: &String, name: &String) -> (r: String)
    ensures
        r@ == spec_join(dir@, name@),
{
    if is_absolute(name) {
        name.clone()
    } else if dir.as_str().unicode_len() == 0 {
        name.clone()
    } else if dir.as_str().get_char(dir.as_str().unicode_len() - 1) == '/' {
        text::concat_str(dir.as_str(), name.as_str())
    } else {
        let mut out = text::concat_str(dir.as_str(), "/");
        out.append(name.as_str());
        proof {
            reveal_strlit("/");
            assert("/"@ =~= seq!['/']);
            assert(out@ =~= dir@ + seq!['/'] + name@);
        }
        out
    }
}

/// The library file name for a provider identifier, as `spec_lib_name`
/// describes.
fn lib_name(name: &String) -> (r: String)
    ensures
        r@ == spec_lib_name(name@),
{
    let body = text::replace_char(name.as_str(), '-', '_');
    let mut out = text::concat_str("lib", body.as_str());
    out.append(".so");
    proof {
        reveal_strlit("lib");
        reveal_strlit(".so");
        assert(out@ =~= spec_lib_name(name@));
    }
    out
}

/// Resolves a provider identifier to the path of its loadable module.
///
/// `existing` is the filesystem model: the paths that exist.  An absolute
/// existing identifier is returned verbatim; otherwise each search
/// directory is tried in order, the literal join before the library-name
/// transform, and the first existing candidate wins.  `None` means the
/// provider cannot be found and is to be skipped.
pub fn find_plugin(name: &String, dirs: &Vec<String>, existing: &Vec<String>) -> (r: Option<
    String,
>)
    ensures
        (match r {
            Some(p) => spec_resolve(name@, view_strings(dirs@), view_strings(existing@))
                == Some(p@),
            None => spec_resolve(name@, view_strings(dirs@), view_strings(existing@)) is None,
        }),
{
    if is_absolute(name) && path_exists(existing, name) {
        return Some(name.clone());
    }
    let transformed = lib_name(name);
    let n = dirs.len();
    proof {
        assert(view_strings(dirs@).skip(0) =~= view_strings(dirs@));
    }
    let mut i: usize = 0;
    while i < n
        invariant
            0 <= i <= n,
            n == dirs@.len(),
            transformed@ == spec_lib_name(name@),
            spec_resolve_in_dirs(name@, view_strings(dirs@), view_strings(existing@))
                == spec_resolve_in_dirs(
                    name@,
                    view_strings(dirs@).skip(i as int),
                    view_strings(existing@),
                ),
        decreases n - i,
    {
        let literal = join_path(&dirs[i], name);
        if path_exists(existing, &literal) {
            proof {
                lemma_resolve_in_dirs_unfold(name@, view_strings(dirs@), view_strings(existing@), i as int);
            }
            return Some(literal);
        }
        let libjoin = join_path(&dirs[i], &transformed);
        if path_exists(existing, &libjoin) {
            proof {
                lemma_resolve_in_dirs_unfold(name@, view_strings(dirs@), view_strings(existing@), i as int);
            }
            return Some(libjoin);
        }
        proof {
            lemma_resolve_in_dirs_unfold(name@, view_strings(dirs@), view_strings(existing@), i as int);
        }
        i = i + 1;
    }
    proof {
        assert(view_strings(dirs@).skip(n as int).len() == 0);
    }
    None
}

/// Every path that `find_plugin` may consult for this identifier: the
/// identifier itself, then per search directory the literal join and the
/// library-name join.  The caller checks which of these exist and hands
/// the existing ones back as the filesystem model.
pub fn candidate_paths(name: &String, dirs: &Vec<String>) -> (r: Vec<String>)
    ensures
        r@.len() == 1 + 2 * dirs@.len(),
        r@[0]@ == name@,
        forall|i: int| 0 <= i < dirs@.len() ==> #[trigger] r@[1 + 2 * i]@ == spec_join(
            dirs@[i]@,
            name@,
        ),
        forall|i: int| 0 <= i < dirs@.len() ==> #[trigger] r@[2 + 2 * i]@ == spec_join(
            dirs@[i]@,
            spec_lib_name(name@),
        ),
{
    let transformed = lib_name(name);
    let n = dirs.len();
    let mut out: Vec<String> = Vec::new();
    out.push(name.clone());
    let mut i: usize = 0;
    while i < n
        invariant
            0 <= i <= n,
            n == dirs@.len(),
            transformed@ == spec_lib_name(name@),
            out@.len() == 1 + 2 * i,
            out@[0]@ == name@,
            forall|k: int| 0 <= k < i ==> #[trigger] out@[1 + 2 * k]@ == spec_join(
                dirs@[k]@,
                name@,
            ),
            forall|k: int| 0 <= k < i ==> #[trigger] out@[2 + 2 * k]@ == spec_join(
                dirs@[k]@,
                spec_lib_name(name@),
            ),
        decreases n - i,
    {
        out.push(join_path(&dirs[i], name));
        out.push(join_path(&dirs[i], &transformed));
        i = i + 1;
    }
    out
}

/// Unfolds one step of `spec_resolve_in_dirs` at position `i`.
proof fn lemma_resolve_in_dirs_unfold(
    name: Seq<char>,
    dirs: Seq<Seq<char>>,
    fs: Seq<Seq<char>>,
    i: int,
)
    requires
        0 <= i < dirs.len(),
    ensures
        spec_resolve_in_dirs(name, dirs.skip(i), fs) == {
            let literal = spec_join(dirs[i], name);
            let libname = spec_join(dirs[i], spec_lib_name(name));
            if spec_path_exists(fs, literal) {
                Some(literal)
            } else if spec_path_exists(fs, libname) {
                Some(libname)
            } else {
                spec_resolve_in_dirs(name, dirs.skip(i + 1), fs)
            }
        },
{
    assert(dirs.skip(i)[0] == dirs[i]);
    assert(dirs.skip(i).skip(1) =~= dirs.skip(i + 1));
}

/// The load-resolution precedence: if the identifier is not an absolute
/// existing path, and `i` is the first search directory holding either the
/// literal join or the library-name transform, that directory's candidate
/// wins, the literal join preferred.
pub proof fn lemma_resolution_precedence(
    name: Seq<char>,
    dirs: Seq<Seq<char>>,
    fs: Seq<Seq<char>>,
    i: int,
)
    requires
        0 <= i < dirs.len(),
        !(spec_is_absolute(name) && spec_path_exists(fs, name)),
        forall|j: int| 0 <= j < i ==> !spec_path_exists(fs, #[trigger] spec_join(dirs[j], name))
            && !spec_path_exists(fs, spec_join(dirs[j], spec_lib_name(name))),
        spec_path_exists(fs, spec_join(dirs[i], name)) || spec_path_exists(
            fs,
            spec_join(dirs[i], spec_lib_name(name)),
        ),
    ensures
        spec_resolve(name, dirs, fs) == Some(
            if spec_path_exists(fs, spec_join(dirs[i], name)) {
                spec_join(dirs[i], name)
            } else {
                spec_join(dirs[i], spec_lib_name(name))
            },
        ),
    decreases i,
{
    if i == 0 {
        lemma_resolve_in_dirs_unfold(name, dirs, fs, 0);
        assert(dirs.skip(0) =~= dirs);
    } else {
        lemma_resolve_in_dirs_unfold(name, dirs, fs, 0);
        assert(dirs.skip(0) =~= dirs);
        lemma_resolution_precedence(name, dirs.skip(1), fs, i - 1);
        assert(dirs.skip(1)[i - 1] == dirs[i]);
        assert(forall|j: int| 0 <= j < i - 1 ==> dirs.skip(1)[j] == dirs[j + 1]);
    }
}

/// An absolute identifier that exists is used verbatim, whatever the
/// search directories hold.
pub proof fn lemma_absolute_resolves_verbatim(
    name: Seq<char>,
    dirs: Seq<Seq<char>>,
    fs: Seq<Seq<char>>,
)
    requires
        spec_is_absolute(name),
        spec_path_exists(fs, name),
    ensures
        spec_resolve(name, dirs, fs) == Some(name),
{
}

/// The first of the candidate directories that exists, if any.
pub open spec fn spec_first_existing(
    candidates: Seq<Seq<char>>,
    fs: Seq<Seq<char>>,
) -> Option<Seq<char>>
    decreases candidates.len(),
{
    if candidates.len() == 0 {
        None
    } else if fs.contains(candidates[0]) {
        Some(candidates[0])
    } else {
        spec_first_existing(candidates.skip(1), fs)
    }
}

/// The configuration directory the broker starts with: an explicit
/// choice wins; otherwise the user's own directory when it exists;
/// otherwise the first existing default, or the first default outright.
pub open spec fn spec_choose_config_dir(
    cli: Option<Seq<char>>,
    user_dir: Seq<char>,
    user_dir_exists: bool,
    candidates: Seq<Seq<char>>,
    fs: Seq<Seq<char>>,
) -> Seq<char> {
    match cli {
        Some(d) => d,
        None => if user_dir_exists {
            user_dir
        } else {
            match spec_first_existing(candidates, fs) {
                Some(d) => d,
                None => candidates[0],
            }
        },
    }
}

/// Chooses the configuration directory, as `spec_choose_config_dir`
/// describes.  `existing` is the filesystem model again: the candidate
/// paths that exist.
pub fn choose_config_dir(
    cli: Option<String>,
    user_dir: String,
    user_dir_exists: bool,
    candidates: &Vec<String>,
    existing: &Vec<String>,
) -> (r: String)
    requires
        candidates@.len() > 0,
    ensures
        r@ == spec_choose_config_dir(
            crate::protocol::view_opt_string(cli),
            user_dir@,
            user_dir_exists,
            view_strings(candidates@),
            view_strings(existing@),
        ),
{
    match cli {
        Some(d) => d,
        None => {
            if user_dir_exists {
                user_dir
            } else {
                let n = candidates.len();
                proof {
                    assert(view_strings(candidates@).skip(0) =~= view_strings(candidates@));
                }
                let mut i: usize = 0;
                while i < n
                    invariant
                        0 <= i <= n,
                        n == candidates@.len(),
                        cli is None,
                        !user_dir_exists,
                        spec_first_existing(view_strings(candidates@), view_strings(existing@))
                            == spec_first_existing(
                            view_strings(candidates@).skip(i as int),
                            view_strings(existing@),
                        ),
                    decreases n - i,
                {
                    if path_exists(existing, &candidates[i]) {
                        proof {
                            let cs = view_strings(candidates@);
                            assert(cs.skip(i as int)[0] == cs[i as int]);
                        }
                        return candidates[i].clone();
                    }
                    proof {
                        let cs = view_strings(candidates@);
                        assert(cs.skip(i as int)[0] == cs[i as int]);
                        assert(cs.skip(i as int).skip(1) =~= cs.skip(i + 1));
                    }
                    i = i + 1;
                }
                proof {
                    assert(view_strings(candidates@).skip(n as int).len() == 0);
                }
                candidates[0].clone()
            }
        },
    }
}

/// One loaded provider: its reported metadata, and the configuration
/// directory it was last initialized with.  The latter models the
/// provider-visible effect of the initialize operation, which overwrites
/// rather than accumulates.
pub struct ProviderSlot {
    pub info: ProviderInfo,
    pub last_init: Option<String>,
}

/// Mathematical image of a `ProviderSlot`.
#[verifier::ext_equal]
pub struct ProviderSlotV {
    pub info: ProviderInfoV,
    pub last_init: Option<Seq<char>>,
}

impl View for ProviderSlot {
    type V = ProviderSlotV;

    open spec fn view(&self) -> ProviderSlotV {
        ProviderSlotV {
            info: self.info@,
            last_init: crate::protocol::view_opt_string(self.last_init),
        }
    }
}

/// The registry of loaded providers, in load order, with the shared
/// configuration directory handed to every initialize call.
pub struct Registry {
    pub providers: Vec<ProviderSlot>,
    pub config_dir: String,
}

/// Mathematical image of a `Registry`.
#[verifier::ext_equal]
pub struct RegistryV {
    pub slots: Seq<ProviderSlotV>,
    pub config_dir: Seq<char>,
}

impl View for Registry {
    type V = RegistryV;

    open spec fn view(&self) -> RegistryV {
        RegistryV {
            slots: self.providers@.map_values(|s: ProviderSlot| s@),
            config_dir: self.config_dir@,
        }
    }
}

/// The index the name resolves to: the last registered provider with that
/// name, names registered later shadowing earlier ones.
pub open spec fn spec_lookup(slots: Seq<ProviderSlotV>, name: Seq<char>) -> Option<int>
    decreases slots.len(),
{
    if slots.len() == 0 {
        None
    } else if slots[slots.len() - 1].info.name == name {
        Some(slots.len() - 1)
    } else {
        spec_lookup(slots.drop_last(), name)
    }
}

impl Registry {
    /// An empty registry for the given configuration directory.
    pub fn new(config_dir: String) -> (r: Registry)
        ensures
            r@.slots.len() == 0,
            r@.config_dir == config_dir@,
    {
        Registry { providers: Vec::new(), config_dir }
    }

    /// The number of loaded providers.
    pub fn len(&self) -> (n: usize)
        ensures
            n == self@.slots.len(),
    {
        self.providers.len()
    }

    /// Registers a provider that was just loaded and initialized with the
    /// registry's configuration directory.  It takes the next index.
    pub fn register(&mut self, info: ProviderInfo)
        ensures
            final(self)@.slots == old(self)@.slots.push(ProviderSlotV {
                info: info@,
                last_init: Some(old(self)@.config_dir),
            }),
            final(self)@.config_dir == old(self)@.config_dir,
    {
        let ghost info_v = info@;
        let dir = self.config_dir.clone();
        self.providers.push(ProviderSlot { info, last_init: Some(dir) });
        proof {
            assert(self@.slots =~= old(self)@.slots.push(ProviderSlotV {
                info: info_v,
                last_init: Some(old(self)@.config_dir),
            }));
        }
    }

    /// Looks a provider up by name: the index of the last registered
    /// provider with that name, or `None` when the name is unknown.
    pub fn lookup(&self, name: &String) -> (r: Option<usize>)
        ensures
            (match r {
                Some(i) => spec_lookup(self@.slots, name@) == Some(i as int),
                None => spec_lookup(self@.slots, name@) is None,
            }),
    {
        let n = self.providers.len();
        proof {
            assert(self@.slots.subrange(0, n as int) =~= self@.slots);
        }
        let mut i: usize = n;
        while i > 0
            invariant
                0 <= i <= n,
                n == self@.slots.len(),
                spec_lookup(self@.slots, name@) == spec_lookup(
                    self@.slots.subrange(0, i as int),
                    name@,
                ),
            decreases i,
        {
            i = i - 1;
            if self.providers[i].info.name.eq(name) {
                proof {
                    assert(self@.slots.subrange(0, i + 1).last() == self@.slots[i as int]);
                    assert(self@.slots[i as int].info.name == name@);
                }
                return Some(i);
            }
            proof {
                assert(self@.slots.subrange(0, i + 1).last() == self@.slots[i as int]);
                assert(self@.slots.subrange(0, i + 1).drop_last() =~= self@.slots.subrange(
                    0,
                    i as int,
                ));
            }
        }
        proof {
            assert(self@.slots.subrange(0, 0).len() == 0);
        }
        None
    }

    /// Re-initializes every provider in place with the shared configuration
    /// directory.  Indices and metadata do not change; each provider's
    /// state is overwritten, so repeating the call changes nothing more.
    pub fn initialize_all(&mut self)
        ensures
            final(self)@ == spec_initialize_all(old(self)@),
    {
        let dir = self.config_dir.clone();
        let n = self.providers.len();
        let mut i: usize = 0;
        while i < n
            invariant
                0 <= i <= n,
                n == self.providers@.len(),
                self.config_dir@ == old(self)@.config_dir,
                dir@ == old(self)@.config_dir,
                self.providers@.len() == old(self)@.slots.len(),
                forall|k: int| 0 <= k < i ==> #[trigger] self.providers@[k]@
                    == (ProviderSlotV {
                        info: old(self)@.slots[k].info,
                        last_init: Some(old(self)@.config_dir),
                    }),
                forall|k: int| i <= k < n ==> #[trigger] self.providers@[k]@
                    == old(self)@.slots[k],
            decreases n - i,
        {
            let info = self.providers[i].info.clone();
            proof {
                assert(info@ == self.providers@[i as int]@.info);
            }
            self.providers.set(i, ProviderSlot { info, last_init: Some(dir.clone()) });
            proof {
                assert(self.providers@[i as int]@.info =~= old(self)@.slots[i as int].info);
            }
            i = i + 1;
        }
        proof {
            assert(self@ =~= spec_initialize_all(old(self)@));
        }
    }
}

/// What re-initialization leaves behind: the same providers, each recorded
/// as initialized with the shared configuration directory.
pub open spec fn spec_initialize_all(r: RegistryV) -> RegistryV {
    RegistryV {
        slots: r.slots.map_values(|s: ProviderSlotV| ProviderSlotV {
            info: s.info,
            last_init: Some(r.config_dir),
        }),
        config_dir: r.config_dir,
    }
}

/// Re-initialization is idempotent: doing it twice leaves exactly the
/// state one call leaves.
pub proof fn lemma_initialize_all_idempotent(r: RegistryV)
    ensures
        spec_initialize_all(spec_initialize_all(r)) == spec_initialize_all(r),
{
    assert(spec_initialize_all(spec_initialize_all(r)) =~= spec_initialize_all(r));
}

} // verus!
