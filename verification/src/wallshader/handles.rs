//! Entry, playlist and launch handles as given on the command line.
use vstd::prelude::*;
use crate::text::{
    chars_of, contains, contains_char, contains_str, has_prefix, has_suffix, join_msg, lit, starts_with_str,
    ends_with_str, string_of, strip_prefix, strip_prefix_str, trim, trim_chars, trimmed, wrap_msg,
};
use crate::fspath::{
    escapes_root, escapes_root_exec, is_absolute, join, path_exists, path_is_absolute,
    path_is_dir, path_is_file, path_join,
};
use crate::shadertoy::path::{expand, result_view, EnvView, PathIssue, PathResolver};
use crate::shadertoy::ShaderHandle;

verus! {

/// An entry shader: a raw path, a named local pack, or a Shadertoy id.
/// `S` is `String` at run time and `Seq<char>` in specs.
#[derive(Debug, Clone, PartialEq, Eq)]
pub enum EntryHandleOf<S> {
    RawPath(S),
    LocalPack { name: S },
    Shadertoy { id: S },
}

pub type EntryHandle = EntryHandleOf<String>;

/// A playlist: a raw path or a named playlist.
#[derive(Debug, Clone, PartialEq, Eq)]
pub enum PlaylistHandleOf<S> {
    RawPath(S),
    Named { name: S },
}

pub type PlaylistHandle = PlaylistHandleOf<String>;

#[derive(Debug, Clone, PartialEq, Eq)]
pub enum LaunchHandle {
    Entry(EntryHandle),
    Playlist(PlaylistHandle),
}

#[derive(Debug, Clone, PartialEq, Eq)]
pub struct PlaylistHandleArg(pub PlaylistHandle);

#[derive(Debug, Clone, PartialEq, Eq)]
pub struct LaunchHandleArg(pub LaunchHandle);

impl View for EntryHandleOf<String> {
    type V = EntryHandleOf<Seq<char>>;

    open spec fn view(&self) -> EntryHandleOf<Seq<char>> {
        match self {
            EntryHandleOf::RawPath(p) => EntryHandleOf::RawPath(p@),
            EntryHandleOf::LocalPack { name } => EntryHandleOf::LocalPack { name: name@ },
            EntryHandleOf::Shadertoy { id } => EntryHandleOf::Shadertoy { id: id@ },
        }
    }
}

impl View for PlaylistHandleOf<String> {
    type V = PlaylistHandleOf<Seq<char>>;

    open spec fn view(&self) -> PlaylistHandleOf<Seq<char>> {
        match self {
            PlaylistHandleOf::RawPath(p) => PlaylistHandleOf::RawPath(p@),
            PlaylistHandleOf::Named { name } => PlaylistHandleOf::Named { name: name@ },
        }
    }
}

/// Why a handle was rejected or a playlist was not found.
#[derive(Debug, Clone, PartialEq, Eq)]
pub enum HandleIssue<S, L> {
    EmptyShaderHandle,
    EmptyPlaylistHandle,
    MissingShadertoyId,
    /// `<kind>://` without a name.
    NamedWithoutName(S),
    /// `<kind>://a/b`: names must not contain `/`.
    NamedWithSlash(S, S),
    ExpandShaderPath(S, PathIssue<S>),
    ExpandPlaylistPath(S, PathIssue<S>),
    /// A bare word that is neither a scheme handle nor a path.
    AmbiguousShader(S),
    AmbiguousPlaylist(S),
    PlaylistIsDirectory(S),
    PlaylistFileMissing(S),
    PlaylistEscapesRoots(S),
    PlaylistNotInRoots(S, L),
}

pub type HandleError = HandleIssue<String, Vec<String>>;

pub type HandleIssueView = HandleIssue<Seq<char>, Seq<Seq<char>>>;

impl View for HandleIssue<String, Vec<String>> {
    type V = HandleIssueView;

    open spec fn view(&self) -> HandleIssueView {
        match self {
            HandleIssue::EmptyShaderHandle => HandleIssue::EmptyShaderHandle,
            HandleIssue::EmptyPlaylistHandle => HandleIssue::EmptyPlaylistHandle,
            HandleIssue::MissingShadertoyId => HandleIssue::MissingShadertoyId,
            HandleIssue::NamedWithoutName(k) => HandleIssue::NamedWithoutName(k@),
            HandleIssue::NamedWithSlash(k, n) => HandleIssue::NamedWithSlash(k@, n@),
            HandleIssue::ExpandShaderPath(t, e) => HandleIssue::ExpandShaderPath(t@, e@),
            HandleIssue::ExpandPlaylistPath(t, e) => HandleIssue::ExpandPlaylistPath(t@, e@),
            HandleIssue::AmbiguousShader(t) => HandleIssue::AmbiguousShader(t@),
            HandleIssue::AmbiguousPlaylist(t) => HandleIssue::AmbiguousPlaylist(t@),
            HandleIssue::PlaylistIsDirectory(p) => HandleIssue::PlaylistIsDirectory(p@),
            HandleIssue::PlaylistFileMissing(p) => HandleIssue::PlaylistFileMissing(p@),
            HandleIssue::PlaylistEscapesRoots(p) => HandleIssue::PlaylistEscapesRoots(p@),
            HandleIssue::PlaylistNotInRoots(p, roots) => HandleIssue::PlaylistNotInRoots(
                p@,
                roots@.map_values(|r: String| r@),
            ),
        }
    }
}

pub open spec fn comma_list(items: Seq<Seq<char>>) -> Seq<char>
    decreases items.len(),
{
    if items.len() == 0 {
        seq![]
    } else if items.len() == 1 {
        items[0]
    } else {
        comma_list(items.drop_last()) + ", "@ + items.last()
    }
}

pub open spec fn handle_issue_message(e: HandleIssueView) -> Seq<char> {
    match e {
        HandleIssue::EmptyShaderHandle => "shader handle must not be empty"@,
        HandleIssue::EmptyPlaylistHandle => "playlist handle must not be empty"@,
        HandleIssue::MissingShadertoyId => "shadertoy identifier missing after scheme"@,
        HandleIssue::NamedWithoutName(k) => k + " handle must include a name, e.g. "@ + k
            + "://demo"@,
        HandleIssue::NamedWithSlash(k, n) => k + " handle names must not contain '/': "@ + n,
        HandleIssue::ExpandShaderPath(t, _) => "failed to expand shader path '"@ + t + "'"@,
        HandleIssue::ExpandPlaylistPath(t, _) => "failed to expand playlist path '"@ + t + "'"@,
        HandleIssue::AmbiguousShader(t) => "unable to infer handle type from '"@ + t
            + "'. Use shader://"@ + t + " or provide a filesystem path"@,
        HandleIssue::AmbiguousPlaylist(t) => "unable to infer playlist handle from '"@ + t
            + "'. Use playlist://"@ + t + " or provide a filesystem path"@,
        HandleIssue::PlaylistIsDirectory(p) => "playlist expects a file, not a directory: "@ + p,
        HandleIssue::PlaylistFileMissing(p) => "playlist file not found: "@ + p,
        HandleIssue::PlaylistEscapesRoots(p) =>
            "playlist path does not allow parent or absolute segments: "@ + p,
        HandleIssue::PlaylistNotInRoots(p, roots) => "playlist '"@ + p + "' not found; searched: "@
            + comma_list(roots),
    }
}

fn comma_list_exec(items: &Vec<String>) -> (r: String)
    ensures
        r@ == comma_list(items@.map_values(|s: String| s@)),
{
    let ghost v = items@.map_values(|s: String| s@);
    let mut r = String::new();
    let mut i: usize = 0;
    while i < items.len()
        invariant
            i <= items@.len(),
            v == items@.map_values(|s: String| s@),
            r@ == comma_list(v.take(i as int)),
        decreases items@.len() - i,
    {
        proof {
            assert(v.take(i + 1).drop_last() =~= v.take(i as int));
            assert(v.take(i + 1).last() == items@[i as int]@);
        }
        if i > 0 {
            r.push_str(", ");
        }
        r.push_str(items[i].as_str());
        proof {
            if i == 0 {
                assert(Seq::<char>::empty() + items@[0]@ =~= items@[0]@);
                assert(v.take(1) =~= seq![items@[0]@]);
            }
        }
        i += 1;
    }
    proof {
        assert(v.take(items@.len() as int) =~= v);
    }
    r
}

impl HandleIssue<String, Vec<String>> {
    /// The human-readable message for the error.
    pub fn to_string(&self) -> (r: String)
        ensures
            r@ == handle_issue_message(self@),
    {
        match self {
            HandleIssue::EmptyShaderHandle => lit("shader handle must not be empty"),
            HandleIssue::EmptyPlaylistHandle => lit("playlist handle must not be empty"),
            HandleIssue::MissingShadertoyId => lit("shadertoy identifier missing after scheme"),
            HandleIssue::NamedWithoutName(k) => {
                let mut r = k.clone();
                r.push_str(" handle must include a name, e.g. ");
                r.push_str(k.as_str());
                r.push_str("://demo");
                r
            },
            HandleIssue::NamedWithSlash(k, n) => {
                let mut r = k.clone();
                r.push_str(" handle names must not contain '/': ");
                r.push_str(n.as_str());
                r
            },
            HandleIssue::ExpandShaderPath(t, _) => wrap_msg(
                "failed to expand shader path '",
                t.as_str(),
                "'",
            ),
            HandleIssue::ExpandPlaylistPath(t, _) => wrap_msg(
                "failed to expand playlist path '",
                t.as_str(),
                "'",
            ),
            HandleIssue::AmbiguousShader(t) => {
                let mut r = wrap_msg("unable to infer handle type from '", t.as_str(), "'. Use shader://");
                r.push_str(t.as_str());
                r.push_str(" or provide a filesystem path");
                r
            },
            HandleIssue::AmbiguousPlaylist(t) => {
                let mut r = wrap_msg(
                    "unable to infer playlist handle from '",
                    t.as_str(),
                    "'. Use playlist://",
                );
                r.push_str(t.as_str());
                r.push_str(" or provide a filesystem path");
                r
            },
            HandleIssue::PlaylistIsDirectory(p) => join_msg("playlist expects a file, not a directory: ", p.as_str()),
            HandleIssue::PlaylistFileMissing(p) => join_msg("playlist file not found: ", p.as_str()),
            HandleIssue::PlaylistEscapesRoots(p) => join_msg("playlist path does not allow parent or absolute segments: ", p.as_str()),
            HandleIssue::PlaylistNotInRoots(p, roots) => {
                let mut r = wrap_msg("playlist '", p.as_str(), "' not found; searched: ");
                let list = comma_list_exec(roots);
                r.push_str(list.as_str());
                r
            },
        }
    }
}


pub open spec fn named_handle(input: Seq<char>, kind: Seq<char>) -> Result<
    Seq<char>,
    HandleIssueView,
> {
    let t = trim(input);
    if t.len() == 0 {
        Err(HandleIssue::NamedWithoutName(kind))
    } else if t.contains('/') {
        Err(HandleIssue::NamedWithSlash(kind, t))
    } else {
        Ok(t)
    }
}

/// A relative path taken against `cwd`; an absolute one as it is.
pub open spec fn absolutise(p: Seq<char>, cwd: Seq<char>) -> Seq<char> {
    if is_absolute(p) {
        p
    } else {
        join(cwd, p)
    }
}

/// How an entry handle is read: `shadertoy://<id>`, `shader://<name>`, or a
/// path (one holding `/`, or expanding to an absolute path).
pub open spec fn entry_from(
    cwd: Seq<char>,
    env: EnvView,
    home: Option<Seq<char>>,
    input: Seq<char>,
) -> Result<EntryHandleOf<Seq<char>>, HandleIssueView> {
    let t = trim(input);
    if t.len() == 0 {
        Err(HandleIssue::EmptyShaderHandle)
    } else {
        match strip_prefix(t, "shadertoy://"@) {
            Some(rest) => {
                if trim(rest).len() == 0 {
                    Err(HandleIssue::MissingShadertoyId)
                } else {
                    Ok(EntryHandleOf::Shadertoy { id: trim(rest) })
                }
            },
            None => match strip_prefix(t, "shader://"@) {
                Some(rest) => match named_handle(rest, "shader pack"@) {
                    Ok(n) => Ok(EntryHandleOf::LocalPack { name: n }),
                    Err(e) => Err(e),
                },
                None => match expand(t, env, home) {
                    Err(e) => Err(HandleIssue::ExpandShaderPath(t, e)),
                    Ok(x) => {
                        if t.contains('/') || is_absolute(x) {
                            Ok(EntryHandleOf::RawPath(absolutise(x, cwd)))
                        } else {
                            Err(HandleIssue::AmbiguousShader(t))
                        }
                    },
                },
            },
        }
    }
}

/// Like `entry_from`, but a bare word (no `/`, `://`, leading `~` or `.`)
/// that is not otherwise a handle names a local pack.
pub open spec fn entry_or_local_from(
    cwd: Seq<char>,
    env: EnvView,
    home: Option<Seq<char>>,
    input: Seq<char>,
) -> Result<EntryHandleOf<Seq<char>>, HandleIssueView> {
    match entry_from(cwd, env, home, input) {
        Ok(h) => Ok(h),
        Err(e) => {
            let t = trim(input);
            if t.len() == 0 || t.contains('/') || contains(t, "://"@) || t[0] == '~' || t[0]
                == '.' {
                Err(e)
            } else {
                Ok(EntryHandleOf::LocalPack { name: t })
            }
        },
    }
}

/// How a playlist handle is read: `playlist://<name>` or a path.
pub open spec fn playlist_from(
    cwd: Seq<char>,
    env: EnvView,
    home: Option<Seq<char>>,
    input: Seq<char>,
) -> Result<PlaylistHandleOf<Seq<char>>, HandleIssueView> {
    let t = trim(input);
    if t.len() == 0 {
        Err(HandleIssue::EmptyPlaylistHandle)
    } else {
        match strip_prefix(t, "playlist://"@) {
            Some(rest) => match named_handle(rest, "playlist"@) {
                Ok(n) => Ok(PlaylistHandleOf::Named { name: n }),
                Err(e) => Err(e),
            },
            None => match expand(t, env, home) {
                Err(e) => Err(HandleIssue::ExpandPlaylistPath(t, e)),
                Ok(x) => {
                    if t.contains('/') || is_absolute(x) {
                        Ok(PlaylistHandleOf::RawPath(absolutise(x, cwd)))
                    } else {
                        Err(HandleIssue::AmbiguousPlaylist(t))
                    }
                },
            },
        }
    }
}

pub open spec fn entry_result(r: Result<EntryHandle, HandleError>) -> Result<
    EntryHandleOf<Seq<char>>,
    HandleIssueView,
> {
    match r {
        Ok(h) => Ok(h@),
        Err(e) => Err(e@),
    }
}

pub open spec fn playlist_result(r: Result<PlaylistHandle, HandleError>) -> Result<
    PlaylistHandleOf<Seq<char>>,
    HandleIssueView,
> {
    match r {
        Ok(h) => Ok(h@),
        Err(e) => Err(e@),
    }
}

/// The file name a named playlist is looked up under.
pub open spec fn playlist_file_name(name: Seq<char>) -> Seq<char> {
    if has_suffix(name, ".toml"@) {
        name
    } else {
        name + ".toml"@
    }
}

fn parse_named_handle(input: &[char], kind: &str) -> (r: Result<String, HandleError>)
    ensures
        match named_handle(input@, kind@) {
            Ok(n) => r matches Ok(s) && s@ == n,
            Err(e) => r matches Err(re) && re@ == e,
        },
{
    let t = trim_chars(input);
    if t.len() == 0 {
        return Err(HandleIssue::NamedWithoutName(kind.to_owned()));
    }
    if contains_char(t.as_slice(), '/') {
        return Err(HandleIssue::NamedWithSlash(kind.to_owned(), string_of(t.as_slice())));
    }
    Ok(string_of(t.as_slice()))
}

fn absolutise_exec(p: &str, cwd: &str) -> (r: String)
    ensures
        r@ == absolutise(p@, cwd@),
{
    let v = chars_of(p);
    if path_is_absolute(v.as_slice()) {
        p.to_owned()
    } else {
        path_join(cwd, p)
    }
}

impl PlaylistHandleArg {
    pub fn into_inner(self) -> (r: PlaylistHandle)
        ensures
            r == self.0,
    {
        self.0
    }
}

impl LaunchHandleArg {
    pub fn into_inner(self) -> (r: LaunchHandle)
        ensures
            r == self.0,
    {
        self.0
    }

    pub fn inner(&self) -> (r: &LaunchHandle)
        ensures
            *r == self.0,
    {
        &self.0
    }

    /// `playlist://...` (after trimming) is a playlist handle; anything else
    /// is an entry handle; errors are returned as their messages.
    pub fn parse_with_resolver(resolver: &PathResolver, input: &str) -> (r: Result<Self, String>)
        ensures
            has_prefix(trim(input@), "playlist://"@) ==> match playlist_from(
                resolver.cwd_view(),
                resolver.env_view(),
                resolver.home_view(),
                trim(input@),
            ) {
                Ok(h) => r matches Ok(LaunchHandleArg(LaunchHandle::Playlist(p))) && p@ == h,
                Err(e) => r matches Err(m) && m@ == handle_issue_message(e),
            },
            !has_prefix(trim(input@), "playlist://"@) ==> match entry_from(
                resolver.cwd_view(),
                resolver.env_view(),
                resolver.home_view(),
                trim(input@),
            ) {
                Ok(h) => r matches Ok(LaunchHandleArg(LaunchHandle::Entry(p))) && p@ == h,
                Err(e) => r matches Err(m) && m@ == handle_issue_message(e),
            },
    {
        let t = trimmed(input);
        let ts = string_of(t.as_slice());
        if starts_with_str(t.as_slice(), "playlist://") {
            match PlaylistHandleOf::parse_with_resolver(resolver, ts.as_str()) {
                Ok(h) => Ok(LaunchHandleArg(LaunchHandle::Playlist(h))),
                Err(e) => Err(e.to_string()),
            }
        } else {
            match EntryHandleOf::parse_with_resolver(resolver, ts.as_str()) {
                Ok(h) => Ok(LaunchHandleArg(LaunchHandle::Entry(h))),
                Err(e) => Err(e.to_string()),
            }
        }
    }
}

impl EntryHandleOf<String> {
    /// Reads an entry handle; paths are expanded and made absolute against
    /// the resolver's working directory.
    pub fn parse_with_resolver(resolver: &PathResolver, input: &str) -> (r: Result<
        EntryHandle,
        HandleError,
    >)
        ensures
            entry_result(r) == entry_from(
                resolver.cwd_view(),
                resolver.env_view(),
                resolver.home_view(),
                input@,
            ),
    {
        let t = trimmed(input);
        if t.len() == 0 {
            return Err(HandleIssue::EmptyShaderHandle);
        }
        if let Some(rest) = strip_prefix_str(t.as_slice(), "shadertoy://") {
            let id = trim_chars(rest.as_slice());
            if id.len() == 0 {
                return Err(HandleIssue::MissingShadertoyId);
            }
            return Ok(EntryHandleOf::Shadertoy { id: string_of(id.as_slice()) });
        }
        if let Some(rest) = strip_prefix_str(t.as_slice(), "shader://") {
            let name = parse_named_handle(rest.as_slice(), "shader pack")?;
            return Ok(EntryHandleOf::LocalPack { name });
        }
        let ts = string_of(t.as_slice());
        let expanded = match resolver.expand_path(ts.as_str()) {
            Ok(x) => x,
            Err(e) => {
                return Err(HandleIssue::ExpandShaderPath(ts, e));
            },
        };
        let ex = chars_of(expanded.as_str());
        if contains_char(t.as_slice(), '/') || path_is_absolute(ex.as_slice()) {
            return Ok(EntryHandleOf::RawPath(absolutise_exec(expanded.as_str(), resolver.cwd())));
        }
        Err(HandleIssue::AmbiguousShader(ts))
    }

    /// As `parse_with_resolver`, but a bare word that is not a handle names a
    /// local pack.
    pub fn parse_with_resolver_or_local(resolver: &PathResolver, input: &str) -> (r: Result<
        EntryHandle,
        HandleError,
    >)
        ensures
            entry_result(r) == entry_or_local_from(
                resolver.cwd_view(),
                resolver.env_view(),
                resolver.home_view(),
                input@,
            ),
    {
        match EntryHandleOf::parse_with_resolver(resolver, input) {
            Ok(handle) => Ok(handle),
            Err(original_err) => {
                let t = trimmed(input);
                if t.len() == 0 || contains_char(t.as_slice(), '/') || contains_str(
                    t.as_slice(),
                    "://",
                ) || t[0] == '~' || t[0] == '.' {
                    Err(original_err)
                } else {
                    Ok(EntryHandleOf::LocalPack { name: string_of(t.as_slice()) })
                }
            },
        }
    }

    pub fn into_shader_handle(self) -> (r: ShaderHandle)
        ensures
            match self {
                EntryHandleOf::RawPath(p) => r == ShaderHandle::LocalPack(p),
                EntryHandleOf::LocalPack { name } => r == ShaderHandle::LocalPack(name),
                EntryHandleOf::Shadertoy { id } => r == ShaderHandle::ShadertoyId(id),
            },
    {
        match self {
            EntryHandleOf::RawPath(path) => ShaderHandle::LocalPack(path),
            EntryHandleOf::LocalPack { name } => ShaderHandle::LocalPack(name),
            EntryHandleOf::Shadertoy { id } => ShaderHandle::ShadertoyId(id),
        }
    }
}

impl PlaylistHandleOf<String> {
    /// Reads a playlist handle; paths are expanded and made absolute against
    /// the resolver's working directory.
    pub fn parse_with_resolver(resolver: &PathResolver, input: &str) -> (r: Result<
        PlaylistHandle,
        HandleError,
    >)
        ensures
            playlist_result(r) == playlist_from(
                resolver.cwd_view(),
                resolver.env_view(),
                resolver.home_view(),
                input@,
            ),
    {
        let t = trimmed(input);
        if t.len() == 0 {
            return Err(HandleIssue::EmptyPlaylistHandle);
        }
        if let Some(rest) = strip_prefix_str(t.as_slice(), "playlist://") {
            let name = parse_named_handle(rest.as_slice(), "playlist")?;
            return Ok(PlaylistHandleOf::Named { name });
        }
        let ts = string_of(t.as_slice());
        let expanded = match resolver.expand_path(ts.as_str()) {
            Ok(x) => x,
            Err(e) => {
                return Err(HandleIssue::ExpandPlaylistPath(ts, e));
            },
        };
        let ex = chars_of(expanded.as_str());
        if contains_char(t.as_slice(), '/') || path_is_absolute(ex.as_slice()) {
            return Ok(
                PlaylistHandleOf::RawPath(absolutise_exec(expanded.as_str(), resolver.cwd())),
            );
        }
        Err(HandleIssue::AmbiguousPlaylist(ts))
    }

    /// Where the handle leads, given the disk's answers (see
    /// `playlist_path_outcome`).
    pub fn resolve_path_given(
        &self,
        search_roots: &Vec<String>,
        is_dir: bool,
        exists_abs: bool,
        present: &[bool],
    ) -> (r: Result<String, HandleError>)
        ensures
            string_result(r) == playlist_path_outcome(self@, roots_view(search_roots@), is_dir, exists_abs, present@),
    {
        match self {
            PlaylistHandleOf::RawPath(path) => {
                let v = chars_of(path.as_str());
                if path_is_absolute(v.as_slice()) {
                    choose_absolute_playlist(path.as_str(), is_dir, exists_abs)
                } else {
                    search_given(path.as_str(), search_roots, present)
                }
            },
            PlaylistHandleOf::Named { name } => {
                let v = chars_of(name.as_str());
                let file = if ends_with_str(v.as_slice(), ".toml") {
                    name.clone()
                } else {
                    let mut f = name.clone();
                    f.push_str(".toml");
                    f
                };
                assert(file@ == playlist_file_name(name@));
                search_given(file.as_str(), search_roots, present)
            },
        }
    }

    /// The playlist file: an absolute raw path is used if it is an existing
    /// file; a relative raw path, or a named playlist (`.toml` added when
    /// missing), is looked up under each search root in order, the first
    /// root holding it as a file winning. The disk is asked what exists;
    /// `playlist_path_outcome` (and `resolve_path_given`) say what comes out
    /// for its answers.
    pub fn resolve_path(&self, search_roots: &Vec<String>) -> (r: Result<String, HandleError>)
        ensures
            exists|is_dir: bool, exists_abs: bool, present: Seq<bool>| #[trigger]
                playlist_path_outcome(self@, roots_view(search_roots@), is_dir, exists_abs, present)
                    == string_result(r),
    {
        match self {
            PlaylistHandleOf::RawPath(path) => {
                let v = chars_of(path.as_str());
                if path_is_absolute(v.as_slice()) {
                    let is_dir = path_is_dir(path.as_str());
                    let present = if is_dir {
                        false
                    } else {
                        path_exists(path.as_str())
                    };
                    let r = choose_absolute_playlist(path.as_str(), is_dir, present);
                    proof {
                        assert(playlist_path_outcome(self@, roots_view(search_roots@), is_dir, present, Seq::empty())
                            == string_result(r));
                    }
                    return r;
                }
                let r = search_in_roots(path.as_str(), search_roots);
                proof {
                    let w = choose|present: Seq<bool>| #[trigger]
                        search_outcome(path@, roots_view(search_roots@), present) == string_result(r);
                    assert(playlist_path_outcome(self@, roots_view(search_roots@), false, false, w) == string_result(r));
                }
                r
            },
            PlaylistHandleOf::Named { name } => {
                let v = chars_of(name.as_str());
                let file = if ends_with_str(v.as_slice(), ".toml") {
                    name.clone()
                } else {
                    let mut f = name.clone();
                    f.push_str(".toml");
                    f
                };
                assert(file@ == playlist_file_name(name@));
                let r = search_in_roots(file.as_str(), search_roots);
                proof {
                    let w = choose|present: Seq<bool>| #[trigger]
                        search_outcome(file@, roots_view(search_roots@), present) == string_result(r);
                    assert(playlist_path_outcome(self@, roots_view(search_roots@), false, false, w) == string_result(r));
                }
                r
            },
        }
    }
}

/// Where a playlist handle leads, given the disk's answers: for an
/// absolute raw path, whether it is a directory and whether it exists; for
/// a relative raw path or a named playlist, for each root in order, whether
/// the path under it is a file.
pub open spec fn playlist_path_outcome(
    h: PlaylistHandleOf<Seq<char>>,
    roots: Seq<Seq<char>>,
    is_dir: bool,
    exists_abs: bool,
    present: Seq<bool>,
) -> Result<Seq<char>, HandleIssueView> {
    match h {
        PlaylistHandleOf::RawPath(p) => if is_absolute(p) {
            absolute_playlist_outcome(p, is_dir, exists_abs)
        } else {
            search_outcome(p, roots, present)
        },
        PlaylistHandleOf::Named { name } => search_outcome(playlist_file_name(name), roots, present),
    }
}

/// The search roots as plain values.
pub open spec fn roots_view(v: Seq<String>) -> Seq<Seq<char>> {
    v.map_values(|s: String| s@)
}

/// A result as plain values.
pub open spec fn string_result(r: Result<String, HandleError>) -> Result<Seq<char>, HandleIssueView> {
    match r {
        Ok(x) => Ok(x@),
        Err(e) => Err(e@),
    }
}

/// An absolute playlist path, given whether it is a directory and whether
/// it exists: a directory is refused, an existing path is used, a missing
/// one is refused.
pub open spec fn absolute_playlist_outcome(p: Seq<char>, is_dir: bool, present: bool) -> Result<
    Seq<char>,
    HandleIssueView,
> {
    if is_dir {
        Err(HandleIssue::PlaylistIsDirectory(p))
    } else if present {
        Ok(p)
    } else {
        Err(HandleIssue::PlaylistFileMissing(p))
    }
}

/// See `absolute_playlist_outcome`.
pub fn choose_absolute_playlist(path: &str, is_dir: bool, present: bool) -> (r: Result<String, HandleError>)
    ensures
        string_result(r) == absolute_playlist_outcome(path@, is_dir, present),
{
    if is_dir {
        Err(HandleIssue::PlaylistIsDirectory(lit(path)))
    } else if present {
        Ok(lit(path))
    } else {
        Err(HandleIssue::PlaylistFileMissing(lit(path)))
    }
}

/// Whether the answer for root `i` is given and says the path is a file
/// there.
pub open spec fn answer_at(present: Seq<bool>, i: int) -> bool {
    0 <= i < present.len() && present[i]
}

/// The first root whose answer says the path is a file there.
pub open spec fn first_present(present: Seq<bool>, count: int) -> Option<int> {
    if exists|i: int| 0 <= i < count && answer_at(present, i) {
        Some(choose|i: int| 0 <= i < count && answer_at(present, i) && forall|j: int| 0 <= j < i ==> !answer_at(present, j))
    } else {
        None
    }
}

/// A search of the roots for `path`, given for each root in order whether
/// the path joined to it is a file (answers missing at the end count as
/// no): a path with a root or `..` component is refused; otherwise it is
/// joined to the first root whose answer is yes; with none, the not-found
/// error names all roots.
pub open spec fn search_outcome(path: Seq<char>, roots: Seq<Seq<char>>, present: Seq<bool>) -> Result<
    Seq<char>,
    HandleIssueView,
> {
    if escapes_root(path) {
        Err(HandleIssue::PlaylistEscapesRoots(path))
    } else {
        match first_present(present, roots.len() as int) {
            Some(i) => Ok(join(roots[i], path)),
            None => Err(HandleIssue::PlaylistNotInRoots(path, roots)),
        }
    }
}

fn search_in_roots(path: &str, search_roots: &Vec<String>) -> (r: Result<String, HandleError>)
    ensures
        exists|present: Seq<bool>| #[trigger]
            search_outcome(path@, roots_view(search_roots@), present) == string_result(r),
{
    let mut present: Vec<bool> = Vec::new();
    let v = chars_of(path);
    if !escapes_root_exec(v.as_slice()) {
        let mut i: usize = 0;
        while i < search_roots.len()
            invariant
                i <= search_roots@.len(),
            decreases search_roots@.len() - i,
        {
            let candidate = path_join(search_roots[i].as_str(), path);
            let found = path_is_file(candidate.as_str());
            present.push(found);
            if found {
                break;
            }
            i += 1;
        }
    }
    let r = search_given(path, search_roots, present.as_slice());
    proof {
        assert(search_outcome(path@, roots_view(search_roots@), present@) == string_result(r));
    }
    r
}

/// See `search_outcome`.
pub fn search_given(path: &str, search_roots: &Vec<String>, present: &[bool]) -> (r: Result<String, HandleError>)
    ensures
        string_result(r) == search_outcome(path@, roots_view(search_roots@), present@),
{
    let v = chars_of(path);
    if escapes_root_exec(v.as_slice()) {
        return Err(HandleIssue::PlaylistEscapesRoots(path.to_owned()));
    }
    let ghost roots = roots_view(search_roots@);
    let mut i: usize = 0;
    while i < search_roots.len()
        invariant
            i <= search_roots@.len(),
            roots == roots_view(search_roots@),
            !escapes_root(path@),
            forall|j: int| 0 <= j < i ==> !answer_at(present@, j),
        decreases search_roots@.len() - i,
    {
        if i < present.len() && present[i] {
            let candidate = path_join(search_roots[i].as_str(), path);
            proof {
                assert(answer_at(present@, i as int));
                let k = choose|k: int| 0 <= k < roots.len() && answer_at(present@, k) && forall|j: int| 0 <= j < k ==> !answer_at(present@, j);
                assert(!(k < i));
                assert(!(i < k));
                assert(roots[i as int] == search_roots@[i as int]@);
            }
            return Ok(candidate);
        }
        i += 1;
    }
    let mut copies: Vec<String> = Vec::new();
    let mut j: usize = 0;
    while j < search_roots.len()
        invariant
            j <= search_roots@.len(),
            copies@.len() == j,
            copies@.map_values(|s: String| s@) == roots.take(j as int),
            roots == roots_view(search_roots@),
        decreases search_roots@.len() - j,
    {
        let ghost old_copies = copies@;
        copies.push(search_roots[j].clone());
        proof {
            let m = copies@.map_values(|s: String| s@);
            assert forall|k: int| 0 <= k < j + 1 implies m[k] == roots.take(j + 1)[k] by {
                if k < j {
                    assert(copies@[k] == old_copies[k]);
                    assert(old_copies.map_values(|s: String| s@)[k] == roots.take(j as int)[k]);
                }
            }
            assert(m =~= roots.take(j + 1));
        }
        j += 1;
    }
    proof {
        assert(roots.take(roots.len() as int) =~= roots);
    }
    Err(HandleIssue::PlaylistNotInRoots(path.to_owned(), copies))
}

} // verus!
