//! Playlist mode of hyshadew: which playlist each wallpaper surface shows
//! (by the Hyprland workspace on its output, by the output, or by default),
//! and the rules the playlist engine follows between loads.
use vstd::prelude::*;
use crate::multiconfig::{first_named, AntialiasSetting, Fps, MultiConfig};
use crate::renderer::types::{Antialiasing, ColorSpaceMode};
use crate::renderer::wallpaper::{OutputId, SurfaceId, SurfaceInfo};
use crate::scheduler::{
    config_playlists_nonempty, fresh_state, playlist_index, shows, ScheduledItem, Scheduler, SelectionChange,
    TargetId,
};
use crate::hyshadew::defaults::opt_str;
use crate::text::{chars_eq, chars_of, decimal, decimal_chars, join_msg, lit, string_of, strings_view, wrap_msg};

verus! {

/// How a surface's playlist was chosen. `S` is `String` at run time and
/// `Seq<char>` in specs.
#[derive(Debug, Clone, PartialEq, Eq)]
pub enum TargetSelectorKindOf<S> {
    /// By the workspace key (`workspace:<name>`, `workspace:<id>`, `<name>`
    /// or `<id>`) that matched.
    Workspace(S),
    /// By `output:<name>`.
    Output(S),
    /// By `_default` or the default playlist.
    Default,
}

pub type TargetSelectorKind = TargetSelectorKindOf<String>;

impl View for TargetSelectorKindOf<String> {
    type V = TargetSelectorKindOf<Seq<char>>;

    open spec fn view(&self) -> TargetSelectorKindOf<Seq<char>> {
        match self {
            TargetSelectorKindOf::Workspace(k) => TargetSelectorKindOf::Workspace(k@),
            TargetSelectorKindOf::Output(k) => TargetSelectorKindOf::Output(k@),
            TargetSelectorKindOf::Default => TargetSelectorKindOf::Default,
        }
    }
}

/// A Hyprland workspace.
#[derive(Debug, Clone)]
pub struct WorkspaceInfo {
    pub id: i32,
    pub name: String,
}

/// The active workspace of each monitor, by monitor name.
#[derive(Debug, Clone)]
pub struct HyprlandSnapshot {
    pub workspaces: Vec<(String, WorkspaceInfo)>,
}

/// The playlist a surface shows and how it was chosen.
#[derive(Debug, Clone)]
pub struct ResolvedTarget {
    pub selector: TargetSelectorKind,
    pub playlist: String,
    pub playlist_len: usize,
}

pub type ResolvedView = (TargetSelectorKindOf<Seq<char>>, Seq<char>, nat);

pub open spec fn resolved_view(r: ResolvedTarget) -> ResolvedView {
    (r.selector@, r.playlist@, r.playlist_len as nat)
}

/// The decimal form of a signed number.
pub open spec fn signed_decimal(i: int) -> Seq<char> {
    if i < 0 {
        seq!['-'] + decimal((-i) as nat)
    } else {
        decimal(i as nat)
    }
}

fn signed_decimal_exec(i: i32) -> (r: String)
    ensures
        r@ == signed_decimal(i as int),
{
    if i < 0 {
        let magnitude: u64 = (-(i as i64)) as u64;
        let d = decimal_chars(magnitude);
        let mut r = lit("-");
        let ds = string_of(d.as_slice());
        r.push_str(ds.as_str());
        proof {
            reveal_strlit("-");
            assert("-"@ =~= seq!['-']);
            assert((-(i as int)) as nat == magnitude as nat);
        }
        r
    } else {
        string_of(decimal_chars(i as u64).as_slice())
    }
}

/// The playlist the first target entry keyed `key` names.
pub open spec fn target_for(targets: Seq<(String, String)>, key: Seq<char>) -> Option<Seq<char>> {
    if exists|i: int| 0 <= i < targets.len() && targets[i].0@ == key {
        let i = choose|i: int|
            0 <= i < targets.len() && targets[i].0@ == key && forall|j: int| 0 <= j < i ==> targets[j].0@ != key;
        Some(targets[i].1@)
    } else {
        None
    }
}

/// The result for playlist `playlist` chosen by `selector`, when the
/// configuration has that playlist.
pub open spec fn build_result_spec(c: MultiConfig, playlist: Seq<char>, selector: TargetSelectorKindOf<Seq<char>>) -> Option<
    ResolvedView,
> {
    match first_named(c.playlists@, playlist) {
        Some(i) => Some((selector, playlist, c.playlists@[i].1.items@.len())),
        None => None,
    }
}

/// The workspace keys tried, in order.
pub open spec fn workspace_keys(ws: WorkspaceInfo) -> Seq<Seq<char>> {
    seq![
        "workspace:"@ + ws.name@,
        "workspace:"@ + signed_decimal(ws.id as int),
        ws.name@,
        signed_decimal(ws.id as int),
    ]
}

/// The first key (from `k` on) that has a target entry decides.
pub open spec fn workspace_from(c: MultiConfig, keys: Seq<Seq<char>>, k: int) -> Option<ResolvedView>
    decreases keys.len() - k,
{
    if k < 0 || k >= keys.len() {
        None
    } else {
        match target_for(c.targets@, keys[k]) {
            Some(p) => build_result_spec(c, p, TargetSelectorKindOf::Workspace(keys[k])),
            None => workspace_from(c, keys, k + 1),
        }
    }
}

pub open spec fn output_spec(c: MultiConfig, name: Seq<char>) -> Option<ResolvedView> {
    let key = "output:"@ + name;
    match target_for(c.targets@, key) {
        Some(p) => build_result_spec(c, p, TargetSelectorKindOf::Output(key)),
        None => None,
    }
}

pub open spec fn default_spec(c: MultiConfig) -> Option<ResolvedView> {
    match target_for(c.targets@, "_default"@) {
        Some(p) => build_result_spec(c, p, TargetSelectorKindOf::Default),
        None => match c.defaults.playlist {
            Some(d) => build_result_spec(c, d@, TargetSelectorKindOf::Default),
            None => None,
        },
    }
}

/// The active workspace of monitor `name`.
pub open spec fn workspace_of(snapshot: HyprlandSnapshot, name: Seq<char>) -> Option<WorkspaceInfo> {
    if exists|i: int| 0 <= i < snapshot.workspaces@.len() && snapshot.workspaces@[i].0@ == name {
        let i = choose|i: int|
            0 <= i < snapshot.workspaces@.len() && snapshot.workspaces@[i].0@ == name && forall|j: int|
                0 <= j < i ==> snapshot.workspaces@[j].0@ != name;
        Some(snapshot.workspaces@[i].1)
    } else {
        None
    }
}

/// The playlist of a surface: by the workspace on its output, then by its
/// output, then by default.
pub open spec fn resolve_spec(c: MultiConfig, surface: SurfaceInfo, snapshot: Option<HyprlandSnapshot>) -> Option<
    ResolvedView,
> {
    let by_workspace = match (surface.output_name, snapshot) {
        (Some(o), Some(s)) => match workspace_of(s, o@) {
            Some(ws) => workspace_from(c, workspace_keys(ws), 0),
            None => None,
        },
        _ => None,
    };
    let by_output = match surface.output_name {
        Some(o) => output_spec(c, o@),
        None => None,
    };
    if by_workspace is Some {
        by_workspace
    } else if by_output is Some {
        by_output
    } else {
        default_spec(c)
    }
}

proof fn lemma_workspace_from_named(c: MultiConfig, keys: Seq<Seq<char>>, k: int)
    ensures
        workspace_from(c, keys, k) matches Some(v) ==> first_named(c.playlists@, v.1) is Some,
    decreases keys.len() - k,
{
    if 0 <= k < keys.len() {
        lemma_workspace_from_named(c, keys, k + 1);
    }
}

/// A surface is only ever resolved to a playlist the configuration has.
pub proof fn lemma_resolved_is_named(c: MultiConfig, surface: SurfaceInfo, snapshot: Option<HyprlandSnapshot>)
    ensures
        resolve_spec(c, surface, snapshot) matches Some(v) ==> first_named(c.playlists@, v.1) is Some,
{
    match (surface.output_name, snapshot) {
        (Some(o), Some(s)) => match workspace_of(s, o@) {
            Some(ws) => lemma_workspace_from_named(c, workspace_keys(ws), 0),
            None => {},
        },
        _ => {},
    }
}

pub open spec fn no_mapping_message(surface: u64) -> Seq<char> {
    "no playlist mapping found for surface "@ + decimal(surface as nat) + ")"@
}

/// Picks playlists for surfaces from a configuration.
pub struct TargetResolver<'a> {
    config: &'a MultiConfig,
}

impl<'a> TargetResolver<'a> {
    pub closed spec fn config_view(&self) -> MultiConfig {
        *self.config
    }

    pub fn new(config: &'a MultiConfig) -> (r: Self)
        ensures
            r.config_view() == *config,
    {
        TargetResolver { config }
    }

    fn lookup(&self, key: &str) -> (r: Option<&'a String>)
        ensures
            match target_for(self.config_view().targets@, key@) {
                Some(p) => r matches Some(s) && s@ == p,
                None => r is None,
            },
    {
        let targets = &self.config.targets;
        let want = chars_of(key);
        let mut i: usize = 0;
        while i < targets.len()
            invariant
                i <= targets@.len(),
                want@ == key@,
                targets@ == self.config_view().targets@,
                forall|j: int| 0 <= j < i ==> targets@[j].0@ != key@,
            decreases targets@.len() - i,
        {
            let k = chars_of(targets[i].0.as_str());
            if chars_eq(k.as_slice(), want.as_slice()) {
                proof {
                    let w = choose|m: int|
                        0 <= m < targets@.len() && targets@[m].0@ == key@ && forall|j: int|
                            0 <= j < m ==> targets@[j].0@ != key@;
                    assert(targets@[i as int].0@ == key@);
                    if w < i {
                    } else if w > i {
                        assert(targets@[i as int].0@ != key@);
                    }
                }
                return Some(&targets[i].1);
            }
            i += 1;
        }
        None
    }

    fn build_result(&self, playlist: &str, selector: TargetSelectorKind) -> (r: Option<ResolvedTarget>)
        ensures
            match build_result_spec(self.config_view(), playlist@, selector@) {
                Some(v) => r matches Some(t) && resolved_view(t) == v,
                None => r is None,
            },
    {
        match self.config.playlist(playlist) {
            Some(p) => Some(ResolvedTarget { selector, playlist: lit(playlist), playlist_len: p.items.len() }),
            None => None,
        }
    }

    fn resolve_workspace(&self, workspace: &WorkspaceInfo) -> (r: Option<ResolvedTarget>)
        ensures
            match workspace_from(self.config_view(), workspace_keys(*workspace), 0) {
                Some(v) => r matches Some(t) && resolved_view(t) == v,
                None => r is None,
            },
    {
        let id = signed_decimal_exec(workspace.id);
        let mut candidates: Vec<String> = Vec::new();
        candidates.push(join_msg("workspace:", workspace.name.as_str()));
        candidates.push(join_msg("workspace:", id.as_str()));
        candidates.push(lit(workspace.name.as_str()));
        candidates.push(lit(id.as_str()));
        let ghost keys = workspace_keys(*workspace);
        proof {
            assert(candidates@.map_values(|s: String| s@) =~= keys);
        }
        let mut i: usize = 0;
        while i < candidates.len()
            invariant
                i <= candidates@.len(),
                candidates@.map_values(|s: String| s@) == keys,
                keys == workspace_keys(*workspace),
                workspace_from(self.config_view(), keys, 0) == workspace_from(self.config_view(), keys, i as int),
            decreases candidates@.len() - i,
        {
            let key = &candidates[i];
            proof {
                assert(key@ == keys[i as int]);
            }
            match self.lookup(key.as_str()) {
                Some(playlist) => {
                    return self.build_result(playlist.as_str(), TargetSelectorKindOf::Workspace(lit(key.as_str())));
                },
                None => {},
            }
            i += 1;
        }
        None
    }

    fn resolve_output(&self, name: &str) -> (r: Option<ResolvedTarget>)
        ensures
            match output_spec(self.config_view(), name@) {
                Some(v) => r matches Some(t) && resolved_view(t) == v,
                None => r is None,
            },
    {
        let key = join_msg("output:", name);
        match self.lookup(key.as_str()) {
            Some(playlist) => self.build_result(playlist.as_str(), TargetSelectorKindOf::Output(key)),
            None => None,
        }
    }

    fn resolve_default_target(&self) -> (r: Option<ResolvedTarget>)
        ensures
            match default_spec(self.config_view()) {
                Some(v) => r matches Some(t) && resolved_view(t) == v,
                None => r is None,
            },
    {
        match self.lookup("_default") {
            Some(playlist) => {
                return self.build_result(playlist.as_str(), TargetSelectorKindOf::Default);
            },
            None => {},
        }
        match self.config.default_playlist() {
            Some(d) => self.build_result(d, TargetSelectorKindOf::Default),
            None => None,
        }
    }

    fn workspace_lookup<'s>(snapshot: &'s HyprlandSnapshot, name: &str) -> (r: Option<&'s WorkspaceInfo>)
        ensures
            match workspace_of(*snapshot, name@) {
                Some(ws) => r matches Some(w) && *w == ws,
                None => r is None,
            },
    {
        let want = chars_of(name);
        let mut i: usize = 0;
        while i < snapshot.workspaces.len()
            invariant
                i <= snapshot.workspaces@.len(),
                want@ == name@,
                forall|j: int| 0 <= j < i ==> snapshot.workspaces@[j].0@ != name@,
            decreases snapshot.workspaces@.len() - i,
        {
            let k = chars_of(snapshot.workspaces[i].0.as_str());
            if chars_eq(k.as_slice(), want.as_slice()) {
                proof {
                    let w = choose|m: int|
                        0 <= m < snapshot.workspaces@.len() && snapshot.workspaces@[m].0@ == name@ && forall|j: int|
                            0 <= j < m ==> snapshot.workspaces@[j].0@ != name@;
                    assert(snapshot.workspaces@[i as int].0@ == name@);
                    if w < i {
                    } else if w > i {
                        assert(snapshot.workspaces@[i as int].0@ != name@);
                    }
                }
                return Some(&snapshot.workspaces[i].1);
            }
            i += 1;
        }
        None
    }

    /// The playlist of `surface` (see `resolve_spec`); a surface that no
    /// rule maps is refused.
    pub fn resolve(&self, surface: &SurfaceInfo, hyprland: Option<&HyprlandSnapshot>) -> (r: Result<
        ResolvedTarget,
        String,
    >)
        ensures
            match resolve_spec(
                self.config_view(),
                *surface,
                match hyprland {
                    Some(h) => Some(*h),
                    None => None,
                },
            ) {
                Some(v) => r matches Ok(t) && resolved_view(t) == v,
                None => r matches Err(e) && e@ == no_mapping_message(surface.surface_id.0),
            },
    {
        match &surface.output_name {
            Some(output) => {
                match hyprland {
                    Some(snapshot) => match Self::workspace_lookup(snapshot, output.as_str()) {
                        Some(workspace) => match self.resolve_workspace(workspace) {
                            Some(resolved) => {
                                return Ok(resolved);
                            },
                            None => {},
                        },
                        None => {},
                    },
                    None => {},
                }
                match self.resolve_output(output.as_str()) {
                    Some(resolved) => {
                        return Ok(resolved);
                    },
                    None => {},
                }
            },
            None => {},
        }
        match self.resolve_default_target() {
            Some(resolved) => Ok(resolved),
            None => {
                let d = decimal_chars(surface.surface_id.0);
                let ds = string_of(d.as_slice());
                Err(wrap_msg("no playlist mapping found for surface ", ds.as_str(), ")"))
            },
        }
    }
}

/// The renderer's anti-aliasing for a configured setting.
pub open spec fn antialias_of(setting: AntialiasSetting) -> Antialiasing {
    match setting {
        AntialiasSetting::Auto => Antialiasing::Auto,
        AntialiasSetting::Off => Antialiasing::Off,
        AntialiasSetting::Samples2 => Antialiasing::Samples(2),
        AntialiasSetting::Samples4 => Antialiasing::Samples(4),
        AntialiasSetting::Samples8 => Antialiasing::Samples(8),
        AntialiasSetting::Samples16 => Antialiasing::Samples(16),
    }
}

/// The renderer's anti-aliasing for a configured setting (see `antialias_of`).
pub fn map_antialias(setting: AntialiasSetting) -> (r: Antialiasing)
    ensures
        r == antialias_of(setting),
        r == match setting {
            AntialiasSetting::Auto => Antialiasing::Auto,
            AntialiasSetting::Off => Antialiasing::Off,
            AntialiasSetting::Samples2 => Antialiasing::Samples(2),
            AntialiasSetting::Samples4 => Antialiasing::Samples(4),
            AntialiasSetting::Samples8 => Antialiasing::Samples(8),
            AntialiasSetting::Samples16 => Antialiasing::Samples(16),
        },
{
    match setting {
        AntialiasSetting::Auto => Antialiasing::Auto,
        AntialiasSetting::Off => Antialiasing::Off,
        AntialiasSetting::Samples2 => Antialiasing::Samples(2),
        AntialiasSetting::Samples4 => Antialiasing::Samples(4),
        AntialiasSetting::Samples8 => Antialiasing::Samples(8),
        AntialiasSetting::Samples16 => Antialiasing::Samples(16),
    }
}

/// Whether an item's shader is fetched afresh: never when only the cache
/// may be used; otherwise when every item or this one asks for a refresh,
/// once per handle.
pub open spec fn refresh_wanted(cache_only: bool, refresh_all: bool, refresh_once: bool, already: bool) -> bool {
    !cache_only && (refresh_all || refresh_once) && !already
}

pub fn should_refresh(cache_only: bool, refresh_all: bool, refresh_once: bool, already_refreshed: bool) -> (r: bool)
    ensures
        r == refresh_wanted(cache_only, refresh_all, refresh_once, already_refreshed),
{
    if cache_only {
        return false;
    }
    if !(refresh_all || refresh_once) {
        return false;
    }
    !already_refreshed
}

/// The crossfade into a newly loaded item (nanoseconds): a pending override
/// (from a workspace switch or a first showing) wins, a playlist of one item
/// cuts, otherwise the item's own.
pub open spec fn crossfade_spec(pending: Option<u128>, playlist_len: usize, item_crossfade: u128) -> u128 {
    match pending {
        Some(d) => d,
        None => if playlist_len <= 1 {
            0
        } else {
            item_crossfade
        },
    }
}

pub fn crossfade_for(pending: Option<u128>, playlist_len: usize, item_crossfade: u128) -> (r: u128)
    ensures
        r == crossfade_spec(pending, playlist_len, item_crossfade),
        pending matches Some(d) ==> r == d,
        pending is None && playlist_len > 1 ==> r == item_crossfade,
        pending is None && playlist_len <= 1 ==> r == 0,
{
    match pending {
        Some(d) => d,
        None => if playlist_len <= 1 {
            0
        } else {
            item_crossfade
        },
    }
}

/// The crossfade into a loaded item: a pending override is used as it is;
/// without one, a playlist of more than one item fades over the item's own
/// crossfade, and a playlist of one item cuts.
pub proof fn lemma_loaded_crossfade(pending: Option<u128>, playlist_len: usize, item_crossfade: u128)
    ensures
        pending matches Some(d) ==> crossfade_spec(pending, playlist_len, item_crossfade) == d,
        pending is None && playlist_len > 1 ==> crossfade_spec(pending, playlist_len, item_crossfade)
            == item_crossfade,
        pending is None && playlist_len <= 1 ==> crossfade_spec(pending, playlist_len, item_crossfade) == 0,
{
}

/// The crossfade override a retargeted surface gets: the workspace-switch
/// crossfade when it leaves or enters a workspace mapping, none otherwise.
pub open spec fn retarget_override_spec(
    was: TargetSelectorKindOf<Seq<char>>,
    now: TargetSelectorKindOf<Seq<char>>,
    workspace_crossfade: u128,
) -> Option<u128> {
    if was is Workspace || now is Workspace {
        Some(workspace_crossfade)
    } else {
        None
    }
}

pub fn retarget_override(was: &TargetSelectorKind, now: &TargetSelectorKind, workspace_crossfade: u128) -> (r: Option<u128>)
    ensures
        r == retarget_override_spec(was@, now@, workspace_crossfade),
{
    let was_workspace = match was {
        TargetSelectorKindOf::Workspace(_) => true,
        _ => false,
    };
    let is_workspace = match now {
        TargetSelectorKindOf::Workspace(_) => true,
        _ => false,
    };
    if was_workspace || is_workspace {
        Some(workspace_crossfade)
    } else {
        None
    }
}

/// How a target is named in logs: its id, with the output name after it.
pub fn describe_target(target_id: &str, output_name: Option<&str>) -> (r: String)
    ensures
        r@ == match output_name {
            Some(o) => target_id@ + " ("@ + o@ + ")"@,
            None => target_id@,
        },
{
    match output_name {
        Some(o) => {
            let mut r = join_msg(target_id, " (");
            r.push_str(o);
            r.push_str(")");
            r
        },
        None => lit(target_id),
    }
}

/// The id of the target a surface gets when first seen.
pub fn surface_target_id(surface: u64) -> (r: String)
    ensures
        r@ == "surface:"@ + decimal(surface as nat),
{
    let d = decimal_chars(surface);
    let ds = string_of(d.as_slice());
    join_msg("surface:", ds.as_str())
}


/// The target id a surface is scheduled under.
pub open spec fn surface_tid(sid: u64) -> Seq<char> {
    "surface:"@ + decimal(sid as nat)
}

/// What the engine knows of one target.
#[derive(Debug, Clone)]
pub struct EngineTarget {
    pub surface_id: SurfaceId,
    pub output_id: Option<OutputId>,
    pub output_name: Option<String>,
    pub selector: TargetSelectorKind,
    pub playlist: String,
    pub playlist_len: usize,
    /// The crossfade (nanoseconds) the next swap uses instead of the item's.
    pub crossfade_override: Option<u128>,
    pub last_size: Option<(u32, u32)>,
}

/// Settings of the playlist engine.
#[derive(Debug, Clone, Copy)]
pub struct EngineOptions {
    pub cache_only: bool,
    pub refresh_all: bool,
    pub global_fps: Option<Fps>,
    pub global_antialias: Antialiasing,
    pub global_color_space: ColorSpaceMode,
    /// Warm-up before a crossfade (nanoseconds).
    pub prewarm: u128,
}

/// The engine's fields for a surface, resolved to playlist view `v`.
pub open spec fn target_fields(t: EngineTarget, s: SurfaceInfo, v: ResolvedView) -> bool {
    &&& t.surface_id == s.surface_id
    &&& t.output_id == s.output_id
    &&& opt_str(t.output_name) == opt_str(s.output_name)
    &&& t.last_size == s.size
    &&& t.selector@ == v.0
    &&& t.playlist@ == v.1
    &&& t.playlist_len as nat == v.2
}

pub open spec fn snapshot_opt(h: Option<&HyprlandSnapshot>) -> Option<HyprlandSnapshot> {
    match h {
        Some(x) => Some(*x),
        None => None,
    }
}


/// What syncing surface `s` does to the engine: an unmapped surface keeps
/// what it had; a surface seen for the first time gets a fresh state of its
/// playlist (shown with no crossfade); a surface whose playlist or selector
/// changed is retargeted (with the workspace-switch crossfade when a
/// workspace mapping is involved); otherwise only its output details are
/// refreshed. The change, when there is one, reports the first item.
pub open spec fn surface_outcome(
    old: &PlaylistEngine,
    new: &PlaylistEngine,
    s: SurfaceInfo,
    snap: Option<HyprlandSnapshot>,
    now: u128,
    r: Option<SelectionChange>,
) -> bool {
    let tid = surface_tid(s.surface_id.0);
    match resolve_spec(old.config_view(), s, snap) {
        None => r is None && new.engine_target(tid) == old.engine_target(tid) && new.scheduler_view().target_state(tid)
            == old.scheduler_view().target_state(tid),
        Some(v) => match old.engine_target(tid) {
            None => match (r, new.engine_target(tid)) {
                (Some(c), Some(t)) => {
                    &&& c.target.0@ == tid
                    &&& c.started_at == now
                    &&& target_fields(t, s, v)
                    &&& t.crossfade_override == Some(0u128)
                    &&& started_fresh(old, new, tid, v.1, c, now)
                },
                _ => false,
            },
            Some(o) => if o.selector@ == v.0 && o.playlist@ == v.1 {
                &&& r is None
                &&& new.engine_target(tid) matches Some(t)
                &&& t.surface_id == o.surface_id
                &&& t.output_id == s.output_id
                &&& opt_str(t.output_name) == opt_str(s.output_name)
                &&& t.last_size == s.size
                &&& t.selector@ == o.selector@
                &&& t.playlist@ == o.playlist@
                &&& t.playlist_len == o.playlist_len
                &&& t.crossfade_override == o.crossfade_override
                &&& new.scheduler_view().target_state(tid) == old.scheduler_view().target_state(tid)
            } else {
                match (r, new.engine_target(tid)) {
                    (Some(c), Some(t)) => {
                        &&& c.target.0@ == tid
                        &&& c.started_at == now
                        &&& t.surface_id == o.surface_id
                        &&& t.output_id == s.output_id
                        &&& opt_str(t.output_name) == opt_str(s.output_name)
                        &&& t.last_size == s.size
                        &&& t.selector@ == v.0
                        &&& t.playlist@ == v.1
                        &&& t.playlist_len as nat == v.2
                        &&& t.crossfade_override == retarget_override_spec(o.selector@, v.0, old.ws_crossfade_view())
                        &&& started_fresh(old, new, tid, v.1, c, now)
                    },
                    _ => false,
                }
            },
        },
    }
}

/// The scheduler shows playlist `playlist` on `tid` from its start, as the
/// change reports.
pub open spec fn started_fresh(
    old: &PlaylistEngine,
    new: &PlaylistEngine,
    tid: Seq<char>,
    playlist: Seq<char>,
    c: SelectionChange,
    now: u128,
) -> bool {
    schedule_started(old.scheduler_view(), new.scheduler_view(), tid, playlist, c, now)
}

/// Scheduler `after` shows playlist `playlist` of `before` on `tid` from its
/// start, as the change reports.
pub open spec fn schedule_started(
    before: Scheduler,
    after: Scheduler,
    tid: Seq<char>,
    playlist: Seq<char>,
    c: SelectionChange,
    now: u128,
) -> bool {
    match playlist_index(before.playlists_view(), playlist) {
        Some(i) => match after.target_state(tid) {
            Some(st) => fresh_state(st, before.playlists_view()[i].1, now) && shows(c.item, st),
            None => false,
        },
        None => false,
    }
}

/// Starts `playlist` afresh on `tid`.
fn start_playlist(sched: &mut Scheduler, tid: &str, playlist: &str, now: u128) -> (c: SelectionChange)
    requires
        old(sched).wf(),
        playlist_index(old(sched).playlists_view(), playlist@) is Some,
    ensures
        final(sched).wf(),
        final(sched).playlists_view() == old(sched).playlists_view(),
        crate::scheduler::others_unchanged(&*old(sched), &*final(sched), tid@),
        c.target.0@ == tid@,
        c.started_at == now,
        schedule_started(*old(sched), *final(sched), tid@, playlist@, c, now),
{
    let outcome = sched.set_target(TargetId(lit(tid)), playlist, now);
    match outcome {
        Ok(c) => c,
        Err(_) => {
            proof {
                assert(false);
            }
            SelectionChange {
                target: TargetId(lit(tid)),
                item: ScheduledItem {
                    handle: String::new(),
                    duration: 0,
                    fps: None,
                    antialias: None,
                    refresh_once: false,
                    crossfade: 0,
                },
                started_at: now,
            }
        },
    }
}

/// The engine's part that stays the same through a sync of one surface.
pub open spec fn sync_frame(old: &PlaylistEngine, new: &PlaylistEngine, sid: u64) -> bool {
    &&& new.wf()
    &&& new.config_view() == old.config_view()
    &&& new.options_view() == old.options_view()
    &&& new.ws_crossfade_view() == old.ws_crossfade_view()
    &&& new.refreshed_view() == old.refreshed_view()
    &&& new.scheduler_view().playlists_view() == old.scheduler_view().playlists_view()
    &&& new.mapped(sid)
    &&& forall|other: u64| other != sid ==> #[trigger] new.mapped(other) == old.mapped(other)
    &&& forall|tid: Seq<char>| tid != surface_tid(sid) ==> #[trigger] new.engine_target(tid) == old.engine_target(tid)
    &&& crate::scheduler::others_unchanged(&old.scheduler_view(), &new.scheduler_view(), surface_tid(sid))
}


/// `new` is `old` with the surfaces not among `ss` forgotten, and their
/// targets with them.
pub open spec fn pruned(old: &PlaylistEngine, new: &PlaylistEngine, ss: Seq<SurfaceInfo>) -> bool {
    &&& new.wf()
    &&& new.config_view() == old.config_view()
    &&& new.options_view() == old.options_view()
    &&& new.ws_crossfade_view() == old.ws_crossfade_view()
    &&& new.refreshed_view() == old.refreshed_view()
    &&& new.scheduler_view().playlists_view() == old.scheduler_view().playlists_view()
    &&& forall|sid: u64| #[trigger] new.mapped(sid) == (old.mapped(sid) && active_has(ss, sid))
    &&& forall|tid: Seq<char>|
        gone(old, ss, tid) ==> #[trigger] new.engine_target(tid) is None && new.scheduler_view().target_state(tid)
            is None
    &&& forall|tid: Seq<char>| !gone(old, ss, tid) ==> #[trigger] agree_at(new, old, tid)
}

/// Step `j` of a sync in turn: the `j`th surface synced on `states[j]`
/// gives `states[j + 1]` and the change `rs[j]`.
pub open spec fn sync_step(
    states: Seq<PlaylistEngine>,
    ss: Seq<SurfaceInfo>,
    snap: Option<HyprlandSnapshot>,
    now: u128,
    rs: Seq<Option<SelectionChange>>,
    j: int,
) -> bool {
    &&& sync_frame(&states[j], &states[j + 1], ss[j].surface_id.0)
    &&& surface_outcome(&states[j], &states[j + 1], ss[j], snap, now, rs[j])
}

/// The surfaces `ss` synced one after the other, from `states[0]` on, each
/// step as `sync_step` says; a surface listed twice is synced twice.
pub open spec fn synced_in_turn(
    states: Seq<PlaylistEngine>,
    ss: Seq<SurfaceInfo>,
    snap: Option<HyprlandSnapshot>,
    now: u128,
    rs: Seq<Option<SelectionChange>>,
) -> bool {
    &&& states.len() == ss.len() + 1
    &&& rs.len() == ss.len()
    &&& forall|j: int| 0 <= j < ss.len() ==> #[trigger] sync_step(states, ss, snap, now, rs, j)
}

/// Target `tid` is that of a surface `e` knows that is not among `ss`.
pub open spec fn gone(e: &PlaylistEngine, ss: Seq<SurfaceInfo>, tid: Seq<char>) -> bool {
    exists|sid: u64| e.mapped(sid) && !active_has(ss, sid) && #[trigger] surface_tid(sid) == tid
}

/// `x` and `y` hold the same of target `tid`.
pub open spec fn agree_at(x: &PlaylistEngine, y: &PlaylistEngine, tid: Seq<char>) -> bool {
    &&& x.engine_target(tid) == y.engine_target(tid)
    &&& x.scheduler_view().target_state(tid) == y.scheduler_view().target_state(tid)
}

/// Target `tid` is that of one of the first `n` surfaces of `ss`.
pub open spec fn listed(ss: Seq<SurfaceInfo>, n: int, tid: Seq<char>) -> bool {
    exists|j: int| 0 <= j < n && #[trigger] surface_tid(ss[j].surface_id.0) == tid
}

/// No other surface of `ss` has the id of the `j`th.
pub open spec fn sole(ss: Seq<SurfaceInfo>, j: int) -> bool {
    forall|i: int| 0 <= i < ss.len() && i != j ==> #[trigger] ss[i].surface_id.0 != ss[j].surface_id.0
}

/// The outcome of syncing a surface depends, of the engines before and
/// after, only on their configuration and on the surface's own target.
proof fn lemma_outcome_transfer(
    a: &PlaylistEngine,
    b: &PlaylistEngine,
    x: &PlaylistEngine,
    y: &PlaylistEngine,
    s: SurfaceInfo,
    snap: Option<HyprlandSnapshot>,
    now: u128,
    r: Option<SelectionChange>,
)
    requires
        a.config_view() == b.config_view(),
        a.ws_crossfade_view() == b.ws_crossfade_view(),
        a.scheduler_view().playlists_view() == b.scheduler_view().playlists_view(),
        agree_at(a, b, surface_tid(s.surface_id.0)),
        agree_at(x, y, surface_tid(s.surface_id.0)),
        surface_outcome(a, x, s, snap, now, r),
    ensures
        surface_outcome(b, y, s, snap, now, r),
{
}

/// Syncing a surface a second time, with the configuration and the
/// compositor as they were, is quiet: no change is reported, the surface's
/// place in its playlist stays, and its target keeps its selector and
/// playlist.
pub proof fn lemma_resync_is_quiet(
    e0: &PlaylistEngine,
    e1: &PlaylistEngine,
    e2: &PlaylistEngine,
    s: SurfaceInfo,
    snap: Option<HyprlandSnapshot>,
    t1: u128,
    t2: u128,
    r1: Option<SelectionChange>,
    r2: Option<SelectionChange>,
)
    requires
        surface_outcome(e0, e1, s, snap, t1, r1),
        e1.config_view() == e0.config_view(),
        surface_outcome(e1, e2, s, snap, t2, r2),
    ensures
        r2 is None,
        e2.scheduler_view().target_state(surface_tid(s.surface_id.0)) == e1.scheduler_view().target_state(
            surface_tid(s.surface_id.0),
        ),
        match (e1.engine_target(surface_tid(s.surface_id.0)), e2.engine_target(surface_tid(s.surface_id.0))) {
            (Some(a), Some(b)) => b.selector@ == a.selector@ && b.playlist@ == a.playlist@,
            (None, None) => true,
            _ => false,
        },
{
}

proof fn lemma_tid_differs(a: u64, b: u64)
    requires
        a != b,
    ensures
        surface_tid(a) != surface_tid(b),
{
    if surface_tid(a) == surface_tid(b) {
        lemma_surface_tid_injective(a, b);
    }
}

fn same_text(a: &str, b: &str) -> (r: bool)
    ensures
        r == (a@ == b@),
{
    let x = chars_of(a);
    let y = chars_of(b);
    chars_eq(x.as_slice(), y.as_slice())
}

fn same_selector(a: &TargetSelectorKind, b: &TargetSelectorKind) -> (r: bool)
    ensures
        r == (a@ == b@),
{
    match (a, b) {
        (TargetSelectorKindOf::Workspace(x), TargetSelectorKindOf::Workspace(y)) => same_text(x.as_str(), y.as_str()),
        (TargetSelectorKindOf::Output(x), TargetSelectorKindOf::Output(y)) => same_text(x.as_str(), y.as_str()),
        (TargetSelectorKindOf::Default, TargetSelectorKindOf::Default) => true,
        _ => false,
    }
}

fn copy_selector(a: &TargetSelectorKind) -> (r: TargetSelectorKind)
    ensures
        r@ == a@,
{
    match a {
        TargetSelectorKindOf::Workspace(x) => TargetSelectorKindOf::Workspace(lit(x.as_str())),
        TargetSelectorKindOf::Output(x) => TargetSelectorKindOf::Output(lit(x.as_str())),
        TargetSelectorKindOf::Default => TargetSelectorKindOf::Default,
    }
}

fn copy_opt_text(a: &Option<String>) -> (r: Option<String>)
    ensures
        opt_str(r) == opt_str(*a),
{
    match a {
        Some(x) => Some(lit(x.as_str())),
        None => None,
    }
}

proof fn lemma_replace_target(ts0: Seq<(TargetId, EngineTarget)>, k: int, t: EngineTarget)
    requires
        tids_unique(ts0),
        0 <= k < ts0.len(),
    ensures
        ({
            let ts1 = ts0.update(k, (ts0[k].0, t));
            &&& tids_unique(ts1)
            &&& target_in(ts1, ts0[k].0.0@) == Some(t)
            &&& forall|other: Seq<char>| other != ts0[k].0.0@ ==> #[trigger] target_in(ts1, other) == target_in(ts0, other)
        }),
{
    reveal(target_in);
    reveal(tids_unique);
    let ts1 = ts0.update(k, (ts0[k].0, t));
    assert forall|i: int, j: int| 0 <= i < j < ts1.len() implies ts1[i].0.0@ != ts1[j].0.0@ by {
        assert(ts0[i].0.0@ != ts0[j].0.0@);
    }
    lemma_target_in(ts1, k);
    assert forall|other: Seq<char>| other != ts0[k].0.0@ implies #[trigger] target_in(ts1, other) == target_in(ts0, other) by {
        if exists|i: int| 0 <= i < ts1.len() && ts1[i].0.0@ == other {
            let w = choose|i: int| 0 <= i < ts1.len() && ts1[i].0.0@ == other;
            lemma_target_in(ts1, w);
            lemma_target_in(ts0, w);
        } else {
            if exists|i: int| 0 <= i < ts0.len() && ts0[i].0.0@ == other {
                let w = choose|i: int| 0 <= i < ts0.len() && ts0[i].0.0@ == other;
                assert(ts1[w].0.0@ == other);
            }
        }
    }
}

proof fn lemma_push_target(ts0: Seq<(TargetId, EngineTarget)>, id: TargetId, t: EngineTarget)
    requires
        tids_unique(ts0),
        target_in(ts0, id.0@) is None,
    ensures
        ({
            let ts1 = ts0.push((id, t));
            &&& tids_unique(ts1)
            &&& target_in(ts1, id.0@) == Some(t)
            &&& forall|other: Seq<char>| other != id.0@ ==> #[trigger] target_in(ts1, other) == target_in(ts0, other)
        }),
{
    reveal(target_in);
    reveal(tids_unique);
    let ts1 = ts0.push((id, t));
    let n = ts0.len() as int;
    assert forall|i: int, j: int| 0 <= i < j < ts1.len() implies ts1[i].0.0@ != ts1[j].0.0@ by {
        if j == n {
            if ts0[i].0.0@ == id.0@ {
                assert(exists|q: int| 0 <= q < ts0.len() && ts0[q].0.0@ == id.0@);
            }
        } else {
            assert(ts0[i].0.0@ != ts0[j].0.0@);
        }
    }
    lemma_target_in(ts1, n);
    assert forall|other: Seq<char>| other != id.0@ implies #[trigger] target_in(ts1, other) == target_in(ts0, other) by {
        if exists|i: int| 0 <= i < ts1.len() && ts1[i].0.0@ == other {
            let w = choose|i: int| 0 <= i < ts1.len() && ts1[i].0.0@ == other;
            lemma_target_in(ts1, w);
            lemma_target_in(ts0, w);
        } else {
            if exists|i: int| 0 <= i < ts0.len() && ts0[i].0.0@ == other {
                let w = choose|i: int| 0 <= i < ts0.len() && ts0[i].0.0@ == other;
                assert(ts1[w].0.0@ == other);
            }
        }
    }
}

fn push_target(ts: &mut Vec<(TargetId, EngineTarget)>, id: TargetId, t: EngineTarget)
    requires
        tids_unique(old(ts)@),
        target_in(old(ts)@, id.0@) is None,
    ensures
        tids_unique(final(ts)@),
        target_in(final(ts)@, id.0@) == Some(t),
        forall|other: Seq<char>| other != id.0@ ==> #[trigger] target_in(final(ts)@, other) == target_in(old(ts)@, other),
{
    proof {
        lemma_push_target(ts@, id, t);
    }
    ts.push((id, t));
}

proof fn lemma_remove_target(ts0: Seq<(TargetId, EngineTarget)>, k: int)
    requires
        tids_unique(ts0),
        0 <= k < ts0.len(),
    ensures
        ({
            let ts1 = ts0.remove(k);
            &&& tids_unique(ts1)
            &&& target_in(ts1, ts0[k].0.0@) is None
            &&& forall|other: Seq<char>| other != ts0[k].0.0@ ==> #[trigger] target_in(ts1, other) == target_in(ts0, other)
        }),
{
    reveal(target_in);
    reveal(tids_unique);
    let ts1 = ts0.remove(k);
    assert forall|i: int, j: int| 0 <= i < j < ts1.len() implies ts1[i].0.0@ != ts1[j].0.0@ by {
        let a = if i < k { i } else { i + 1 };
        let b = if j < k { j } else { j + 1 };
        assert(ts0[a].0.0@ != ts0[b].0.0@);
    }
    if exists|i: int| 0 <= i < ts1.len() && ts1[i].0.0@ == ts0[k].0.0@ {
        let w = choose|i: int| 0 <= i < ts1.len() && ts1[i].0.0@ == ts0[k].0.0@;
        let a = if w < k { w } else { w + 1 };
        assert(ts0[a].0.0@ == ts0[k].0.0@);
    }
    assert forall|other: Seq<char>| other != ts0[k].0.0@ implies #[trigger] target_in(ts1, other) == target_in(ts0, other) by {
        if exists|i: int| 0 <= i < ts1.len() && ts1[i].0.0@ == other {
            let w = choose|i: int| 0 <= i < ts1.len() && ts1[i].0.0@ == other;
            let a = if w < k { w } else { w + 1 };
            assert(ts0[a].0.0@ == other);
            lemma_target_in(ts1, w);
            lemma_target_in(ts0, a);
        } else {
            if exists|i: int| 0 <= i < ts0.len() && ts0[i].0.0@ == other {
                let w = choose|i: int| 0 <= i < ts0.len() && ts0[i].0.0@ == other;
                let a = if w < k { w } else { w - 1 };
                assert(ts1[a].0.0@ == other);
            }
        }
    }
}

/// Forgets target `tid`, if there is one.
fn remove_entry(ts: &mut Vec<(TargetId, EngineTarget)>, tid: &str)
    requires
        tids_unique(old(ts)@),
    ensures
        tids_unique(final(ts)@),
        target_in(final(ts)@, tid@) is None,
        forall|other: Seq<char>| other != tid@ ==> #[trigger] target_in(final(ts)@, other) == target_in(old(ts)@, other),
{
    let want = chars_of(tid);
    let mut i: usize = 0;
    while i < ts.len()
        invariant
            i <= ts@.len(),
            want@ == tid@,
            ts@ == old(ts)@,
            tids_unique(ts@),
            forall|j: int| 0 <= j < i ==> ts@[j].0.0@ != tid@,
        decreases ts@.len() - i,
    {
        let c = chars_of(ts[i].0.0.as_str());
        if chars_eq(c.as_slice(), want.as_slice()) {
            proof {
                lemma_remove_target(ts@, i as int);
            }
            ts.remove(i);
            return;
        }
        i += 1;
    }
    proof {
        reveal(target_in);
    }
}

/// Some surface among `ss` has id `sid`.
pub open spec fn active_has(ss: Seq<SurfaceInfo>, sid: u64) -> bool {
    exists|i: int| 0 <= i < ss.len() && ss[i].surface_id.0 == sid
}

fn is_active(ss: &[SurfaceInfo], sid: u64) -> (r: bool)
    ensures
        r == active_has(ss@, sid),
{
    let mut i: usize = 0;
    while i < ss.len()
        invariant
            i <= ss@.len(),
            forall|j: int| 0 <= j < i ==> ss@[j].surface_id.0 != sid,
        decreases ss@.len() - i,
    {
        if ss[i].surface_id.0 == sid {
            return true;
        }
        i += 1;
    }
    false
}

/// Target `tid` is that of a surface among the first `n` entries of `m`
/// that is no longer among `ss`.
pub open spec fn dropped_in(m: Seq<(u64, TargetId)>, ss: Seq<SurfaceInfo>, n: int, tid: Seq<char>) -> bool {
    exists|j: int| 0 <= j < n && !active_has(ss, m[j].0) && #[trigger] m[j].1.0@ == tid
}

pub open spec fn map_has(m: Seq<(u64, TargetId)>, sid: u64) -> bool {
    exists|i: int| 0 <= i < m.len() && m[i].0 == sid
}

pub open spec fn map_ok(m: Seq<(u64, TargetId)>) -> bool {
    &&& forall|i: int, j: int| 0 <= i < j < m.len() ==> m[i].0 != m[j].0
    &&& forall|i: int| 0 <= i < m.len() ==> (#[trigger] m[i]).1.0@ == surface_tid(m[i].0)
}

/// Forgets, in the scheduler and in `ts`, every surface of `map` that is
/// not among `ss`; gives back the entries of `map` that stay.
#[verifier::rlimit(40)]
fn drop_inactive(
    map: &Vec<(u64, TargetId)>,
    ss: &[SurfaceInfo],
    sched: &mut Scheduler,
    ts: &mut Vec<(TargetId, EngineTarget)>,
) -> (kept: Vec<(u64, TargetId)>)
    requires
        old(sched).wf(),
        tids_unique(old(ts)@),
        map_ok(map@),
    ensures
        final(sched).wf(),
        final(sched).playlists_view() == old(sched).playlists_view(),
        tids_unique(final(ts)@),
        map_ok(kept@),
        forall|sid: u64| #[trigger] map_has(kept@, sid) == (map_has(map@, sid) && active_has(ss@, sid)),
        forall|tid: Seq<char>|
            #[trigger] dropped_in(map@, ss@, map@.len() as int, tid) ==> target_in(final(ts)@, tid) is None
                && final(sched).target_state(tid) is None,
        forall|tid: Seq<char>|
            !dropped_in(map@, ss@, map@.len() as int, tid) ==> #[trigger] target_in(final(ts)@, tid) == target_in(
                old(ts)@,
                tid,
            ) && final(sched).target_state(tid) == old(sched).target_state(tid),
{
    let mut kept: Vec<(u64, TargetId)> = Vec::new();
    let mut i: usize = 0;
    while i < map.len()
        invariant
            i <= map@.len(),
            map_ok(map@),
            sched.wf(),
            sched.playlists_view() == old(sched).playlists_view(),
            tids_unique(ts@),
            map_ok(kept@),
            forall|a: int| 0 <= a < kept@.len() ==> map_has(map@.take(i as int), #[trigger] kept@[a].0),
            forall|sid: u64| #[trigger] map_has(kept@, sid) == (map_has(map@.take(i as int), sid) && active_has(ss@, sid)),
            forall|tid: Seq<char>|
                #[trigger] dropped_in(map@, ss@, i as int, tid) ==> target_in(ts@, tid) is None && sched.target_state(tid)
                    is None,
            forall|tid: Seq<char>|
                !dropped_in(map@, ss@, i as int, tid) ==> #[trigger] target_in(ts@, tid) == target_in(old(ts)@, tid)
                    && sched.target_state(tid) == old(sched).target_state(tid),
        decreases map@.len() - i,
    {
        let sid = map[i].0;
        let tid = TargetId(lit(map[i].1.0.as_str()));
        let ghost kept0 = kept@;
        let ghost ts_before = ts@;
        let ghost sched_before = *sched;
        let ghost m0 = map@.take(i as int);
        let ghost m1 = map@.take(i + 1);
        if is_active(ss, sid) {
            kept.push((sid, tid));
            proof {
                assert forall|a: int, b: int| 0 <= a < b < kept@.len() implies kept@[a].0 != kept@[b].0 by {
                    if b == kept0.len() {
                        assert(map_has(map@.take(i as int), kept0[a].0));
                        let j = choose|j: int| 0 <= j < i && m0[j].0 == kept0[a].0;
                        assert(map@[j].0 != map@[i as int].0);
                    }
                }
                assert forall|a: int| 0 <= a < kept@.len() implies map_has(map@.take(i + 1), #[trigger] kept@[a].0) by {
                    if a == kept0.len() {
                        assert(m1[i as int].0 == kept@[a].0);
                    } else {
                        assert(map_has(map@.take(i as int), kept0[a].0));
                        let j = choose|j: int| 0 <= j < i && m0[j].0 == kept0[a].0;
                        assert(m1[j].0 == kept@[a].0);
                    }
                }
                assert forall|sid2: u64| #[trigger] map_has(kept@, sid2) == (map_has(map@.take(i + 1), sid2) && active_has(
                    ss@,
                    sid2,
                )) by {
                    if map_has(kept@, sid2) {
                        let a = choose|a: int| 0 <= a < kept@.len() && kept@[a].0 == sid2;
                        if a < kept0.len() {
                            assert(map_has(kept0, sid2));
                            let j = choose|j: int| 0 <= j < i && m0[j].0 == sid2;
                            assert(m1[j].0 == sid2);
                        } else {
                            assert(m1[i as int].0 == sid2);
                        }
                    }
                    if map_has(map@.take(i + 1), sid2) && active_has(ss@, sid2) {
                        let j = choose|j: int| 0 <= j < i + 1 && m1[j].0 == sid2;
                        if j == i {
                            assert(kept@[kept0.len() as int].0 == sid2);
                        } else {
                            assert(m0[j].0 == sid2);
                            assert(map_has(kept0, sid2));
                            let a = choose|a: int| 0 <= a < kept0.len() && kept0[a].0 == sid2;
                            assert(kept@[a].0 == sid2);
                        }
                    }
                }
                assert forall|tid2: Seq<char>| dropped_in(map@, ss@, i + 1, tid2) == dropped_in(map@, ss@, i as int, tid2) by {
                    if dropped_in(map@, ss@, i + 1, tid2) {
                        let j = choose|j: int| 0 <= j < i + 1 && !active_has(ss@, map@[j].0) && #[trigger] map@[j].1.0@ == tid2;
                        assert(j != i);
                    }
                }
            }
        } else {
            sched.remove_target(&tid);
            remove_entry(ts, tid.0.as_str());
            proof {
                assert forall|sid2: u64| #[trigger] map_has(kept@, sid2) == (map_has(map@.take(i + 1), sid2) && active_has(
                    ss@,
                    sid2,
                )) by {
                    if map_has(map@.take(i + 1), sid2) && active_has(ss@, sid2) {
                        let j = choose|j: int| 0 <= j < i + 1 && m1[j].0 == sid2;
                        assert(j != i);
                        assert(m0[j].0 == sid2);
                    }
                    if map_has(map@.take(i as int), sid2) {
                        let j = choose|j: int| 0 <= j < i && m0[j].0 == sid2;
                        assert(m1[j].0 == sid2);
                    }
                }
                assert(map@[i as int].1.0@ == tid.0@);
                assert forall|tid2: Seq<char>| #[trigger] dropped_in(map@, ss@, i + 1, tid2) implies target_in(ts@, tid2) is None
                    && sched.target_state(tid2) is None by {
                    if tid2 != tid.0@ {
                        let j = choose|j: int| 0 <= j < i + 1 && !active_has(ss@, map@[j].0) && #[trigger] map@[j].1.0@ == tid2;
                        assert(dropped_in(map@, ss@, i as int, tid2));
                    }
                }
                assert forall|tid2: Seq<char>| !dropped_in(map@, ss@, i + 1, tid2) implies #[trigger] target_in(ts@, tid2)
                    == target_in(old(ts)@, tid2) && sched.target_state(tid2) == old(sched).target_state(tid2) by {
                    assert(tid2 != tid.0@);
                    if dropped_in(map@, ss@, i as int, tid2) {
                        let j = choose|j: int| 0 <= j < i && !active_has(ss@, map@[j].0) && #[trigger] map@[j].1.0@ == tid2;
                        assert(dropped_in(map@, ss@, i + 1, tid2));
                    }
                }
            }
        }
        i += 1;
    }
    proof {
        assert(map@.take(map@.len() as int) =~= map@);
    }
    kept
}

/// What a loaded item is shown with on its surface.
#[derive(Debug, Clone)]
pub struct Activation {
    /// The crossfade into it (nanoseconds).
    pub crossfade: u128,
    pub target_display: String,
    pub surface_id: SurfaceId,
}

/// The frame rate, antialiasing and colour space a swap uses: the item's
/// own where it sets them, else the global ones; the colour space as
/// `resolve_color_space` settles it against the shader's manifest.
pub fn swap_settings(
    item: &ScheduledItem,
    global_fps: Option<Fps>,
    global_antialias: Antialiasing,
    global_color: ColorSpaceMode,
    manifest_color: ColorSpaceMode,
) -> (r: (Option<Fps>, Antialiasing, ColorSpaceMode))
    ensures
        r.0 == match item.fps {
            Some(f) => Some(f),
            None => global_fps,
        },
        r.1 == match item.antialias {
            Some(a) => antialias_of(a),
            None => global_antialias,
        },
        global_color != ColorSpaceMode::Auto ==> r.2 == global_color,
        global_color == ColorSpaceMode::Auto && manifest_color != ColorSpaceMode::Auto ==> r.2 == manifest_color,
        global_color == ColorSpaceMode::Auto && manifest_color == ColorSpaceMode::Auto ==> r.2 == ColorSpaceMode::Gamma,
{
    let fps = match item.fps {
        Some(f) => Some(f),
        None => global_fps,
    };
    let antialiasing = match item.antialias {
        Some(a) => map_antialias(a),
        None => global_antialias,
    };
    (fps, antialiasing, crate::wallshader::bindings::resolve_color_space(global_color, manifest_color))
}

/// The shader a multi-playlist run starts from: the first item of the
/// default playlist when it has one, else the first item of the first
/// playlist.
pub open spec fn bootstrap_spec(c: MultiConfig) -> Option<Seq<char>> {
    let by_default = match c.defaults.playlist {
        Some(d) => match first_named(c.playlists@, d@) {
            Some(i) => if c.playlists@[i].1.items@.len() > 0 {
                Some(c.playlists@[i].1.items@[0].handle@)
            } else {
                None
            },
            None => None,
        },
        None => None,
    };
    if by_default is Some {
        by_default
    } else if c.playlists@.len() > 0 && c.playlists@[0].1.items@.len() > 0 {
        Some(c.playlists@[0].1.items@[0].handle@)
    } else {
        None
    }
}

/// See `bootstrap_spec`.
pub fn bootstrap_handle(config: &MultiConfig) -> (r: Option<String>)
    ensures
        match r {
            Some(h) => bootstrap_spec(*config) == Some(h@),
            None => bootstrap_spec(*config) is None,
        },
{
    if let Some(d) = config.default_playlist() {
        if let Some(p) = config.playlist(d) {
            if p.items.len() > 0 {
                return Some(lit(p.items[0].handle.as_str()));
            }
        }
    }
    if config.playlists.len() > 0 && config.playlists[0].1.items.len() > 0 {
        return Some(lit(config.playlists[0].1.items[0].handle.as_str()));
    }
    None
}

/// The sizes of a windowed multi-playlist run (the requested one, and the
/// one used until the window has one, 1280x720 by default); such a run
/// needs a default playlist.
pub fn plan_window_run(config: &MultiConfig, size: Option<&str>) -> (r: Result<(Option<(u32, u32)>, (u32, u32)), String>)
    ensures
        config.defaults.playlist is None ==> (r matches Err(m) && m@ == "window mode requires defaults.playlist to be set"@),
        config.defaults.playlist is Some ==> match size {
            None => r == Ok::<(Option<(u32, u32)>, (u32, u32)), String>((None, (1280u32, 720u32))),
            Some(v) => match crate::setup::surface_size_value(v@) {
                Ok(sz) => r == Ok::<(Option<(u32, u32)>, (u32, u32)), String>((Some(sz), sz)),
                Err(e) => r matches Err(m) && m@ == e,
            },
        },
{
    if config.default_playlist().is_none() {
        return Err(lit("window mode requires defaults.playlist to be set"));
    }
    match size {
        None => Ok((None, (1280, 720))),
        Some(v) => match crate::hyshadew::bootstrap::parse_surface_size(v) {
            Ok(sz) => Ok((Some(sz), sz)),
            Err(e) => Err(e),
        },
    }
}

/// Which playlist each surface shows, and which item, driven by the
/// scheduler.
pub struct PlaylistEngine {
    config: MultiConfig,
    scheduler: Scheduler,
    options: EngineOptions,
    refreshed: Vec<String>,
    targets: Vec<(TargetId, EngineTarget)>,
    surface_map: Vec<(u64, TargetId)>,
    workspace_crossfade: u128,
}

#[verifier::opaque]
pub open spec fn target_in(ts: Seq<(TargetId, EngineTarget)>, tid: Seq<char>) -> Option<EngineTarget> {
    if exists|i: int| 0 <= i < ts.len() && ts[i].0.0@ == tid {
        Some(ts[choose|i: int| 0 <= i < ts.len() && ts[i].0.0@ == tid].1)
    } else {
        None
    }
}

#[verifier::opaque]
pub open spec fn tids_unique(ts: Seq<(TargetId, EngineTarget)>) -> bool {
    forall|i: int, j: int| 0 <= i < j < ts.len() ==> ts[i].0.0@ != ts[j].0.0@
}

proof fn lemma_target_in(ts: Seq<(TargetId, EngineTarget)>, k: int)
    requires
        tids_unique(ts),
        0 <= k < ts.len(),
    ensures
        target_in(ts, ts[k].0.0@) == Some(ts[k].1),
{
    reveal(target_in);
    reveal(tids_unique);
    let w = choose|i: int| 0 <= i < ts.len() && ts[i].0.0@ == ts[k].0.0@;
    if w < k {
    } else if w > k {
    }
}

proof fn lemma_surface_tid_injective(a: u64, b: u64)
    requires
        surface_tid(a) == surface_tid(b),
    ensures
        a == b,
{
    let pre = "surface:"@;
    assert(decimal(a as nat) =~= surface_tid(a).skip(pre.len() as int));
    assert(decimal(b as nat) =~= surface_tid(b).skip(pre.len() as int));
    crate::shadertoy::remote::lemma_decimal_injective(a as nat, b as nat);
}

impl PlaylistEngine {
    pub closed spec fn config_view(&self) -> MultiConfig {
        self.config
    }

    pub closed spec fn scheduler_view(&self) -> Scheduler {
        self.scheduler
    }

    pub closed spec fn options_view(&self) -> EngineOptions {
        self.options
    }

    pub closed spec fn ws_crossfade_view(&self) -> u128 {
        self.workspace_crossfade
    }

    pub closed spec fn refreshed_view(&self) -> Seq<Seq<char>> {
        strings_view(self.refreshed@)
    }

    /// The engine's record of target `tid`.
    pub closed spec fn engine_target(&self, tid: Seq<char>) -> Option<EngineTarget> {
        target_in(self.targets@, tid)
    }

    /// Surface `sid` is known to the engine.
    pub closed spec fn mapped(&self, sid: u64) -> bool {
        map_has(self.surface_map@, sid)
    }

    pub closed spec fn wf(&self) -> bool {
        &&& self.scheduler.wf()
        &&& self.scheduler.playlists_view().len() == self.config.playlists@.len()
        &&& forall|i: int|
            0 <= i < self.config.playlists@.len() ==> (#[trigger] self.scheduler.playlists_view()[i]).0@
                == self.config.playlists@[i].0@
        &&& map_ok(self.surface_map@)
        &&& tids_unique(self.targets@)
    }

    /// An engine for a configuration whose playlists all have items, with
    /// its generator seeded from `seed`.
    pub fn new(config: MultiConfig, seed: u64, options: EngineOptions) -> (r: Self)
        requires
            config_playlists_nonempty(config),
        ensures
            r.wf(),
            r.config_view() == config,
            r.options_view() == options,
            r.ws_crossfade_view() == match config.workspace_switch_crossfade {
                Some(d) => d,
                None => crate::multiconfig::ONE_SECOND_NANOS,
            },
            forall|sid: u64| !r.mapped(sid),
            forall|tid: Seq<char>| r.engine_target(tid) is None,
    {
        let workspace_crossfade = config.workspace_switch_crossfade();
        let scheduler = Scheduler::new(&config, seed);
        proof {
            reveal(target_in);
            reveal(tids_unique);
        }
        PlaylistEngine {
            config,
            scheduler,
            options,
            refreshed: Vec::new(),
            targets: Vec::new(),
            surface_map: Vec::new(),
            workspace_crossfade,
        }
    }


    fn ensure_mapped(&mut self, sid: u64)
        requires
            old(self).wf(),
        ensures
            final(self).wf(),
            final(self).mapped(sid),
            forall|other: u64| other != sid ==> #[trigger] final(self).mapped(other) == old(self).mapped(other),
            final(self).targets@ == old(self).targets@,
            final(self).scheduler == old(self).scheduler,
            final(self).config == old(self).config,
            final(self).options == old(self).options,
            final(self).workspace_crossfade == old(self).workspace_crossfade,
            final(self).refreshed@ == old(self).refreshed@,
    {
        let mut i: usize = 0;
        while i < self.surface_map.len()
            invariant
                i <= self.surface_map@.len(),
                self.wf(),
                forall|j: int| 0 <= j < i ==> self.surface_map@[j].0 != sid,
            decreases self.surface_map@.len() - i,
        {
            if self.surface_map[i].0 == sid {
                return;
            }
            i += 1;
        }
        let ghost before = self.surface_map@;
        self.surface_map.push((sid, TargetId(surface_target_id(sid))));
        proof {
            assert(self.surface_map@[before.len() as int].0 == sid);
            assert forall|other: u64| other != sid implies #[trigger] self.mapped(other) == old(self).mapped(other) by {
                if self.mapped(other) {
                    let j = choose|j: int| 0 <= j < self.surface_map@.len() && self.surface_map@[j].0 == other;
                    assert(j < before.len());
                    assert(before[j].0 == other);
                }
                if old(self).mapped(other) {
                    let j = choose|j: int| 0 <= j < before.len() && before[j].0 == other;
                    assert(self.surface_map@[j].0 == other);
                }
            }
        }
    }

    fn find_target(&self, tid: &str) -> (r: Option<usize>)
        requires
            self.wf(),
        ensures
            match r {
                Some(k) => k < self.targets@.len() && self.targets@[k as int].0.0@ == tid@ && self.engine_target(tid@)
                    == Some(self.targets@[k as int].1),
                None => self.engine_target(tid@) is None,
            },
    {
        let want = chars_of(tid);
        let mut i: usize = 0;
        while i < self.targets.len()
            invariant
                i <= self.targets@.len(),
                want@ == tid@,
                self.wf(),
                forall|j: int| 0 <= j < i ==> self.targets@[j].0.0@ != tid@,
            decreases self.targets@.len() - i,
        {
            let c = chars_of(self.targets[i].0.0.as_str());
            if chars_eq(c.as_slice(), want.as_slice()) {
                proof {
                    lemma_target_in(self.targets@, i as int);
                }
                return Some(i);
            }
            i += 1;
        }
        proof {
            reveal(target_in);
        }
        None
    }



    /// Registers a surface seen for the first time under `tid_text`.
    #[verifier::rlimit(60)]
    fn register_target(&mut self, s: &SurfaceInfo, resolved: ResolvedTarget, tid_text: String, now: u128) -> (r:
        SelectionChange)
        requires
            old(self).wf(),
            old(self).mapped(s.surface_id.0),
            tid_text@ == surface_tid(s.surface_id.0),
            old(self).engine_target(tid_text@) is None,
            first_named(old(self).config_view().playlists@, resolved.playlist@) is Some,
        ensures
            final(self).wf(),
            final(self).config_view() == old(self).config_view(),
            final(self).options_view() == old(self).options_view(),
            final(self).ws_crossfade_view() == old(self).ws_crossfade_view(),
            final(self).refreshed_view() == old(self).refreshed_view(),
            final(self).scheduler_view().playlists_view() == old(self).scheduler_view().playlists_view(),
            forall|sid: u64| #[trigger] final(self).mapped(sid) == old(self).mapped(sid),
            forall|tid: Seq<char>| tid != tid_text@ ==> #[trigger] final(self).engine_target(tid) == old(self).engine_target(tid),
            crate::scheduler::others_unchanged(&old(self).scheduler_view(), &final(self).scheduler_view(), tid_text@),
            r.target.0@ == tid_text@,
            r.started_at == now,
            final(self).engine_target(tid_text@) matches Some(t) && target_fields(t, *s, resolved_view(resolved))
                && t.crossfade_override == Some(0u128),
            started_fresh(&*old(self), &*final(self), tid_text@, resolved.playlist@, r, now),
    {
        proof {
            crate::scheduler::lemma_playlist_known(self.scheduler.playlists_view(), self.config, resolved.playlist@);
        }
        let target = EngineTarget {
            surface_id: s.surface_id,
            output_id: s.output_id,
            output_name: copy_opt_text(&s.output_name),
            selector: copy_selector(&resolved.selector),
            playlist: lit(resolved.playlist.as_str()),
            playlist_len: resolved.playlist_len,
            crossfade_override: Some(0),
            last_size: s.size,
        };
        let tid = lit(tid_text.as_str());
        let ghost sm = self.surface_map@;
        push_target(&mut self.targets, TargetId(tid_text), target);
        let r = start_playlist(&mut self.scheduler, tid.as_str(), resolved.playlist.as_str(), now);
        assert(self.surface_map@ == sm);
        assert(forall|sid: u64| #[trigger] self.mapped(sid) == old(self).mapped(sid));
        r
    }

    /// Refreshes the surface's target at index `k`, retargeting it when its
    /// selector or playlist changed.
    #[verifier::rlimit(60)]
    fn update_target(&mut self, k: usize, s: &SurfaceInfo, resolved: ResolvedTarget, tid_text: String, now: u128) -> (r:
        Option<SelectionChange>)
        requires
            old(self).wf(),
            k < old(self).targets@.len(),
            old(self).targets@[k as int].0.0@ == tid_text@,
            tid_text@ == surface_tid(s.surface_id.0),
            first_named(old(self).config_view().playlists@, resolved.playlist@) is Some,
        ensures
            final(self).wf(),
            final(self).config_view() == old(self).config_view(),
            final(self).options_view() == old(self).options_view(),
            final(self).ws_crossfade_view() == old(self).ws_crossfade_view(),
            final(self).refreshed_view() == old(self).refreshed_view(),
            final(self).scheduler_view().playlists_view() == old(self).scheduler_view().playlists_view(),
            forall|sid: u64| #[trigger] final(self).mapped(sid) == old(self).mapped(sid),
            forall|tid: Seq<char>| tid != tid_text@ ==> #[trigger] final(self).engine_target(tid) == old(self).engine_target(tid),
            crate::scheduler::others_unchanged(&old(self).scheduler_view(), &final(self).scheduler_view(), tid_text@),
            ({
                let o = old(self).targets@[k as int].1;
                let v = resolved_view(resolved);
                if o.selector@ == v.0 && o.playlist@ == v.1 {
                    &&& r is None
                    &&& final(self).engine_target(tid_text@) matches Some(t)
                    &&& t.surface_id == o.surface_id
                    &&& t.output_id == s.output_id
                    &&& opt_str(t.output_name) == opt_str(s.output_name)
                    &&& t.last_size == s.size
                    &&& t.selector@ == o.selector@
                    &&& t.playlist@ == o.playlist@
                    &&& t.playlist_len == o.playlist_len
                    &&& t.crossfade_override == o.crossfade_override
                    &&& final(self).scheduler_view().target_state(tid_text@) == old(self).scheduler_view().target_state(tid_text@)
                } else {
                    match (r, final(self).engine_target(tid_text@)) {
                        (Some(c), Some(t)) => {
                            &&& c.target.0@ == tid_text@
                            &&& c.started_at == now
                            &&& t.surface_id == o.surface_id
                            &&& t.output_id == s.output_id
                            &&& opt_str(t.output_name) == opt_str(s.output_name)
                            &&& t.last_size == s.size
                            &&& t.selector@ == v.0
                            &&& t.playlist@ == v.1
                            &&& t.playlist_len as nat == v.2
                            &&& t.crossfade_override == retarget_override_spec(o.selector@, v.0, old(self).ws_crossfade_view())
                            &&& started_fresh(&*old(self), &*final(self), tid_text@, v.1, c, now)
                        },
                        _ => false,
                    }
                }
            }),
    {
        let ghost ts0 = self.targets@;
        let ghost sm = self.surface_map@;
        let (id, mut target) = self.targets.remove(k);
        target.output_id = s.output_id;
        target.output_name = copy_opt_text(&s.output_name);
        target.last_size = s.size;
        let same = same_selector(&target.selector, &resolved.selector) && same_text(
            target.playlist.as_str(),
            resolved.playlist.as_str(),
        );
        if same {
            proof {
                lemma_replace_target(ts0, k as int, target);
            }
            self.targets.insert(k, (id, target));
            proof {
                assert(self.targets@ =~= ts0.update(k as int, (ts0[k as int].0, target)));
                assert(self.surface_map@ == sm);
            }
            return None;
        }
        proof {
            crate::scheduler::lemma_playlist_known(self.scheduler.playlists_view(), self.config, resolved.playlist@);
        }
        let change = start_playlist(&mut self.scheduler, tid_text.as_str(), resolved.playlist.as_str(), now);
        let crossfade_override = retarget_override(&target.selector, &resolved.selector, self.workspace_crossfade);
        target.selector = copy_selector(&resolved.selector);
        target.playlist = lit(resolved.playlist.as_str());
        target.playlist_len = resolved.playlist_len;
        target.crossfade_override = crossfade_override;
        proof {
            lemma_replace_target(ts0, k as int, target);
        }
        self.targets.insert(k, (id, target));
        proof {
            assert(self.targets@ =~= ts0.update(k as int, (ts0[k as int].0, target)));
            assert(self.surface_map@ == sm);
        }
        Some(change)
    }

    /// Forgets every surface not among `ss`, and its target.
    fn prune(&mut self, ss: &[SurfaceInfo])
        requires
            old(self).wf(),
        ensures
            final(self).wf(),
            final(self).config_view() == old(self).config_view(),
            final(self).options_view() == old(self).options_view(),
            final(self).ws_crossfade_view() == old(self).ws_crossfade_view(),
            final(self).refreshed_view() == old(self).refreshed_view(),
            final(self).scheduler_view().playlists_view() == old(self).scheduler_view().playlists_view(),
            forall|sid: u64| #[trigger] final(self).mapped(sid) == (old(self).mapped(sid) && active_has(ss@, sid)),
            forall|tid: Seq<char>|
                gone(&*old(self), ss@, tid) ==> #[trigger] final(self).engine_target(tid) is None
                    && final(self).scheduler_view().target_state(tid) is None,
            forall|tid: Seq<char>| !gone(&*old(self), ss@, tid) ==> #[trigger] agree_at(&*final(self), &*old(self), tid),
    {
        let ghost m = self.surface_map@;
        let kept = drop_inactive(&self.surface_map, ss, &mut self.scheduler, &mut self.targets);
        self.surface_map = kept;
        proof {
            let n = m.len() as int;
            assert forall|tid: Seq<char>| #[trigger] gone(&*old(self), ss@, tid) == dropped_in(m, ss@, n, tid) by {
                if gone(&*old(self), ss@, tid) {
                    let sid = choose|sid: u64| old(self).mapped(sid) && !active_has(ss@, sid) && #[trigger] surface_tid(sid) == tid;
                    let i = choose|i: int| 0 <= i < m.len() && m[i].0 == sid;
                    assert(m[i].1.0@ == tid);
                }
                if dropped_in(m, ss@, n, tid) {
                    let j = choose|j: int| 0 <= j < n && !active_has(ss@, m[j].0) && #[trigger] m[j].1.0@ == tid;
                    assert(old(self).mapped(m[j].0));
                    assert(surface_tid(m[j].0) == tid);
                }
            }
        }
    }

    /// Brings the engine up to date with the surfaces `surfaces`: those no
    /// longer there are forgotten, then each is synced in turn (see
    /// `synced_in_turn`; a surface listed twice is synced twice, the second
    /// time on what the first left); the result holds, for each surface, the
    /// change it made.
    #[verifier::rlimit(60)]
    pub fn sync_targets(&mut self, surfaces: &[SurfaceInfo], hyprland: Option<&HyprlandSnapshot>, now: u128) -> (r: Vec<
        Option<SelectionChange>,
    >)
        requires
            old(self).wf(),
        ensures
            final(self).wf(),
            final(self).config_view() == old(self).config_view(),
            final(self).options_view() == old(self).options_view(),
            final(self).ws_crossfade_view() == old(self).ws_crossfade_view(),
            final(self).refreshed_view() == old(self).refreshed_view(),
            final(self).scheduler_view().playlists_view() == old(self).scheduler_view().playlists_view(),
            r@.len() == surfaces@.len(),
            forall|sid: u64| #[trigger] final(self).mapped(sid) == active_has(surfaces@, sid),
            forall|tid: Seq<char>|
                gone(&*old(self), surfaces@, tid) ==> #[trigger] final(self).engine_target(tid) is None
                    && final(self).scheduler_view().target_state(tid) is None,
            forall|j: int|
                0 <= j < surfaces@.len() && sole(surfaces@, j) ==> surface_outcome(
                    &*old(self),
                    &*final(self),
                    #[trigger] surfaces@[j],
                    snapshot_opt(hyprland),
                    now,
                    r@[j],
                ),
            forall|tid: Seq<char>|
                !gone(&*old(self), surfaces@, tid) && !listed(surfaces@, surfaces@.len() as int, tid)
                    ==> #[trigger] agree_at(&*final(self), &*old(self), tid),
            exists|states: Seq<PlaylistEngine>|
                #[trigger] synced_in_turn(states, surfaces@, snapshot_opt(hyprland), now, r@) && pruned(
                    &*old(self),
                    &states[0],
                    surfaces@,
                ) && states.last() == *final(self),
    {
        self.prune(surfaces);
        let ghost e0 = *self;
        let ghost mut states: Seq<PlaylistEngine> = seq![e0];
        assert(pruned(&*old(self), &e0, surfaces@));
        let mut out: Vec<Option<SelectionChange>> = Vec::new();
        let mut i: usize = 0;
        while i < surfaces.len()
            invariant
                i <= surfaces@.len(),
                out@.len() == i,
                self.wf(),
                self.config_view() == old(self).config_view(),
                self.options_view() == old(self).options_view(),
                self.ws_crossfade_view() == old(self).ws_crossfade_view(),
                self.refreshed_view() == old(self).refreshed_view(),
                self.scheduler_view().playlists_view() == old(self).scheduler_view().playlists_view(),
                forall|sid: u64| #[trigger] e0.mapped(sid) == (old(self).mapped(sid) && active_has(surfaces@, sid)),
                forall|tid: Seq<char>|
                    gone(&*old(self), surfaces@, tid) ==> #[trigger] e0.engine_target(tid) is None
                        && e0.scheduler_view().target_state(tid) is None,
                forall|tid: Seq<char>| !gone(&*old(self), surfaces@, tid) ==> #[trigger] agree_at(&e0, &*old(self), tid),
                forall|sid: u64|
                    #[trigger] self.mapped(sid) == (e0.mapped(sid) || exists|j: int|
                        0 <= j < i && surfaces@[j].surface_id.0 == sid),
                forall|tid: Seq<char>| !listed(surfaces@, i as int, tid) ==> #[trigger] agree_at(&*self, &e0, tid),
                states.len() == i + 1,
                states[0] == e0,
                states.last() == *self,
                forall|j: int| 0 <= j < i ==> #[trigger] sync_step(states, surfaces@, snapshot_opt(hyprland), now, out@, j),
                forall|j: int|
                    0 <= j < i && sole(surfaces@, j) ==> surface_outcome(
                        &*old(self),
                        &*self,
                        #[trigger] surfaces@[j],
                        snapshot_opt(hyprland),
                        now,
                        out@[j],
                    ),
            decreases surfaces@.len() - i,
        {
            let ghost pre = *self;
            let s = &surfaces[i];
            let r = self.sync_surface(s, hyprland, now);
            let ghost out_before = out@;
            out.push(r);
            proof {
                let states_before = states;
                states = states.push(*self);
                assert(states[i as int] == pre);
                assert(surfaces@[i as int] == *s);
                assert(sync_step(states, surfaces@, snapshot_opt(hyprland), now, out@, i as int));
                assert forall|j: int| 0 <= j < i + 1 implies #[trigger] sync_step(
                    states,
                    surfaces@,
                    snapshot_opt(hyprland),
                    now,
                    out@,
                    j,
                ) by {
                    if j < i {
                        assert(sync_step(states_before, surfaces@, snapshot_opt(hyprland), now, out_before, j));
                        assert(states[j] == states_before[j]);
                        assert(states[j + 1] == states_before[j + 1]);
                        assert(out@[j] == out_before[j]);
                    }
                }
                let sid = s.surface_id.0;
                let tid = surface_tid(sid);
                assert(surfaces@[i as int] == *s);
                assert forall|sid2: u64| #[trigger] self.mapped(sid2) == (e0.mapped(sid2) || exists|j: int|
                    0 <= j < i + 1 && surfaces@[j].surface_id.0 == sid2) by {
                    if sid2 == sid {
                        assert(surfaces@[i as int].surface_id.0 == sid2);
                    } else if exists|j: int| 0 <= j < i + 1 && surfaces@[j].surface_id.0 == sid2 {
                        let j = choose|j: int| 0 <= j < i + 1 && surfaces@[j].surface_id.0 == sid2;
                        assert(j < i);
                    }
                }
                assert forall|tid2: Seq<char>| !listed(surfaces@, i + 1, tid2) implies #[trigger] agree_at(&*self, &e0, tid2) by {
                    assert(surface_tid(surfaces@[i as int].surface_id.0) == tid);
                    if tid2 == tid {
                        assert(listed(surfaces@, i + 1, tid2));
                    }
                    if listed(surfaces@, i as int, tid2) {
                        let j = choose|j: int| 0 <= j < i && #[trigger] surface_tid(surfaces@[j].surface_id.0) == tid2;
                        assert(listed(surfaces@, i + 1, tid2));
                    }
                    assert(agree_at(&pre, &e0, tid2));
                }
                assert forall|j: int|
                    0 <= j < i + 1 && sole(surfaces@, j) implies surface_outcome(
                        &*old(self),
                        &*self,
                        #[trigger] surfaces@[j],
                        snapshot_opt(hyprland),
                        now,
                        out@[j],
                    ) by {
                    if j == i {
                        // the surface's own target was untouched before this step
                        if listed(surfaces@, i as int, tid) {
                            let q = choose|q: int| 0 <= q < i && #[trigger] surface_tid(surfaces@[q].surface_id.0) == tid;
                            lemma_surface_tid_injective(surfaces@[q].surface_id.0, sid);
                            assert(surfaces@[q].surface_id.0 != surfaces@[j].surface_id.0);
                        }
                        if gone(&*old(self), surfaces@, tid) {
                            let g = choose|g: u64| old(self).mapped(g) && !active_has(surfaces@, g) && #[trigger] surface_tid(g) == tid;
                            lemma_surface_tid_injective(g, sid);
                            assert(active_has(surfaces@, sid));
                        }
                        assert(agree_at(&pre, &e0, tid));
                        assert(agree_at(&e0, &*old(self), tid));
                        lemma_outcome_transfer(&pre, &*old(self), &*self, &*self, *s, snapshot_opt(hyprland), now, r);
                    } else {
                        let sj = surfaces@[j].surface_id.0;
                        assert(surfaces@[i as int].surface_id.0 != sj);
                        lemma_tid_differs(sid, sj);
                        assert(agree_at(&*self, &pre, surface_tid(sj)));
                        lemma_outcome_transfer(
                            &*old(self),
                            &*old(self),
                            &pre,
                            &*self,
                            surfaces@[j],
                            snapshot_opt(hyprland),
                            now,
                            out@[j],
                        );
                    }
                }
            }
            i += 1;
        }
        proof {
            assert forall|sid: u64| #[trigger] self.mapped(sid) == active_has(surfaces@, sid) by {
                if active_has(surfaces@, sid) {
                    let j = choose|j: int| 0 <= j < surfaces@.len() && surfaces@[j].surface_id.0 == sid;
                    assert(exists|q: int| 0 <= q < i && surfaces@[q].surface_id.0 == sid);
                }
                if exists|q: int| 0 <= q < i && surfaces@[q].surface_id.0 == sid {
                    let q = choose|q: int| 0 <= q < i && surfaces@[q].surface_id.0 == sid;
                    assert(active_has(surfaces@, sid));
                }
            }
            assert forall|tid: Seq<char>| gone(&*old(self), surfaces@, tid) implies #[trigger] self.engine_target(tid) is None
                && self.scheduler_view().target_state(tid) is None by {
                let g = choose|g: u64| old(self).mapped(g) && !active_has(surfaces@, g) && #[trigger] surface_tid(g) == tid;
                if listed(surfaces@, i as int, tid) {
                    let q = choose|q: int| 0 <= q < i && #[trigger] surface_tid(surfaces@[q].surface_id.0) == tid;
                    lemma_surface_tid_injective(surfaces@[q].surface_id.0, g);
                    assert(active_has(surfaces@, g));
                }
                assert(agree_at(&*self, &e0, tid));
            }
            assert forall|tid: Seq<char>| !gone(&*old(self), surfaces@, tid) && !listed(surfaces@, surfaces@.len() as int, tid)
                implies #[trigger] agree_at(&*self, &*old(self), tid) by {
                assert(agree_at(&*self, &e0, tid));
                assert(agree_at(&e0, &*old(self), tid));
            }
            assert(synced_in_turn(states, surfaces@, snapshot_opt(hyprland), now, out@));
            assert(pruned(&*old(self), &states[0], surfaces@));
        }
        out
    }

    /// Brings the engine up to date with one surface (see `surface_outcome`).
    #[verifier::rlimit(60)]
    pub fn sync_surface(&mut self, s: &SurfaceInfo, hyprland: Option<&HyprlandSnapshot>, now: u128) -> (r: Option<
        SelectionChange,
    >)
        requires
            old(self).wf(),
        ensures
            sync_frame(&*old(self), &*final(self), s.surface_id.0),
            surface_outcome(&*old(self), &*final(self), *s, snapshot_opt(hyprland), now, r),
    {
        let sid = s.surface_id.0;
        self.ensure_mapped(sid);
        let tid_text = surface_target_id(sid);
        let outcome = {
            let resolver = TargetResolver::new(&self.config);
            resolver.resolve(s, hyprland)
        };
        let resolved = match outcome {
            Ok(t) => t,
            Err(_) => {
                return None;
            },
        };
        proof {
            lemma_resolved_is_named(self.config, *s, snapshot_opt(hyprland));
        }
        match self.find_target(tid_text.as_str()) {
            None => Some(self.register_target(s, resolved, tid_text, now)),
            Some(k) => self.update_target(k, s, resolved, tid_text, now),
        }
    }

    /// Moves on every target whose item has run its course (see
    /// `Scheduler::tick`).
    pub fn tick(&mut self, now: u128) -> (r: Vec<SelectionChange>)
        requires
            old(self).wf(),
        ensures
            final(self).wf(),
            final(self).config_view() == old(self).config_view(),
            final(self).options_view() == old(self).options_view(),
            final(self).ws_crossfade_view() == old(self).ws_crossfade_view(),
            final(self).refreshed_view() == old(self).refreshed_view(),
            final(self).scheduler_view().playlists_view() == old(self).scheduler_view().playlists_view(),
            forall|sid: u64| #[trigger] final(self).mapped(sid) == old(self).mapped(sid),
            forall|tid: Seq<char>| #[trigger] final(self).engine_target(tid) == old(self).engine_target(tid),
            crate::scheduler::tick_report(
                old(self).scheduler_view().targets_view(),
                final(self).scheduler_view().targets_view(),
                r@,
                now,
            ),
    {
        let ghost sm = self.surface_map@;
        let r = self.scheduler.tick(now);
        assert(self.surface_map@ == sm);
        r
    }

    /// Moves the surface `sid` on to its next item; a surface the engine
    /// does not know is left alone (see `skip_outcome`).
    pub fn skip_surface(&mut self, sid: u64, now: u128) -> (r: Option<SelectionChange>)
        requires
            old(self).wf(),
        ensures
            final(self).wf(),
            final(self).config_view() == old(self).config_view(),
            final(self).options_view() == old(self).options_view(),
            final(self).ws_crossfade_view() == old(self).ws_crossfade_view(),
            final(self).refreshed_view() == old(self).refreshed_view(),
            final(self).scheduler_view().playlists_view() == old(self).scheduler_view().playlists_view(),
            forall|s2: u64| #[trigger] final(self).mapped(s2) == old(self).mapped(s2),
            forall|tid: Seq<char>| #[trigger] final(self).engine_target(tid) == old(self).engine_target(tid),
            if old(self).mapped(sid) {
                crate::scheduler::skip_outcome(
                    &old(self).scheduler_view(),
                    &final(self).scheduler_view(),
                    surface_tid(sid),
                    now,
                    r,
                )
            } else {
                r is None && final(self).scheduler_view() == old(self).scheduler_view()
            },
    {
        let mut i: usize = 0;
        while i < self.surface_map.len()
            invariant
                i <= self.surface_map@.len(),
                *self == *old(self),
                self.wf(),
                forall|j: int| 0 <= j < i ==> self.surface_map@[j].0 != sid,
            decreases self.surface_map@.len() - i,
        {
            if self.surface_map[i].0 == sid {
                let tid = TargetId(lit(self.surface_map[i].1.0.as_str()));
                proof {
                    assert(self.surface_map@[i as int].1.0@ == surface_tid(sid));
                }
                let ghost sm = self.surface_map@;
                let r = self.scheduler.skip_target(&tid, now);
                assert(self.surface_map@ == sm);
                return r;
            }
            i += 1;
        }
        None
    }

    fn refreshed_has(&self, handle: &str) -> (r: bool)
        ensures
            r == self.refreshed_view().contains(handle@),
    {
        let mut already = false;
        let want = chars_of(handle);
        let mut i: usize = 0;
        while i < self.refreshed.len()
            invariant
                i <= self.refreshed@.len(),
                want@ == handle@,
                already == exists|j: int| 0 <= j < i && self.refreshed@[j]@ == handle@,
            decreases self.refreshed@.len() - i,
        {
            let c = chars_of(self.refreshed[i].as_str());
            if chars_eq(c.as_slice(), want.as_slice()) {
                already = true;
            }
            i += 1;
        }
        proof {
            if already {
                let j = choose|j: int| 0 <= j < self.refreshed@.len() && self.refreshed@[j]@ == handle@;
                assert(self.refreshed_view()[j] == handle@);
            }
            if self.refreshed_view().contains(handle@) {
                let j = choose|j: int| 0 <= j < self.refreshed_view().len() && self.refreshed_view()[j] == handle@;
                assert(self.refreshed@[j]@ == handle@);
            }
        }
        already
    }

    /// The item `item` of target `tid` has loaded: it is shown with the
    /// target's pending crossfade, which is used up (see `crossfade_spec`);
    /// its handle counts as fetched afresh when it was. A target the engine
    /// does not know gives `None` and nothing changes.
    pub fn activation_loaded(&mut self, tid: &str, item: &ScheduledItem, refreshed_now: bool) -> (r: Option<Activation>)
        requires
            old(self).wf(),
        ensures
            final(self).wf(),
            final(self).config_view() == old(self).config_view(),
            final(self).options_view() == old(self).options_view(),
            final(self).ws_crossfade_view() == old(self).ws_crossfade_view(),
            final(self).scheduler_view() == old(self).scheduler_view(),
            forall|sid: u64| #[trigger] final(self).mapped(sid) == old(self).mapped(sid),
            forall|t: Seq<char>| t != tid@ ==> #[trigger] final(self).engine_target(t) == old(self).engine_target(t),
            match old(self).engine_target(tid@) {
                None => r is None && final(self).engine_target(tid@) is None && final(self).refreshed_view()
                    == old(self).refreshed_view(),
                Some(o) => {
                    &&& r matches Some(a)
                    &&& a.crossfade == crossfade_spec(o.crossfade_override, o.playlist_len, item.crossfade)
                    &&& (o.crossfade_override is None && o.playlist_len > 1 ==> a.crossfade == item.crossfade)
                    &&& (o.crossfade_override matches Some(d) ==> a.crossfade == d)
                    &&& a.surface_id == o.surface_id
                    &&& a.target_display@ == match opt_str(o.output_name) {
                        Some(n) => tid@ + " ("@ + n + ")"@,
                        None => tid@,
                    }
                    &&& final(self).engine_target(tid@) == Some(EngineTarget { crossfade_override: None, ..o })
                    &&& final(self).refreshed_view() == if refreshed_now && !old(self).refreshed_view().contains(
                        item.handle@,
                    ) {
                        old(self).refreshed_view().push(item.handle@)
                    } else {
                        old(self).refreshed_view()
                    }
                },
            },
    {
        let k = match self.find_target(tid) {
            None => {
                return None;
            },
            Some(k) => k,
        };
        let ghost ts0 = self.targets@;
        let ghost sm = self.surface_map@;
        let (id, mut target) = self.targets.remove(k);
        let crossfade = crossfade_for(target.crossfade_override, target.playlist_len, item.crossfade);
        let display = match &target.output_name {
            Some(n) => describe_target(tid, Some(n.as_str())),
            None => describe_target(tid, None),
        };
        let surface_id = target.surface_id;
        target.crossfade_override = None;
        proof {
            lemma_replace_target(ts0, k as int, target);
        }
        self.targets.insert(k, (id, target));
        proof {
            assert(self.targets@ =~= ts0.update(k as int, (ts0[k as int].0, target)));
        }
        if refreshed_now && !self.refreshed_has(item.handle.as_str()) {
            self.refreshed.push(lit(item.handle.as_str()));
            proof {
                assert(self.refreshed_view() =~= old(self).refreshed_view().push(item.handle@));
            }
        }
        assert(self.surface_map@ == sm);
        Some(Activation { crossfade, target_display: display, surface_id })
    }

    /// The item of target `tid` failed to load for the `attempts`th time in a
    /// row: once as many items as its playlist has (at least one) have
    /// failed it gives up, otherwise it moves the target on at `now` (see
    /// `skip_outcome`) and the change names the item to try next. A target
    /// the engine does not know gives `None`.
    pub fn activation_failed(&mut self, tid: &str, attempts: usize, now: u128) -> (r: Option<SelectionChange>)
        requires
            old(self).wf(),
        ensures
            final(self).wf(),
            final(self).config_view() == old(self).config_view(),
            final(self).options_view() == old(self).options_view(),
            final(self).ws_crossfade_view() == old(self).ws_crossfade_view(),
            final(self).refreshed_view() == old(self).refreshed_view(),
            final(self).scheduler_view().playlists_view() == old(self).scheduler_view().playlists_view(),
            forall|sid: u64| #[trigger] final(self).mapped(sid) == old(self).mapped(sid),
            forall|t: Seq<char>| #[trigger] final(self).engine_target(t) == old(self).engine_target(t),
            match old(self).engine_target(tid@) {
                Some(o) => if attempts >= (if o.playlist_len >= 1 { o.playlist_len } else { 1 }) {
                    r is None && final(self).scheduler_view() == old(self).scheduler_view()
                } else {
                    crate::scheduler::skip_outcome(
                        &old(self).scheduler_view(),
                        &final(self).scheduler_view(),
                        tid@,
                        now,
                        r,
                    )
                },
                None => r is None && final(self).scheduler_view() == old(self).scheduler_view(),
            },
    {
        let k = match self.find_target(tid) {
            None => {
                return None;
            },
            Some(k) => k,
        };
        let len = self.targets[k].1.playlist_len;
        let max_attempts = if len >= 1 { len } else { 1 };
        if attempts >= max_attempts {
            return None;
        }
        let ghost sm = self.surface_map@;
        let r = self.scheduler.skip_target(&TargetId(lit(tid)), now);
        assert(self.surface_map@ == sm);
        r
    }

    /// Whether an item's shader is fetched afresh (see `refresh_wanted`).
    pub fn should_refresh_item(&self, item: &ScheduledItem) -> (r: bool)
        ensures
            r == refresh_wanted(
                self.options_view().cache_only,
                self.options_view().refresh_all,
                item.refresh_once,
                self.refreshed_view().contains(item.handle@),
            ),
    {
        let mut already = false;
        let want = chars_of(item.handle.as_str());
        let mut i: usize = 0;
        while i < self.refreshed.len()
            invariant
                i <= self.refreshed@.len(),
                want@ == item.handle@,
                already == exists|j: int| 0 <= j < i && self.refreshed@[j]@ == item.handle@,
            decreases self.refreshed@.len() - i,
        {
            let c = chars_of(self.refreshed[i].as_str());
            if chars_eq(c.as_slice(), want.as_slice()) {
                already = true;
            }
            i += 1;
        }
        proof {
            if already {
                let j = choose|j: int| 0 <= j < self.refreshed@.len() && self.refreshed@[j]@ == item.handle@;
                assert(self.refreshed_view()[j] == item.handle@);
            }
            if self.refreshed_view().contains(item.handle@) {
                let j = choose|j: int| 0 <= j < self.refreshed_view().len() && self.refreshed_view()[j] == item.handle@;
                assert(self.refreshed@[j]@ == item.handle@);
            }
        }
        should_refresh(self.options.cache_only, self.options.refresh_all, item.refresh_once, already)
    }
}

} // verus!
