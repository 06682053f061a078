//! Playlist configuration: playlists of shader handles, their defaults, the
//! targets (workspaces, outputs) they are shown on, and the rules a
//! configuration must meet.
//!
//! Durations are held in nanoseconds. A frame rate is held as the bit
//! pattern of the `f32` it was written as, so that the rules below (which
//! only ask whether it is negative or positive) can be checked exactly.
use vstd::prelude::*;
use crate::durations::{seconds_bound, seconds_bound_fits};
use crate::text::{
    all_digits, chars_of, decimal, decimal_chars, eq_str, lit, lower, lower_chars, string_of, strip_prefix,
    strip_prefix_str, trim, trimmed, wrap_msg,
};

verus! {

/// Why a configuration was refused. `S` is `String` at run time and
/// `Seq<char>` in specs.
#[derive(Debug, Clone, PartialEq, Eq)]
pub enum ConfigErrorOf<S> {
    /// The text is not a configuration (the parser's message).
    Parse(S),
    /// The configuration breaks a rule.
    Invalid(S),
}

pub type ConfigError = ConfigErrorOf<String>;

impl View for ConfigErrorOf<String> {
    type V = ConfigErrorOf<Seq<char>>;

    open spec fn view(&self) -> ConfigErrorOf<Seq<char>> {
        match self {
            ConfigErrorOf::Parse(s) => ConfigErrorOf::Parse(s@),
            ConfigErrorOf::Invalid(s) => ConfigErrorOf::Invalid(s@),
        }
    }
}

pub open spec fn config_error_message(e: ConfigErrorOf<Seq<char>>) -> Seq<char> {
    match e {
        ConfigErrorOf::Parse(m) => "failed to parse configuration: "@ + m,
        ConfigErrorOf::Invalid(m) => "invalid configuration: "@ + m,
    }
}

impl ConfigErrorOf<String> {
    pub fn to_string(&self) -> (r: String)
        ensures
            r@ == config_error_message(self@),
    {
        match self {
            ConfigErrorOf::Parse(m) => crate::text::join_msg("failed to parse configuration: ", m.as_str()),
            ConfigErrorOf::Invalid(m) => crate::text::join_msg("invalid configuration: ", m.as_str()),
        }
    }
}

#[derive(Debug, Clone, Copy, PartialEq, Eq)]
pub enum PlaylistMode {
    Continuous,
    Shuffle,
}

#[derive(Debug, Clone, Copy, PartialEq, Eq)]
pub enum PlaylistItemMode {
    Animate,
    Still,
}

#[derive(Debug, Clone, Copy, PartialEq, Eq)]
pub enum AntialiasSetting {
    Auto,
    Off,
    Samples2,
    Samples4,
    Samples8,
    Samples16,
}

impl AntialiasSetting {
    /// The setting for an MSAA sample count: 0 and 1 mean off; 2, 4, 8 and
    /// 16 are supported; other counts have none.
    pub fn from_samples(samples: u32) -> (r: Option<Self>)
        ensures
            (samples == 0 || samples == 1) ==> r == Some(AntialiasSetting::Off),
            samples == 2 ==> r == Some(AntialiasSetting::Samples2),
            samples == 4 ==> r == Some(AntialiasSetting::Samples4),
            samples == 8 ==> r == Some(AntialiasSetting::Samples8),
            samples == 16 ==> r == Some(AntialiasSetting::Samples16),
            !(samples == 0 || samples == 1 || samples == 2 || samples == 4 || samples == 8 || samples
                == 16) ==> r is None,
    {
        if samples == 0 || samples == 1 {
            Some(AntialiasSetting::Off)
        } else if samples == 2 {
            Some(AntialiasSetting::Samples2)
        } else if samples == 4 {
            Some(AntialiasSetting::Samples4)
        } else if samples == 8 {
            Some(AntialiasSetting::Samples8)
        } else if samples == 16 {
            Some(AntialiasSetting::Samples16)
        } else {
            None
        }
    }
}

/// A frame rate, as the bit pattern of an IEEE-754 single.
#[derive(Debug, Clone, Copy, PartialEq, Eq)]
pub struct Fps {
    pub bits: u32,
}

/// The pattern is a NaN: all exponent bits set and a non-zero fraction.
pub open spec fn fps_is_nan(b: u32) -> bool {
    (b & 0x7f80_0000u32) == 0x7f80_0000u32 && (b & 0x007f_ffffu32) != 0
}

/// The value compares below zero (`-0.0` and NaN do not).
pub open spec fn fps_below_zero(b: u32) -> bool {
    (b >> 31u32) == 1 && (b & 0x7fff_ffffu32) != 0 && !fps_is_nan(b)
}

/// The value compares above zero.
pub open spec fn fps_above_zero(b: u32) -> bool {
    (b >> 31u32) == 0 && (b & 0x7fff_ffffu32) != 0 && !fps_is_nan(b)
}

impl Fps {
    /// `fps < 0.0`.
    pub fn is_negative(&self) -> (r: bool)
        ensures
            r == fps_below_zero(self.bits),
    {
        let b = self.bits;
        let nan = (b & 0x7f80_0000u32) == 0x7f80_0000u32 && (b & 0x007f_ffffu32) != 0;
        (b >> 31u32) == 1 && (b & 0x7fff_ffffu32) != 0 && !nan
    }

    /// `fps > 0.0`.
    pub fn is_positive(&self) -> (r: bool)
        ensures
            r == fps_above_zero(self.bits),
    {
        let b = self.bits;
        let nan = (b & 0x7f80_0000u32) == 0x7f80_0000u32 && (b & 0x007f_ffffu32) != 0;
        (b >> 31u32) == 0 && (b & 0x7fff_ffffu32) != 0 && !nan
    }
}

pub open spec fn fps_negative(f: Option<Fps>) -> bool {
    f matches Some(v) && fps_below_zero(v.bits)
}

/// Settings every playlist falls back to.
#[derive(Debug, Clone)]
pub struct Defaults {
    pub playlist: Option<String>,
    pub fps: Option<Fps>,
    pub antialias: Option<AntialiasSetting>,
}

impl Default for Defaults {
    fn default() -> (r: Self)
        ensures
            r.playlist is None,
            r.fps is None,
            r.antialias is None,
    {
        Defaults { playlist: None, fps: None, antialias: None }
    }
}

/// One shader of a playlist.
#[derive(Debug, Clone)]
pub struct PlaylistItem {
    pub handle: String,
    /// How long it is shown (nanoseconds); the playlist's when absent.
    pub duration: Option<u128>,
    pub fps: Option<Fps>,
    pub antialias: Option<AntialiasSetting>,
    pub refresh_once: bool,
    pub mode: Option<PlaylistItemMode>,
    /// Time at which a still item is rendered (nanoseconds).
    pub still_time: Option<u128>,
}

#[derive(Debug, Clone)]
pub struct Playlist {
    pub mode: PlaylistMode,
    /// How long each item is shown (nanoseconds).
    pub item_duration: u128,
    /// Crossfade between items (nanoseconds).
    pub crossfade: u128,
    pub fps: Option<Fps>,
    pub antialias: Option<AntialiasSetting>,
    pub items: Vec<PlaylistItem>,
}

/// A whole configuration. Playlists and targets are listed in the order of
/// their names.
#[derive(Debug, Clone)]
pub struct MultiConfig {
    pub version: u32,
    /// Crossfade when switching workspaces (nanoseconds).
    pub workspace_switch_crossfade: Option<u128>,
    pub defaults: Defaults,
    pub playlists: Vec<(String, Playlist)>,
    /// Selector, playlist name.
    pub targets: Vec<(String, String)>,
}

/// One item with every fallback applied.
#[derive(Debug, Clone)]
pub struct ResolvedItem {
    pub handle: String,
    pub duration: u128,
    pub fps: Option<Fps>,
    pub antialias: Option<AntialiasSetting>,
    pub refresh_once: bool,
    pub crossfade: u128,
}

/// One second, the default crossfade.
pub const ONE_SECOND_NANOS: u128 = 1_000_000_000;

/// Sixty seconds, the default item duration.
pub const DEFAULT_ITEM_DURATION_NANOS: u128 = 60_000_000_000;

pub open spec fn names_of(playlists: Seq<(String, Playlist)>) -> Seq<Seq<char>> {
    playlists.map_values(|p: (String, Playlist)| p.0@)
}

/// The antialias setting a configuration value names, ignoring surrounding
/// whitespace and ASCII case.
pub open spec fn antialias_setting_value(raw: Seq<char>) -> Result<AntialiasSetting, Seq<char>> {
    let n = lower(trim(raw));
    if n == "auto"@ || n == "max"@ || n == "default"@ {
        Ok(AntialiasSetting::Auto)
    } else if n == "off"@ || n == "none"@ || n == "disable"@ || n == "disabled"@ || n == "0"@ {
        Ok(AntialiasSetting::Off)
    } else if n == "2"@ {
        Ok(AntialiasSetting::Samples2)
    } else if n == "4"@ {
        Ok(AntialiasSetting::Samples4)
    } else if n == "8"@ {
        Ok(AntialiasSetting::Samples8)
    } else if n == "16"@ {
        Ok(AntialiasSetting::Samples16)
    } else {
        Err("invalid antialias setting '"@ + n + "'"@)
    }
}

pub fn parse_antialias(raw: &str) -> (r: Result<AntialiasSetting, String>)
    ensures
        match r {
            Ok(a) => antialias_setting_value(raw@) == Ok::<AntialiasSetting, Seq<char>>(a),
            Err(e) => antialias_setting_value(raw@) == Err::<AntialiasSetting, Seq<char>>(e@),
        },
{
    let t = trimmed(raw);
    let n = lower_chars(t.as_slice());
    let n = n.as_slice();
    if eq_str(n, "auto") || eq_str(n, "max") || eq_str(n, "default") {
        Ok(AntialiasSetting::Auto)
    } else if eq_str(n, "off") || eq_str(n, "none") || eq_str(n, "disable") || eq_str(n, "disabled")
        || eq_str(n, "0") {
        Ok(AntialiasSetting::Off)
    } else if eq_str(n, "2") {
        Ok(AntialiasSetting::Samples2)
    } else if eq_str(n, "4") {
        Ok(AntialiasSetting::Samples4)
    } else if eq_str(n, "8") {
        Ok(AntialiasSetting::Samples8)
    } else if eq_str(n, "16") {
        Ok(AntialiasSetting::Samples16)
    } else {
        let s = string_of(n);
        Err(wrap_msg("invalid antialias setting '", s.as_str(), "'"))
    }
}

/// The antialias setting a number in the configuration names: its decimal
/// form read as above; negative numbers are refused.
pub fn antialias_from_number(value: i64) -> (r: Result<AntialiasSetting, String>)
    ensures
        value < 0 ==> (r matches Err(e) && e@ == "antialias value must be non-negative"@),
        value >= 0 ==> match r {
            Ok(a) => antialias_setting_value(decimal(value as nat)) == Ok::<AntialiasSetting, Seq<char>>(a),
            Err(e) => antialias_setting_value(decimal(value as nat)) == Err::<AntialiasSetting, Seq<char>>(e@),
        },
{
    if value < 0 {
        return Err(lit("antialias value must be non-negative"));
    }
    let d = decimal_chars(value as u64);
    let s = string_of(d.as_slice());
    parse_antialias(s.as_str())
}

/// What a target selector must look like: `_default`, `workspace:<name>`,
/// `output:<name>`, or a numeric workspace id.
pub open spec fn selector_error(selector: Seq<char>) -> Option<Seq<char>> {
    if selector == "_default"@ {
        None
    } else if strip_prefix(selector, "workspace:"@) is Some {
        if strip_prefix(selector, "workspace:"@)->0.len() == 0 {
            Some("workspace selector must include a name or id"@)
        } else {
            None
        }
    } else if strip_prefix(selector, "output:"@) is Some {
        if strip_prefix(selector, "output:"@)->0.len() == 0 {
            Some("output selector must include an output name"@)
        } else {
            None
        }
    } else if all_digits(selector) {
        None
    } else {
        Some(
            "target selector '"@ + selector
                + "' is invalid; expected 'workspace:<name-or-id>', 'output:<name>', '_default', or a numeric workspace id"@,
        )
    }
}

/// Every `output:<name>` and `workspace:<name>` selector with a nonempty
/// name is accepted, and so is every nonempty numeric workspace id; the
/// bare prefixes are refused.
pub proof fn lemma_named_selectors_accepted(name: Seq<char>)
    ensures
        name.len() > 0 ==> selector_error("output:"@ + name) is None,
        name.len() > 0 ==> selector_error("workspace:"@ + name) is None,
        name.len() > 0 && all_digits(name) ==> selector_error(name) is None,
        selector_error("output:"@) is Some,
        selector_error("workspace:"@) is Some,
{
    reveal_strlit("output:");
    reveal_strlit("workspace:");
    reveal_strlit("_default");
    let o = "output:"@ + name;
    let w = "workspace:"@ + name;
    assert(o[0] == 'o');
    assert(w[0] == 'w');
    assert(o != "_default"@);
    assert(w != "_default"@);
    assert(!crate::text::has_prefix(o, "workspace:"@)) by {
        if o.len() >= 10 {
            assert(o.take(10)[0] != "workspace:"@[0]);
        }
    }
    assert(crate::text::has_prefix(o, "output:"@)) by {
        assert(o.take(7) =~= "output:"@);
    }
    assert(strip_prefix(o, "output:"@)->0 =~= name);
    assert(crate::text::has_prefix(w, "workspace:"@)) by {
        assert(w.take(10) =~= "workspace:"@);
    }
    assert(strip_prefix(w, "workspace:"@)->0 =~= name);
    if name.len() > 0 && all_digits(name) {
        assert(crate::text::is_ascii_digit(name[0]));
        assert(name != "_default"@);
        assert(!crate::text::has_prefix(name, "workspace:"@)) by {
            if name.len() >= 10 {
                assert(name.take(10)[0] != "workspace:"@[0]);
            }
        }
        assert(!crate::text::has_prefix(name, "output:"@)) by {
            if name.len() >= 7 {
                assert(name.take(7)[0] != "output:"@[0]);
            }
        }
    }
    let po = "output:"@;
    let pw = "workspace:"@;
    assert(po != "_default"@);
    assert(pw != "_default"@);
    assert(!crate::text::has_prefix(po, "workspace:"@));
    assert(crate::text::has_prefix(po, "output:"@)) by {
        assert(po.take(7) =~= po);
    }
    assert(strip_prefix(po, "output:"@)->0.len() == 0);
    assert(crate::text::has_prefix(pw, "workspace:"@)) by {
        assert(pw.take(10) =~= pw);
    }
    assert(strip_prefix(pw, "workspace:"@)->0.len() == 0);
}

pub open spec fn invalid_unit(e: Option<Seq<char>>, r: Result<(), ConfigError>) -> bool {
    match e {
        None => r is Ok,
        Some(m) => r matches Err(ConfigErrorOf::Invalid(s)) && s@ == m,
    }
}

fn all_ascii_digits(v: &[char]) -> (r: bool)
    ensures
        r == all_digits(v@),
{
    let mut i: usize = 0;
    while i < v.len()
        invariant
            i <= v@.len(),
            forall|j: int| 0 <= j < i ==> crate::text::is_ascii_digit(#[trigger] v@[j]),
        decreases v@.len() - i,
    {
        if !crate::text::char_is_ascii_digit(v[i]) {
            return false;
        }
        i += 1;
    }
    true
}

pub fn validate_target_selector(selector: &str) -> (r: Result<(), ConfigError>)
    ensures
        invalid_unit(selector_error(selector@), r),
{
    let v = chars_of(selector);
    if eq_str(v.as_slice(), "_default") {
        return Ok(());
    }
    if let Some(rest) = strip_prefix_str(v.as_slice(), "workspace:") {
        if rest.len() == 0 {
            return Err(ConfigErrorOf::Invalid(lit("workspace selector must include a name or id")));
        }
        return Ok(());
    }
    if let Some(rest) = strip_prefix_str(v.as_slice(), "output:") {
        if rest.len() == 0 {
            return Err(ConfigErrorOf::Invalid(lit("output selector must include an output name")));
        }
        return Ok(());
    }
    if all_ascii_digits(v.as_slice()) {
        return Ok(());
    }
    Err(
        ConfigErrorOf::Invalid(
            wrap_msg(
                "target selector '",
                selector,
                "' is invalid; expected 'workspace:<name-or-id>', 'output:<name>', '_default', or a numeric workspace id",
            ),
        ),
    )
}

/// The first problem of one item of playlist `name`.
pub open spec fn item_error(name: Seq<char>, item: PlaylistItem) -> Option<Seq<char>> {
    if trim(item.handle@).len() == 0 {
        Some("playlist '"@ + name + "' contains an item with empty handle"@)
    } else if item.duration == Some(0u128) {
        Some("playlist '"@ + name + "' item '"@ + item.handle@ + "' duration must be > 0"@)
    } else if fps_negative(item.fps) {
        Some("playlist '"@ + name + "' item '"@ + item.handle@ + "' fps must be >= 0"@)
    } else {
        None
    }
}

/// The first problem among `items[i..]`.
pub open spec fn items_error(name: Seq<char>, items: Seq<PlaylistItem>, i: int) -> Option<Seq<char>>
    decreases items.len() - i,
{
    if i < 0 || i >= items.len() {
        None
    } else {
        match item_error(name, items[i]) {
            Some(m) => Some(m),
            None => items_error(name, items, i + 1),
        }
    }
}

/// The first problem of playlist `name`.
pub open spec fn playlist_error(name: Seq<char>, p: Playlist) -> Option<Seq<char>> {
    if p.items@.len() == 0 {
        Some("playlist '"@ + name + "' must contain at least one item"@)
    } else if p.item_duration == 0 {
        Some("playlist '"@ + name + "' item_duration must be greater than zero"@)
    } else if fps_negative(p.fps) {
        Some("playlist '"@ + name + "' fps must be >= 0"@)
    } else {
        items_error(name, p.items@, 0)
    }
}

pub open spec fn playlists_error(ps: Seq<(String, Playlist)>, i: int) -> Option<Seq<char>>
    decreases ps.len() - i,
{
    if i < 0 || i >= ps.len() {
        None
    } else {
        match playlist_error(ps[i].0@, ps[i].1) {
            Some(m) => Some(m),
            None => playlists_error(ps, i + 1),
        }
    }
}

/// The first problem of one target.
pub open spec fn target_error(selector: Seq<char>, playlist: Seq<char>, names: Seq<Seq<char>>) -> Option<
    Seq<char>,
> {
    if trim(selector).len() == 0 {
        Some("target selector may not be empty"@)
    } else if selector_error(selector) is Some {
        selector_error(selector)
    } else if !names.contains(playlist) {
        Some("target '"@ + selector + "' references unknown playlist '"@ + playlist + "'"@)
    } else {
        None
    }
}

pub open spec fn targets_error(ts: Seq<(String, String)>, names: Seq<Seq<char>>, i: int) -> Option<Seq<char>>
    decreases ts.len() - i,
{
    if i < 0 || i >= ts.len() {
        None
    } else {
        match target_error(ts[i].0@, ts[i].1@, names) {
            Some(m) => Some(m),
            None => targets_error(ts, names, i + 1),
        }
    }
}

/// The first problem of a configuration, checked in this order: the
/// version, that there is a playlist, each playlist and its items, the
/// default playlist, each target, and the default frame rate.
pub open spec fn config_error(c: MultiConfig) -> Option<Seq<char>> {
    let names = names_of(c.playlists@);
    if c.version != 1 {
        Some("unsupported config version "@ + decimal(c.version as nat) + "; expected 1"@)
    } else if c.playlists@.len() == 0 {
        Some("config must define at least one playlist"@)
    } else if playlists_error(c.playlists@, 0) is Some {
        playlists_error(c.playlists@, 0)
    } else if c.defaults.playlist matches Some(d) && !names.contains(d@) {
        Some("defaults.playlist references unknown playlist '"@ + c.defaults.playlist->0@ + "'"@)
    } else if targets_error(c.targets@, names, 0) is Some {
        targets_error(c.targets@, names, 0)
    } else if fps_negative(c.defaults.fps) {
        Some("defaults.fps must be >= 0"@)
    } else {
        None
    }
}

fn item_check(name: &str, item: &PlaylistItem) -> (r: Option<String>)
    ensures
        match item_error(name@, *item) {
            Some(m) => r matches Some(s) && s@ == m,
            None => r is None,
        },
{
    if trimmed(item.handle.as_str()).len() == 0 {
        return Some(wrap_msg("playlist '", name, "' contains an item with empty handle"));
    }
    let zero_duration = match item.duration {
        Some(d) => d == 0,
        None => false,
    };
    if zero_duration {
        let mut m = wrap_msg("playlist '", name, "' item '");
        m.push_str(item.handle.as_str());
        m.push_str("' duration must be > 0");
        return Some(m);
    }
    let bad_fps = match &item.fps {
        Some(f) => f.is_negative(),
        None => false,
    };
    if bad_fps {
        let mut m = wrap_msg("playlist '", name, "' item '");
        m.push_str(item.handle.as_str());
        m.push_str("' fps must be >= 0");
        return Some(m);
    }
    None
}

fn playlist_check(name: &str, p: &Playlist) -> (r: Option<String>)
    ensures
        match playlist_error(name@, *p) {
            Some(m) => r matches Some(s) && s@ == m,
            None => r is None,
        },
{
    if p.items.len() == 0 {
        return Some(wrap_msg("playlist '", name, "' must contain at least one item"));
    }
    if p.item_duration == 0 {
        return Some(wrap_msg("playlist '", name, "' item_duration must be greater than zero"));
    }
    let bad_fps = match &p.fps {
        Some(f) => f.is_negative(),
        None => false,
    };
    if bad_fps {
        return Some(wrap_msg("playlist '", name, "' fps must be >= 0"));
    }
    let mut i: usize = 0;
    while i < p.items.len()
        invariant
            i <= p.items@.len(),
            playlist_error(name@, *p) == items_error(name@, p.items@, 0),
            items_error(name@, p.items@, 0) == items_error(name@, p.items@, i as int),
        decreases p.items@.len() - i,
    {
        let found = item_check(name, &p.items[i]);
        if found.is_some() {
            proof {
                assert(items_error(name@, p.items@, i as int) == item_error(name@, p.items@[i as int]));
            }
            return found;
        }
        i += 1;
    }
    None
}

/// The index of the playlist named `name`.
fn playlist_index(playlists: &Vec<(String, Playlist)>, name: &str) -> (r: Option<usize>)
    ensures
        r is None <==> !names_of(playlists@).contains(name@),
        r matches Some(i) ==> i < playlists@.len() && playlists@[i as int].0@ == name@ && forall|j: int|
            0 <= j < i ==> playlists@[j].0@ != name@,
{
    let target = chars_of(name);
    let mut i: usize = 0;
    while i < playlists.len()
        invariant
            i <= playlists@.len(),
            target@ == name@,
            forall|j: int| 0 <= j < i ==> playlists@[j].0@ != name@,
        decreases playlists@.len() - i,
    {
        let candidate = chars_of(playlists[i].0.as_str());
        if crate::text::chars_eq(candidate.as_slice(), target.as_slice()) {
            proof {
                assert(names_of(playlists@)[i as int] == name@);
            }
            return Some(i);
        }
        i += 1;
    }
    proof {
        if names_of(playlists@).contains(name@) {
            let k = choose|k: int| 0 <= k < names_of(playlists@).len() && names_of(playlists@)[k] == name@;
            assert(playlists@[k].0@ == name@);
        }
    }
    None
}

fn target_check(selector: &str, playlist: &str, playlists: &Vec<(String, Playlist)>) -> (r: Option<String>)
    ensures
        match target_error(selector@, playlist@, names_of(playlists@)) {
            Some(m) => r matches Some(s) && s@ == m,
            None => r is None,
        },
{
    if trimmed(selector).len() == 0 {
        return Some(lit("target selector may not be empty"));
    }
    match validate_target_selector(selector) {
        Err(ConfigErrorOf::Invalid(m)) => {
            return Some(m);
        },
        Err(ConfigErrorOf::Parse(m)) => {
            return Some(m);
        },
        Ok(()) => {},
    }
    if playlist_index(playlists, playlist).is_none() {
        let mut m = wrap_msg("target '", selector, "' references unknown playlist '");
        m.push_str(playlist);
        m.push_str("'");
        return Some(m);
    }
    None
}

/// Index of the first playlist named `name`.
pub open spec fn first_named(ps: Seq<(String, Playlist)>, name: Seq<char>) -> Option<int> {
    if exists|i: int| 0 <= i < ps.len() && ps[i].0@ == name {
        Some(
            choose|i: int|
                0 <= i < ps.len() && ps[i].0@ == name && forall|j: int| 0 <= j < i ==> ps[j].0@ != name,
        )
    } else {
        None
    }
}

impl MultiConfig {
    /// The playlist named `name`.
    pub fn playlist(&self, name: &str) -> (r: Option<&Playlist>)
        ensures
            r is None <==> !names_of(self.playlists@).contains(name@),
            match first_named(self.playlists@, name@) {
                Some(i) => r matches Some(p) && *p == self.playlists@[i].1,
                None => r is None,
            },
    {
        match playlist_index(&self.playlists, name) {
            Some(i) => {
                proof {
                    let w = choose|k: int|
                        0 <= k < self.playlists@.len() && self.playlists@[k].0@ == name@ && forall|j: int|
                            0 <= j < k ==> self.playlists@[j].0@ != name@;
                    assert(self.playlists@[i as int].0@ == name@);
                    if w < i {
                    } else if w > i {
                        assert(self.playlists@[i as int].0@ != name@);
                    }
                }
                Some(&self.playlists[i].1)
            },
            None => {
                proof {
                    if exists|k: int| 0 <= k < self.playlists@.len() && self.playlists@[k].0@ == name@ {
                        let k = choose|k: int| 0 <= k < self.playlists@.len() && self.playlists@[k].0@ == name@;
                        assert(names_of(self.playlists@)[k] == name@);
                    }
                }
                None
            },
        }
    }

    pub fn default_playlist(&self) -> (r: Option<&str>)
        ensures
            match self.defaults.playlist {
                Some(p) => r matches Some(s) && s@ == p@,
                None => r is None,
            },
    {
        match &self.defaults.playlist {
            Some(p) => Some(p.as_str()),
            None => None,
        }
    }

    /// The workspace-switch crossfade (nanoseconds); one second when unset.
    pub fn workspace_switch_crossfade(&self) -> (r: u128)
        ensures
            r == match self.workspace_switch_crossfade {
                Some(d) => d,
                None => ONE_SECOND_NANOS,
            },
    {
        match self.workspace_switch_crossfade {
            Some(d) => d,
            None => ONE_SECOND_NANOS,
        }
    }

    /// Refuses a configuration that breaks a rule, with the first problem
    /// found (see `config_error`).
    pub fn validate(&self) -> (r: Result<(), ConfigError>)
        ensures
            invalid_unit(config_error(*self), r),
    {
        if self.version != 1 {
            let d = decimal_chars(self.version as u64);
            let ds = string_of(d.as_slice());
            return Err(ConfigErrorOf::Invalid(wrap_msg("unsupported config version ", ds.as_str(), "; expected 1")));
        }
        if self.playlists.len() == 0 {
            return Err(ConfigErrorOf::Invalid(lit("config must define at least one playlist")));
        }
        let mut i: usize = 0;
        while i < self.playlists.len()
            invariant
                i <= self.playlists@.len(),
                self.version == 1,
                self.playlists@.len() > 0,
                playlists_error(self.playlists@, 0) == playlists_error(self.playlists@, i as int),
            decreases self.playlists@.len() - i,
        {
            match playlist_check(self.playlists[i].0.as_str(), &self.playlists[i].1) {
                Some(m) => {
                    proof {
                        assert(playlists_error(self.playlists@, i as int) == playlist_error(
                            self.playlists@[i as int].0@,
                            self.playlists@[i as int].1,
                        ));
                    }
                    return Err(ConfigErrorOf::Invalid(m));
                },
                None => {},
            }
            i += 1;
        }
        match &self.defaults.playlist {
            Some(d) => {
                if playlist_index(&self.playlists, d.as_str()).is_none() {
                    return Err(
                        ConfigErrorOf::Invalid(
                            wrap_msg("defaults.playlist references unknown playlist '", d.as_str(), "'"),
                        ),
                    );
                }
            },
            None => {},
        }
        let mut t: usize = 0;
        while t < self.targets.len()
            invariant
                t <= self.targets@.len(),
                self.version == 1,
                self.playlists@.len() > 0,
                playlists_error(self.playlists@, 0) is None,
                !(self.defaults.playlist matches Some(d) && !names_of(self.playlists@).contains(d@)),
                targets_error(self.targets@, names_of(self.playlists@), 0) == targets_error(
                    self.targets@,
                    names_of(self.playlists@),
                    t as int,
                ),
            decreases self.targets@.len() - t,
        {
            match target_check(self.targets[t].0.as_str(), self.targets[t].1.as_str(), &self.playlists) {
                Some(m) => {
                    proof {
                        assert(targets_error(self.targets@, names_of(self.playlists@), t as int) == target_error(
                            self.targets@[t as int].0@,
                            self.targets@[t as int].1@,
                            names_of(self.playlists@),
                        ));
                    }
                    return Err(ConfigErrorOf::Invalid(m));
                },
                None => {},
            }
            t += 1;
        }
        let bad_fps = match &self.defaults.fps {
            Some(f) => f.is_negative(),
            None => false,
        };
        if bad_fps {
            return Err(ConfigErrorOf::Invalid(lit("defaults.fps must be >= 0")));
        }
        Ok(())
    }
}

/// The first of three optional values that is present.
pub open spec fn first_some<T>(a: Option<T>, b: Option<T>, c: Option<T>) -> Option<T> {
    if a is Some {
        a
    } else if b is Some {
        b
    } else {
        c
    }
}

impl Playlist {
    /// Item `index` with the playlist's and then the global settings filling
    /// what the item leaves unset; `None` past the last item.
    pub fn resolved_item(&self, index: usize, defaults: &Defaults) -> (r: Option<ResolvedItem>)
        ensures
            index >= self.items@.len() ==> r is None,
            index < self.items@.len() ==> (r matches Some(ri) && {
                let item = self.items@[index as int];
                &&& ri.handle@ == item.handle@
                &&& ri.duration == (match item.duration {
                    Some(d) => d,
                    None => self.item_duration,
                })
                &&& ri.fps == first_some(item.fps, self.fps, defaults.fps)
                &&& ri.antialias == first_some(item.antialias, self.antialias, defaults.antialias)
                &&& ri.refresh_once == item.refresh_once
                &&& ri.crossfade == self.crossfade
            }),
    {
        if index >= self.items.len() {
            return None;
        }
        let item = &self.items[index];
        let duration = match item.duration {
            Some(d) => d,
            None => self.item_duration,
        };
        let fps = match item.fps {
            Some(f) => Some(f),
            None => match self.fps {
                Some(f) => Some(f),
                None => defaults.fps,
            },
        };
        let antialias = match item.antialias {
            Some(a) => Some(a),
            None => match self.antialias {
                Some(a) => Some(a),
                None => defaults.antialias,
            },
        };
        Some(
            ResolvedItem {
                handle: lit(item.handle.as_str()),
                duration,
                fps,
                antialias,
                refresh_once: item.refresh_once,
                crossfade: self.crossfade,
            },
        )
    }
}

/// What humantime's `parse_duration` gives for the text `s`, in
/// nanoseconds; `None` where it refuses the text.
pub uninterp spec fn human_duration(s: Seq<char>) -> Option<u128>;

/// The message of the error humantime reports for the text `s`.
pub uninterp spec fn human_duration_error(s: Seq<char>) -> Seq<char>;

/// Calls `humantime::parse_duration`. Claimed: the result is the named
/// value of the text (the nanoseconds of the duration, or the error's
/// message). `parse_duration` panics when the seconds it adds up reach the
/// largest `u64` with a whole second of nanoseconds still to carry; the
/// requirement that the text's bound fits in `u64` seconds rules that out.
#[verifier::external_body]
fn parse_human_duration(s: &str) -> (r: Result<u128, String>)
    requires
        seconds_bound(s@) <= u64::MAX,
    ensures
        match r {
            Ok(n) => human_duration(s@) == Some(n),
            Err(e) => human_duration(s@) is None && e@ == human_duration_error(s@),
        },
{
    match humantime::parse_duration(s) {
        Ok(d) => Ok(d.as_nanos()),
        Err(e) => Err(e.to_string()),
    }
}

/// The outcome for a duration written as the text `v`, given what the
/// duration parser made of it: its nanoseconds, or a message naming the
/// text.
pub fn duration_text_outcome(v: &str, parsed: Result<u128, String>) -> (r: Result<u128, String>)
    ensures
        match parsed {
            Ok(n) => r == Ok::<u128, String>(n),
            Err(e) => r matches Err(m) && m@ == "invalid duration '"@ + v@ + "': "@ + e@,
        },
{
    match parsed {
        Ok(n) => Ok(n),
        Err(e) => {
            let mut m = wrap_msg("invalid duration '", v, "': ");
            m.push_str(e.as_str());
            Err(m)
        },
    }
}

/// A duration written as text ("2h 37min", "90s", ...): its nanoseconds,
/// or the message it is refused with. A text whose numbers and units could
/// come to more seconds than a `u64` holds (see `seconds_bound`) is refused
/// as too large before it is parsed.
pub fn duration_from_text(v: &str) -> (r: Result<u128, String>)
    ensures
        seconds_bound(v@) > u64::MAX ==> (r matches Err(m) && m@ == "invalid duration '"@ + v@
            + "': duration is too large"@),
        seconds_bound(v@) <= u64::MAX ==> match human_duration(v@) {
            Some(n) => r == Ok::<u128, String>(n),
            None => r matches Err(m) && m@ == "invalid duration '"@ + v@ + "': "@ + human_duration_error(v@),
        },
{
    if !seconds_bound_fits(v) {
        let r = duration_text_outcome(v, Err(lit("duration is too large")));
        proof {
            assert("invalid duration '"@ + v@ + "': "@ + "duration is too large"@ =~= "invalid duration '"@ + v@
                + "': duration is too large"@) by {
                reveal_strlit("': ");
                reveal_strlit("duration is too large");
                reveal_strlit("': duration is too large");
            }
        }
        return r;
    }
    duration_text_outcome(v, parse_human_duration(v))
}

/// A duration written as a whole number of seconds, in nanoseconds.
pub fn duration_from_seconds(v: u64) -> (r: u128)
    ensures
        r == v * ONE_SECOND_NANOS,
{
    (v as u128) * ONE_SECOND_NANOS
}

/// A duration written as a signed number of seconds: a negative one is
/// refused.
pub fn duration_from_signed_seconds(v: i64) -> (r: Result<u128, String>)
    ensures
        v < 0 ==> (r matches Err(m) && m@ == "duration must be non-negative"@),
        v >= 0 ==> (r matches Ok(n) && n == v * ONE_SECOND_NANOS),
{
    if v < 0 {
        Err(lit("duration must be non-negative"))
    } else {
        Ok(duration_from_seconds(v as u64))
    }
}

} // verus!
