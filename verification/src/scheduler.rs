//! Playlist scheduling: which item of its playlist each target (a surface
//! or window) shows, and when it moves on.
//!
//! Time is read on the monotonic clock as nanoseconds since a fixed origin
//! chosen by the caller. A shuffled playlist draws its order from a seeded
//! random generator; every order it draws is a permutation of the items.
use vstd::prelude::*;
use vstd::multiset::Multiset;
use rand::seq::SliceRandom;
use rand::SeedableRng;
use crate::multiconfig::{AntialiasSetting, Defaults, Fps, MultiConfig, Playlist, PlaylistMode, fps_above_zero};
use crate::text::{chars_eq, chars_of, lit, wrap_msg};

verus! {

broadcast use vstd::seq_lib::group_to_multiset_ensures;

#[verifier::external_type_specification]
#[verifier::external_body]
pub struct ExStdRng(rand::rngs::StdRng);

/// `StdRng::seed_from_u64`: a generator seeded from `seed`.
#[verifier::external_body]
fn seeded_rng(seed: u64) -> rand::rngs::StdRng {
    rand::rngs::StdRng::seed_from_u64(seed)
}

/// `SliceRandom::shuffle`: puts the elements in a random order; the result
/// is a permutation of what was there (the source swaps elements in place).
#[verifier::external_body]
fn shuffle_order(order: &mut Vec<usize>, rng: &mut rand::rngs::StdRng)
    ensures
        final(order)@.len() == old(order)@.len(),
        final(order)@.to_multiset() == old(order)@.to_multiset(),
{
    order.as_mut_slice().shuffle(rng);
}

/// Why a target could not be set.
#[derive(Debug, Clone, PartialEq, Eq)]
pub enum SchedulerErrorOf<S> {
    UnknownPlaylist(S),
}

pub type SchedulerError = SchedulerErrorOf<String>;

impl SchedulerErrorOf<String> {
    pub fn to_string(&self) -> (r: String)
        ensures
            match self {
                SchedulerErrorOf::UnknownPlaylist(p) => r@ == "playlist '"@ + p@ + "' not found"@,
            },
    {
        match self {
            SchedulerErrorOf::UnknownPlaylist(p) => wrap_msg("playlist '", p.as_str(), "' not found"),
        }
    }
}

/// A surface or window that shows a playlist.
#[derive(Debug, Clone, PartialEq, Eq)]
pub struct TargetId(pub String);

impl TargetId {
    pub fn new(id: String) -> (r: Self)
        ensures
            r.0@ == id@,
    {
        TargetId(id)
    }
}

/// The item a target shows, with every fallback applied.
#[derive(Debug, Clone)]
pub struct ScheduledItem {
    pub handle: String,
    /// How long it is shown (nanoseconds).
    pub duration: u128,
    pub fps: Option<Fps>,
    pub antialias: Option<AntialiasSetting>,
    pub refresh_once: bool,
    /// Crossfade into it (nanoseconds).
    pub crossfade: u128,
}

/// A target moved to a new item at `started_at`.
#[derive(Debug, Clone)]
pub struct SelectionChange {
    pub target: TargetId,
    pub item: ScheduledItem,
    pub started_at: u128,
}

/// One item of a playlist as scheduled.
#[derive(Debug, Clone)]
pub struct RuntimeItem {
    pub handle: String,
    pub duration: u128,
    pub fps: Option<Fps>,
    pub antialias: Option<AntialiasSetting>,
    pub refresh_once: bool,
}

/// A playlist as scheduled.
#[derive(Debug, Clone)]
pub struct PlaylistRuntime {
    pub mode: PlaylistMode,
    pub crossfade: u128,
    pub items: Vec<RuntimeItem>,
}

/// A frame rate counts only when it is above zero.
pub open spec fn normalized_fps(f: Option<Fps>) -> Option<Fps> {
    match f {
        Some(v) => if fps_above_zero(v.bits) {
            Some(v)
        } else {
            None
        },
        None => None,
    }
}

fn normalize_fps(value: Option<Fps>) -> (r: Option<Fps>)
    ensures
        r == normalized_fps(value),
{
    match value {
        Some(v) => if v.is_positive() {
            Some(v)
        } else {
            None
        },
        None => None,
    }
}

pub open spec fn or_else<T>(a: Option<T>, b: Option<T>) -> Option<T> {
    if a is Some {
        a
    } else {
        b
    }
}

/// `r` is item `item` of playlist `p` with the playlist's and the global
/// settings filling what it leaves unset.
pub open spec fn runtime_item_from(r: RuntimeItem, item: crate::multiconfig::PlaylistItem, p: Playlist, d: Defaults) -> bool {
    &&& r.handle@ == item.handle@
    &&& r.duration == (match item.duration {
        Some(v) => v,
        None => p.item_duration,
    })
    &&& r.fps == or_else(normalized_fps(item.fps), or_else(normalized_fps(p.fps), normalized_fps(d.fps)))
    &&& r.antialias == or_else(item.antialias, or_else(p.antialias, d.antialias))
    &&& r.refresh_once == item.refresh_once
}

pub open spec fn runtime_from(r: PlaylistRuntime, p: Playlist, d: Defaults) -> bool {
    &&& r.mode == p.mode
    &&& r.crossfade == p.crossfade
    &&& r.items@.len() == p.items@.len()
    &&& forall|i: int| 0 <= i < r.items@.len() ==> runtime_item_from(#[trigger] r.items@[i], p.items@[i], p, d)
}

impl RuntimeItem {
    fn duplicate(&self) -> (r: Self)
        ensures
            r == *self,
    {
        RuntimeItem {
            handle: self.handle.clone(),
            duration: self.duration,
            fps: self.fps,
            antialias: self.antialias,
            refresh_once: self.refresh_once,
        }
    }
}

/// `a` and `b` are the same playlist.
pub open spec fn same_runtime(a: PlaylistRuntime, b: PlaylistRuntime) -> bool {
    a.mode == b.mode && a.crossfade == b.crossfade && a.items@ == b.items@
}

impl PlaylistRuntime {
    fn duplicate(&self) -> (r: Self)
        ensures
            same_runtime(r, *self),
    {
        let mut items: Vec<RuntimeItem> = Vec::new();
        let mut i: usize = 0;
        while i < self.items.len()
            invariant
                i <= self.items@.len(),
                items@ == self.items@.take(i as int),
            decreases self.items@.len() - i,
        {
            items.push(self.items[i].duplicate());
            i += 1;
            proof {
                assert(items@ =~= self.items@.take(i as int));
            }
        }
        proof {
            assert(self.items@.take(self.items@.len() as int) =~= self.items@);
        }
        PlaylistRuntime { mode: self.mode, crossfade: self.crossfade, items }
    }

    fn from_config(src: &Playlist, defaults: &Defaults) -> (r: Self)
        ensures
            runtime_from(r, *src, *defaults),
    {
        let mut items: Vec<RuntimeItem> = Vec::new();
        let mut i: usize = 0;
        while i < src.items.len()
            invariant
                i <= src.items@.len(),
                items@.len() == i,
                forall|j: int| 0 <= j < i ==> runtime_item_from(#[trigger] items@[j], src.items@[j], *src, *defaults),
            decreases src.items@.len() - i,
        {
            let item = &src.items[i];
            let duration = match item.duration {
                Some(v) => v,
                None => src.item_duration,
            };
            let fps = match normalize_fps(item.fps) {
                Some(f) => Some(f),
                None => match normalize_fps(src.fps) {
                    Some(f) => Some(f),
                    None => normalize_fps(defaults.fps),
                },
            };
            let antialias = match item.antialias {
                Some(a) => Some(a),
                None => match src.antialias {
                    Some(a) => Some(a),
                    None => defaults.antialias,
                },
            };
            items.push(
                RuntimeItem {
                    handle: lit(item.handle.as_str()),
                    duration,
                    fps,
                    antialias,
                    refresh_once: item.refresh_once,
                },
            );
            i += 1;
        }
        PlaylistRuntime { mode: src.mode, crossfade: src.crossfade, items }
    }
}

/// `0, 1, ..., n - 1`.
pub open spec fn identity(n: nat) -> Seq<usize> {
    Seq::new(n, |i: int| i as usize)
}

/// An order of `n` items: `n` entries, each an item index (a shuffled
/// order is a permutation of the identity).
pub open spec fn is_order(o: Seq<usize>, n: nat) -> bool {
    &&& o.len() == n
    &&& forall|i: int| 0 <= i < n ==> #[trigger] o[i] < n
}

/// The order a playlist is walked in: as listed when continuous, a
/// permutation of the items when shuffled.
pub open spec fn order_fits(o: Seq<usize>, n: nat, mode: PlaylistMode) -> bool {
    &&& is_order(o, n)
    &&& o.to_multiset() == identity(n).to_multiset()
    &&& mode == PlaylistMode::Continuous ==> o == identity(n)
}

proof fn lemma_permutation_in_range(o: Seq<usize>, n: nat)
    requires
        o.len() == n,
        o.to_multiset() == identity(n).to_multiset(),
    ensures
        is_order(o, n),
{
    assert forall|i: int| 0 <= i < n implies #[trigger] o[i] < n by {
        assert(o.contains(o[i]));
        assert(o.to_multiset().count(o[i]) > 0);
        assert(identity(n).contains(o[i]));
        let j = choose|j: int| 0 <= j < identity(n).len() && identity(n)[j] == o[i];
        assert(identity(n)[j] == j as usize);
    }
}

fn build_order(len: usize, mode: PlaylistMode, rng: &mut rand::rngs::StdRng) -> (r: Vec<usize>)
    ensures
        order_fits(r@, len as nat, mode),
{
    let mut order: Vec<usize> = Vec::new();
    let mut i: usize = 0;
    while i < len
        invariant
            i <= len,
            order@ == identity(i as nat),
        decreases len - i,
    {
        order.push(i);
        i += 1;
        proof {
            assert(order@ =~= identity(i as nat));
        }
    }
    match mode {
        PlaylistMode::Continuous => {},
        PlaylistMode::Shuffle => {
            shuffle_order(&mut order, rng);
        },
    }
    proof {
        lemma_permutation_in_range(order@, len as nat);
    }
    order
}

/// Where a target is in its playlist.
pub struct TargetState {
    playlist: PlaylistRuntime,
    order: Vec<usize>,
    cursor: usize,
    last_started: u128,
}

impl TargetState {
    pub closed spec fn wf(&self) -> bool {
        &&& self.playlist.items@.len() >= 1
        &&& order_fits(self.order@, self.playlist.items@.len(), self.playlist.mode)
        &&& self.cursor < self.order@.len()
    }

    pub closed spec fn playlist_view(&self) -> PlaylistRuntime {
        self.playlist
    }

    /// The order the playlist is walked in: item indices, a permutation of
    /// the items (as listed for a continuous playlist).
    pub closed spec fn order_view(&self) -> Seq<usize> {
        self.order@
    }

    /// The position in the order of the item shown.
    pub closed spec fn cursor_view(&self) -> int {
        self.cursor as int
    }

    /// The index of the item shown.
    pub open spec fn current_index(&self) -> int {
        self.order_view()[self.cursor_view()] as int
    }

    /// A well-formed state walks a fitting order, at a position inside it.
    pub proof fn lemma_wf_order(&self)
        requires
            self.wf(),
        ensures
            order_fits(self.order_view(), self.len(), self.playlist_view().mode),
            0 <= self.cursor_view() < self.order_view().len(),
            self.order_view().len() == self.len(),
    {
    }

    /// When the item shown started (nanoseconds).
    pub closed spec fn started(&self) -> u128 {
        self.last_started
    }

    pub open spec fn len(&self) -> nat {
        self.playlist_view().items@.len()
    }

    pub proof fn lemma_current_in_range(&self)
        requires
            self.wf(),
        ensures
            0 <= self.current_index() < self.len(),
    {
    }

    fn new(playlist: PlaylistRuntime, now: u128, rng: &mut rand::rngs::StdRng) -> (r: Self)
        requires
            playlist.items@.len() >= 1,
        ensures
            r.wf(),
            r.playlist_view() == playlist,
            r.started() == now,
            r.cursor_view() == 0,
            playlist.mode == PlaylistMode::Continuous ==> r.current_index() == 0,
    {
        let order = build_order(playlist.items.len(), playlist.mode, rng);
        TargetState { playlist, order, cursor: 0, last_started: now }
    }

    fn current_index_exec(&self) -> (r: usize)
        requires
            self.wf(),
        ensures
            r == self.current_index(),
            r < self.len(),
    {
        self.order[self.cursor]
    }

    /// Moves to the next item at `now`: the next in the order, and a freshly
    /// drawn order once the current one is used up. A playlist of one item
    /// only restarts its clock.
    fn advance_to_next(&mut self, now: u128, rng: &mut rand::rngs::StdRng)
        requires
            old(self).wf(),
        ensures
            final(self).wf(),
            final(self).playlist_view() == old(self).playlist_view(),
            final(self).started() == now,
            old(self).len() <= 1 ==> final(self).current_index() == old(self).current_index(),
            old(self).playlist_view().mode == PlaylistMode::Continuous ==> final(self).current_index() == (
            old(self).current_index() + 1) % (old(self).len() as int),
            next_position(*old(self), *final(self)),
    {
        if self.playlist.items.len() <= 1 {
            self.last_started = now;
            return;
        }
        let ghost old_cursor = self.cursor as int;
        let ghost n = self.playlist.items@.len() as int;
        self.cursor = self.cursor + 1;
        if self.cursor >= self.order.len() {
            self.order = build_order(self.playlist.items.len(), self.playlist.mode, rng);
            self.cursor = 0;
            proof {
                if self.playlist.mode == PlaylistMode::Continuous {
                    assert(self.order@[0] == 0);
                    assert(old_cursor + 1 == n);
                    assert((old_cursor + 1) % n == 0) by (nonlinear_arith)
                        requires
                            old_cursor + 1 == n,
                            n > 0,
                    ;
                }
            }
        } else {
            proof {
                if self.playlist.mode == PlaylistMode::Continuous {
                    assert(self.order@[self.cursor as int] == self.cursor);
                    assert((old_cursor + 1) % n == old_cursor + 1) by (nonlinear_arith)
                        requires
                            0 <= old_cursor + 1 < n,
                    ;
                }
            }
        }
        proof {
            if self.playlist.mode == PlaylistMode::Continuous {
                assert(old(self).order@[old_cursor] == old_cursor);
            }
        }
        self.last_started = now;
    }

    /// Moves on when the item shown has been shown for its duration (and
    /// the playlist has more than one item); says whether it moved.
    fn advance_if_elapsed(&mut self, now: u128, rng: &mut rand::rngs::StdRng) -> (r: bool)
        requires
            old(self).wf(),
        ensures
            final(self).wf(),
            final(self).playlist_view() == old(self).playlist_view(),
            r == is_due(*old(self), now),
            !r ==> *final(self) == *old(self),
            r ==> final(self).started() == now,
            r && old(self).playlist_view().mode == PlaylistMode::Continuous ==> final(self).current_index() == (
            old(self).current_index() + 1) % (old(self).len() as int),
            r ==> next_position(*old(self), *final(self)),
    {
        if self.playlist.items.len() <= 1 {
            return false;
        }
        let idx = self.current_index_exec();
        let elapsed = if now >= self.last_started {
            now - self.last_started
        } else {
            0
        };
        if elapsed >= self.playlist.items[idx].duration {
            self.advance_to_next(now, rng);
            true
        } else {
            false
        }
    }

    fn current_scheduled_item(&self) -> (r: ScheduledItem)
        requires
            self.wf(),
        ensures
            shows(r, *self),
    {
        let idx = self.current_index_exec();
        let item = &self.playlist.items[idx];
        ScheduledItem {
            handle: lit(item.handle.as_str()),
            duration: item.duration,
            fps: item.fps,
            antialias: item.antialias,
            refresh_once: item.refresh_once,
            crossfade: self.playlist.crossfade,
        }
    }
}

/// Time since `start` on the monotonic clock, zero when `now` is earlier.
pub open spec fn elapsed(now: u128, start: u128) -> u128 {
    if now >= start {
        (now - start) as u128
    } else {
        0
    }
}

/// The item a target shows has run its course and there is another to go
/// to.
pub open spec fn is_due(s: TargetState, now: u128) -> bool {
    s.len() > 1 && elapsed(now, s.started()) >= s.playlist_view().items@[s.current_index()].duration
}

/// `si` is the item state `s` shows.
pub open spec fn shows(si: ScheduledItem, s: TargetState) -> bool {
    let it = s.playlist_view().items@[s.current_index()];
    &&& si.handle@ == it.handle@
    &&& si.duration == it.duration
    &&& si.fps == it.fps
    &&& si.antialias == it.antialias
    &&& si.refresh_once == it.refresh_once
    &&& si.crossfade == s.playlist_view().crossfade
}


/// Where in its order a target goes when it moves on: a playlist of one
/// item stays where it is; otherwise the position moves up by one while the
/// order lasts, and once it is used up a new order is drawn (a permutation
/// of the items, as listed for a continuous playlist) and walked from its
/// start.
pub open spec fn next_position(old: TargetState, new: TargetState) -> bool {
    if old.len() <= 1 {
        new.order_view() == old.order_view() && new.cursor_view() == old.cursor_view()
    } else if old.cursor_view() + 1 < old.order_view().len() {
        new.order_view() == old.order_view() && new.cursor_view() == old.cursor_view() + 1
    } else {
        &&& new.cursor_view() == 0
        &&& order_fits(new.order_view(), old.len(), old.playlist_view().mode)
    }
}

/// `new` is `old` moved on at `now`.
pub open spec fn advanced(old: TargetState, new: TargetState, now: u128) -> bool {
    &&& new.wf()
    &&& next_position(old, new)
    &&& new.playlist_view() == old.playlist_view()
    &&& new.started() == now
    &&& old.len() <= 1 ==> new.current_index() == old.current_index()
    &&& old.playlist_view().mode == PlaylistMode::Continuous ==> new.current_index() == (old.current_index()
        + 1) % (old.len() as int)
}

/// What a tick at `now` makes of a target: moved on when due, else as it
/// was.
pub open spec fn ticked(old: TargetState, new: TargetState, now: u128) -> bool {
    if is_due(old, now) {
        advanced(old, new, now)
    } else {
        new == old
    }
}

/// How many of the first `k` targets are due at `now`.
pub open spec fn due_count(ts: Seq<(TargetId, TargetState)>, now: u128, k: int) -> nat
    decreases k,
{
    if k <= 0 {
        0
    } else {
        due_count(ts, now, k - 1) + if is_due(ts[k - 1].1, now) {
            1nat
        } else {
            0nat
        }
    }
}

proof fn lemma_due_count_mono(ts: Seq<(TargetId, TargetState)>, now: u128, a: int, b: int)
    requires
        a <= b,
    ensures
        due_count(ts, now, a) <= due_count(ts, now, b),
    decreases b - a,
{
    if a < b {
        lemma_due_count_mono(ts, now, a, b - 1);
    }
}

pub open spec fn ids_unique(ts: Seq<(TargetId, TargetState)>) -> bool {
    forall|i: int, j: int| 0 <= i < j < ts.len() ==> ts[i].0.0@ != ts[j].0.0@
}

pub open spec fn states_wf(ts: Seq<(TargetId, TargetState)>) -> bool {
    forall|i: int| 0 <= i < ts.len() ==> (#[trigger] ts[i]).1.wf()
}

pub open spec fn playlists_nonempty(ps: Seq<(String, PlaylistRuntime)>) -> bool {
    forall|i: int| 0 <= i < ps.len() ==> (#[trigger] ps[i]).1.items@.len() >= 1
}

/// Index of the first playlist named `name`.
pub open spec fn playlist_index(ps: Seq<(String, PlaylistRuntime)>, name: Seq<char>) -> Option<int> {
    if exists|i: int| 0 <= i < ps.len() && ps[i].0@ == name {
        Some(
            choose|i: int|
                0 <= i < ps.len() && ps[i].0@ == name && forall|j: int| 0 <= j < i ==> ps[j].0@ != name,
        )
    } else {
        None
    }
}

/// Index of the target `id`.
pub open spec fn target_index(ts: Seq<(TargetId, TargetState)>, id: Seq<char>) -> Option<int> {
    if exists|i: int| 0 <= i < ts.len() && ts[i].0.0@ == id {
        Some(choose|i: int| 0 <= i < ts.len() && ts[i].0.0@ == id)
    } else {
        None
    }
}


proof fn lemma_target_index(ts: Seq<(TargetId, TargetState)>, k: int)
    requires
        ids_unique(ts),
        0 <= k < ts.len(),
    ensures
        target_index(ts, ts[k].0.0@) == Some(k),
{
    let w = choose|i: int| 0 <= i < ts.len() && ts[i].0.0@ == ts[k].0.0@;
    if w < k {
    } else if w > k {
    }
}

pub open spec fn state_in(ts: Seq<(TargetId, TargetState)>, id: Seq<char>) -> Option<TargetState> {
    match target_index(ts, id) {
        Some(i) => Some(ts[i].1),
        None => None,
    }
}

proof fn lemma_update_state(ts0: Seq<(TargetId, TargetState)>, k: int, st: TargetState)
    requires
        ids_unique(ts0),
        states_wf(ts0),
        st.wf(),
        0 <= k < ts0.len(),
    ensures
        ({
            let ts1 = ts0.update(k, (ts0[k].0, st));
            &&& ids_unique(ts1)
            &&& states_wf(ts1)
            &&& state_in(ts1, ts0[k].0.0@) == Some(st)
            &&& forall|other: Seq<char>| other != ts0[k].0.0@ ==> #[trigger] state_in(ts1, other) == state_in(ts0, other)
        }),
{
    let ts1 = ts0.update(k, (ts0[k].0, st));
    assert forall|i: int, j: int| 0 <= i < j < ts1.len() implies ts1[i].0.0@ != ts1[j].0.0@ by {
        assert(ts0[i].0.0@ != ts0[j].0.0@);
    }
    assert forall|i: int| 0 <= i < ts1.len() implies (#[trigger] ts1[i]).1.wf() by {
        if i != k {
            assert(ts0[i].1.wf());
        }
    }
    lemma_target_index(ts1, k);
    assert forall|other: Seq<char>| other != ts0[k].0.0@ implies #[trigger] state_in(ts1, other) == state_in(ts0, other) by {
        if exists|i: int| 0 <= i < ts1.len() && ts1[i].0.0@ == other {
            let w = choose|i: int| 0 <= i < ts1.len() && ts1[i].0.0@ == other;
            lemma_target_index(ts1, w);
            lemma_target_index(ts0, w);
        } else {
            if exists|i: int| 0 <= i < ts0.len() && ts0[i].0.0@ == other {
                let w = choose|i: int| 0 <= i < ts0.len() && ts0[i].0.0@ == other;
                assert(ts1[w].0.0@ == other);
            }
        }
    }
}

/// The targets other than `id` are as they were.
pub open spec fn others_unchanged(before: &Scheduler, after: &Scheduler, id: Seq<char>) -> bool {
    forall|other: Seq<char>| other != id ==> #[trigger] after.target_state(other) == before.target_state(other)
}

/// The scheduler knows a playlist exactly when the configuration it was
/// built from has one of that name.
pub proof fn lemma_playlist_known(ps: Seq<(String, PlaylistRuntime)>, c: MultiConfig, name: Seq<char>)
    requires
        ps.len() == c.playlists@.len(),
        forall|i: int| 0 <= i < ps.len() ==> (#[trigger] ps[i]).0@ == c.playlists@[i].0@,
    ensures
        (playlist_index(ps, name) is Some) == (crate::multiconfig::first_named(c.playlists@, name) is Some),
{
    if exists|i: int| 0 <= i < ps.len() && ps[i].0@ == name {
        let i = choose|i: int| 0 <= i < ps.len() && ps[i].0@ == name;
        assert(c.playlists@[i].0@ == name);
    }
    if exists|i: int| 0 <= i < c.playlists@.len() && c.playlists@[i].0@ == name {
        let i = choose|i: int| 0 <= i < c.playlists@.len() && c.playlists@[i].0@ == name;
        assert(ps[i].0@ == name);
    }
}

/// What `set_target` does: an unknown playlist is refused and nothing
/// changes; otherwise the target gets a fresh state of that playlist and the
/// change reports the item it shows.
pub open spec fn set_outcome(
    before: &Scheduler,
    after: &Scheduler,
    target: Seq<char>,
    playlist: Seq<char>,
    now: u128,
    r: Result<SelectionChange, SchedulerError>,
) -> bool {
    match playlist_index(before.playlists_view(), playlist) {
        None => match r {
            Err(SchedulerErrorOf::UnknownPlaylist(p)) => p@ == playlist && after.targets_view()
                == before.targets_view(),
            Ok(_) => false,
        },
        Some(i) => match r {
            Ok(c) => {
                &&& c.target.0@ == target
                &&& c.started_at == now
                &&& match after.target_state(target) {
                    Some(s) => fresh_state(s, before.playlists_view()[i].1, now) && shows(c.item, s),
                    None => false,
                }
                &&& others_unchanged(before, after, target)
            },
            Err(_) => false,
        },
    }
}

/// What `skip_target` does: an unknown target, or one whose playlist has a
/// single item, is left alone; otherwise it moves on at `now` and the change
/// reports the item it now shows.
pub open spec fn skip_outcome(
    before: &Scheduler,
    after: &Scheduler,
    target: Seq<char>,
    now: u128,
    r: Option<SelectionChange>,
) -> bool {
    match before.target_state(target) {
        None => r is None && after.targets_view() == before.targets_view(),
        Some(s) => if s.len() <= 1 {
            r is None && after.targets_view() == before.targets_view()
        } else {
            match r {
                Some(c) => {
                    &&& c.target.0@ == target
                    &&& c.started_at == now
                    &&& match after.target_state(target) {
                        Some(s2) => advanced(s, s2, now) && shows(c.item, s2),
                        None => false,
                    }
                    &&& others_unchanged(before, after, target)
                },
                None => false,
            }
        },
    }
}

/// A permutation of the items holds each item once.
proof fn lemma_order_distinct(o: Seq<usize>, n: nat)
    requires
        o.to_multiset() == identity(n).to_multiset(),
        n <= usize::MAX,
    ensures
        o.no_duplicates(),
{
    let id = identity(n);
    assert(id.no_duplicates()) by {
        assert forall|i: int, j: int| 0 <= i < id.len() && 0 <= j < id.len() && i != j implies id[i] != id[j] by {
            assert(id[i] == i as usize);
            assert(id[j] == j as usize);
        }
    }
    id.lemma_multiset_has_no_duplicates();
    o.lemma_multiset_has_no_duplicates_conv();
}

/// Moving on inside an order shows another item: every item of a playlist
/// comes once in an order, so while the order lasts, each move on (a tick
/// that is due, or a skip after an item failed to load) goes to an item not
/// shown just before.
pub proof fn lemma_move_shows_another_item(old: TargetState, new: TargetState, now: u128)
    requires
        old.wf(),
        advanced(old, new, now),
        old.len() > 1,
        old.len() <= usize::MAX,
        old.cursor_view() + 1 < old.order_view().len(),
    ensures
        new.current_index() != old.current_index(),
        new.cursor_view() == old.cursor_view() + 1,
{
    old.lemma_wf_order();
    lemma_order_distinct(old.order_view(), old.len());
}

/// A fresh state of playlist `p` started at `now`.
pub open spec fn fresh_state(s: TargetState, p: PlaylistRuntime, now: u128) -> bool {
    &&& s.wf()
    &&& s.cursor_view() == 0
    &&& same_runtime(s.playlist_view(), p)
    &&& s.started() == now
    &&& p.mode == PlaylistMode::Continuous ==> s.current_index() == 0
}


/// A continuous playlist is walked in order and wraps around: after `k`
/// moves on (by ticks or skips) a target shows the item `k` places after
/// the one it showed, counted modulo the playlist's length.
pub proof fn lemma_continuous_walk(states: Seq<TargetState>, times: Seq<u128>)
    requires
        states.len() == times.len() + 1,
        states[0].wf(),
        states[0].playlist_view().mode == PlaylistMode::Continuous,
        forall|i: int| 0 <= i < times.len() ==> #[trigger] advanced(states[i], states[i + 1], times[i]),
    ensures
        states.last().playlist_view() == states[0].playlist_view(),
        states.last().wf(),
        states.last().current_index() == (states[0].current_index() + times.len()) % (states[0].len() as int),
    decreases times.len(),
{
    states[0].lemma_current_in_range();
    let n = states[0].len() as int;
    if times.len() == 0 {
        vstd::arithmetic::div_mod::lemma_small_mod(states[0].current_index() as nat, n as nat);
    } else {
        let m = times.len() as int;
        let prev = states.drop_last();
        assert forall|i: int| 0 <= i < times.drop_last().len() implies #[trigger] advanced(
            prev[i],
            prev[i + 1],
            times.drop_last()[i],
        ) by {
            assert(advanced(states[i], states[i + 1], times[i]));
        }
        lemma_continuous_walk(prev, times.drop_last());
        let a = states[0].current_index() + (m - 1);
        assert(prev.last() == states[m - 1]);
        assert(advanced(states[m - 1], states[m], times[m - 1]));
        assert(states.last() == states[m]);
        vstd::arithmetic::div_mod::lemma_add_mod_noop(a, 1, n);
        if n == 1 {
            vstd::arithmetic::div_mod::lemma_mod_self_0(1);
        } else {
            vstd::arithmetic::div_mod::lemma_small_mod(1, n as nat);
        }
    }
}

/// One target at a tick: moved on when due; the change reports it.
fn tick_one(tid: &TargetId, st: TargetState, now: u128, rng: &mut rand::rngs::StdRng) -> (r: (
    TargetState,
    Option<SelectionChange>,
))
    requires
        st.wf(),
    ensures
        r.0.wf(),
        ticked(st, r.0, now),
        is_due(st, now) <==> r.1 is Some,
        r.1 matches Some(c) ==> c.target.0@ == tid.0@ && c.started_at == now && shows(c.item, r.0),
{
    let mut st = st;
    let moved = st.advance_if_elapsed(now, rng);
    if moved {
        let item = st.current_scheduled_item();
        (st, Some(SelectionChange { target: TargetId(lit(tid.0.as_str())), item, started_at: now }))
    } else {
        (st, None)
    }
}

/// What a tick at `now` made of the targets `before`: each target, in
/// order, is as `ticked` says, and `changes` has one entry per target that
/// was due, in the same order, reporting the item it now shows.
pub open spec fn tick_report(
    before: Seq<(TargetId, TargetState)>,
    after: Seq<(TargetId, TargetState)>,
    changes: Seq<SelectionChange>,
    now: u128,
) -> bool
    decreases before.len(),
{
    if before.len() == 0 {
        after.len() == 0 && changes.len() == 0
    } else {
        let b = before.last();
        let a = after.last();
        &&& after.len() == before.len()
        &&& a.0 == b.0
        &&& ticked(b.1, a.1, now)
        &&& if is_due(b.1, now) {
            &&& changes.len() > 0
            &&& changes.last().target.0@ == b.0.0@
            &&& changes.last().started_at == now
            &&& shows(changes.last().item, a.1)
            &&& tick_report(before.drop_last(), after.drop_last(), changes.drop_last(), now)
        } else {
            tick_report(before.drop_last(), after.drop_last(), changes, now)
        }
    }
}

/// The playlists of every target, what each shows, and the generator that
/// shuffles their orders.
pub struct Scheduler {
    playlists: Vec<(String, PlaylistRuntime)>,
    targets: Vec<(TargetId, TargetState)>,
    rng: rand::rngs::StdRng,
}

/// Every playlist of the configuration has an item (which `validate`
/// guarantees).
pub open spec fn config_playlists_nonempty(c: MultiConfig) -> bool {
    forall|i: int| 0 <= i < c.playlists@.len() ==> (#[trigger] c.playlists@[i]).1.items@.len() >= 1
}

proof fn lemma_playlists_have_items(ps: Seq<(String, crate::multiconfig::Playlist)>, i: int, k: int)
    requires
        crate::multiconfig::playlists_error(ps, i) is None,
        0 <= i <= k < ps.len(),
    ensures
        ps[k].1.items@.len() >= 1,
    decreases k - i,
{
    if i < k {
        lemma_playlists_have_items(ps, i + 1, k);
    }
}

/// A configuration that validates can be scheduled: each of its playlists
/// has items.
pub proof fn lemma_valid_config_schedulable(c: MultiConfig)
    requires
        crate::multiconfig::config_error(c) is None,
    ensures
        config_playlists_nonempty(c),
{
    assert forall|i: int| 0 <= i < c.playlists@.len() implies (#[trigger] c.playlists@[i]).1.items@.len() >= 1 by {
        lemma_playlists_have_items(c.playlists@, 0, i);
    }
}

impl Scheduler {
    pub closed spec fn playlists_view(&self) -> Seq<(String, PlaylistRuntime)> {
        self.playlists@
    }

    pub closed spec fn targets_view(&self) -> Seq<(TargetId, TargetState)> {
        self.targets@
    }

    pub open spec fn wf(&self) -> bool {
        &&& playlists_nonempty(self.playlists_view())
        &&& states_wf(self.targets_view())
        &&& ids_unique(self.targets_view())
    }

    /// The state of target `id`.
    pub open spec fn target_state(&self, id: Seq<char>) -> Option<TargetState> {
        state_in(self.targets_view(), id)
    }

    /// A scheduler for the configuration's playlists, with no targets yet.
    pub fn new(config: &MultiConfig, seed: u64) -> (r: Self)
        requires
            config_playlists_nonempty(*config),
        ensures
            r.wf(),
            r.targets_view().len() == 0,
            r.playlists_view().len() == config.playlists@.len(),
            forall|i: int|
                0 <= i < config.playlists@.len() ==> (#[trigger] r.playlists_view()[i]).0@ == config.playlists@[i].0@
                    && runtime_from(r.playlists_view()[i].1, config.playlists@[i].1, config.defaults),
    {
        let mut playlists: Vec<(String, PlaylistRuntime)> = Vec::new();
        let mut i: usize = 0;
        while i < config.playlists.len()
            invariant
                i <= config.playlists@.len(),
                config_playlists_nonempty(*config),
                playlists@.len() == i,
                forall|j: int|
                    0 <= j < i ==> (#[trigger] playlists@[j]).0@ == config.playlists@[j].0@ && runtime_from(
                        playlists@[j].1,
                        config.playlists@[j].1,
                        config.defaults,
                    ),
            decreases config.playlists@.len() - i,
        {
            let runtime = PlaylistRuntime::from_config(&config.playlists[i].1, &config.defaults);
            playlists.push((lit(config.playlists[i].0.as_str()), runtime));
            i += 1;
        }
        proof {
            assert forall|j: int| 0 <= j < playlists@.len() implies (#[trigger] playlists@[j]).1.items@.len() >= 1 by {
                assert(config.playlists@[j].1.items@.len() >= 1);
            }
        }
        Scheduler { playlists, targets: Vec::new(), rng: seeded_rng(seed) }
    }


    /// Shows playlist `playlist` on `target` from `now`, from the start of a
    /// fresh order, replacing what the target showed; an unknown playlist is
    /// refused and nothing changes.
    pub fn set_target(&mut self, target: TargetId, playlist: &str, now: u128) -> (r: Result<
        SelectionChange,
        SchedulerError,
    >)
        requires
            old(self).wf(),
        ensures
            final(self).wf(),
            final(self).playlists_view() == old(self).playlists_view(),
            set_outcome(&*old(self), &*final(self), target.0@, playlist@, now, r),
    {
        let pi = match self.find_playlist(playlist) {
            None => {
                return Err(SchedulerErrorOf::UnknownPlaylist(lit(playlist)));
            },
            Some(pi) => pi,
        };
        let ghost old_self = *self;
        let runtime = self.playlists[pi].1.duplicate();
        proof {
            assert(self.playlists@[pi as int].1.items@.len() >= 1);
        }
        let state = TargetState::new(runtime, now, &mut self.rng);
        let item = state.current_scheduled_item();
        let id_copy = TargetId(lit(target.0.as_str()));
        let found = self.find_target(target.0.as_str());
        let ghost ts0 = self.targets@;
        match found {
            Some(k) => {
                self.targets.set(k, (target, state));
                proof {
                    let ts1 = self.targets@;
                    assert forall|i: int, j: int| 0 <= i < j < ts1.len() implies ts1[i].0.0@ != ts1[j].0.0@ by {
                        assert(ts0[i].0.0@ != ts0[j].0.0@);
                    }
                    assert forall|i: int| 0 <= i < ts1.len() implies (#[trigger] ts1[i]).1.wf() by {
                        if i != k {
                            assert(ts0[i].1.wf());
                        }
                    }
                    lemma_target_index(ts1, k as int);
                    assert forall|other: Seq<char>| other != id_copy.0@ implies #[trigger] self.target_state(other)
                        == old_self.target_state(other) by {
                        if exists|i: int| 0 <= i < ts1.len() && ts1[i].0.0@ == other {
                            let w = choose|i: int| 0 <= i < ts1.len() && ts1[i].0.0@ == other;
                            lemma_target_index(ts1, w);
                            lemma_target_index(ts0, w);
                        } else {
                            if exists|i: int| 0 <= i < ts0.len() && ts0[i].0.0@ == other {
                                let w = choose|i: int| 0 <= i < ts0.len() && ts0[i].0.0@ == other;
                                assert(ts1[w].0.0@ == other);
                            }
                        }
                    }
                }
            },
            None => {
                self.targets.push((target, state));
                proof {
                    let ts1 = self.targets@;
                    let n = ts0.len() as int;
                    assert forall|i: int, j: int| 0 <= i < j < ts1.len() implies ts1[i].0.0@ != ts1[j].0.0@ by {
                        if j == n {
                            assert(ts0[i].0.0@ != id_copy.0@);
                        } else {
                            assert(ts0[i].0.0@ != ts0[j].0.0@);
                        }
                    }
                    assert forall|i: int| 0 <= i < ts1.len() implies (#[trigger] ts1[i]).1.wf() by {
                        if i < n {
                            assert(ts0[i].1.wf());
                        }
                    }
                    lemma_target_index(ts1, n);
                    assert forall|other: Seq<char>| other != id_copy.0@ implies #[trigger] self.target_state(other)
                        == old_self.target_state(other) by {
                        if exists|i: int| 0 <= i < ts1.len() && ts1[i].0.0@ == other {
                            let w = choose|i: int| 0 <= i < ts1.len() && ts1[i].0.0@ == other;
                            lemma_target_index(ts1, w);
                            lemma_target_index(ts0, w);
                        } else {
                            if exists|i: int| 0 <= i < ts0.len() && ts0[i].0.0@ == other {
                                let w = choose|i: int| 0 <= i < ts0.len() && ts0[i].0.0@ == other;
                                assert(ts1[w].0.0@ == other);
                            }
                        }
                    }
                }
            },
        }
        proof {
            assert(playlist_index(old_self.playlists_view(), playlist@) == Some(pi as int));
            assert(self.target_state(id_copy.0@) == Some(state));
            assert(fresh_state(state, old_self.playlists_view()[pi as int].1, now));
            assert(shows(item, state));
        }
        Ok(SelectionChange { target: id_copy, item, started_at: now })
    }


    /// Forgets target `target`.
    pub fn remove_target(&mut self, target: &TargetId)
        requires
            old(self).wf(),
        ensures
            final(self).wf(),
            final(self).playlists_view() == old(self).playlists_view(),
            final(self).target_state(target.0@) is None,
            others_unchanged(&*old(self), &*final(self), target.0@),
    {
        let ghost ts0 = self.targets@;
        match self.find_target(target.0.as_str()) {
            None => {},
            Some(k) => {
                self.targets.remove(k);
                proof {
                    let ts1 = self.targets@;
                    assert(ts1 =~= ts0.remove(k as int));
                    assert forall|i: int, j: int| 0 <= i < j < ts1.len() implies ts1[i].0.0@ != ts1[j].0.0@ by {
                        let a = if i < k { i } else { i + 1 };
                        let b = if j < k { j } else { j + 1 };
                        assert(ts0[a].0.0@ != ts0[b].0.0@);
                    }
                    assert forall|i: int| 0 <= i < ts1.len() implies (#[trigger] ts1[i]).1.wf() by {
                        let a = if i < k { i } else { i + 1 };
                        assert(ts0[a].1.wf());
                    }
                    assert forall|i: int| 0 <= i < ts1.len() implies ts1[i].0.0@ != target.0@ by {
                        let a = if i < k { i } else { i + 1 };
                        assert(ts0[a].0.0@ != ts0[k as int].0.0@);
                    }
                    assert forall|other: Seq<char>| other != target.0@ implies #[trigger] state_in(ts1, other)
                        == state_in(ts0, other) by {
                        if exists|i: int| 0 <= i < ts0.len() && ts0[i].0.0@ == other {
                            let w = choose|i: int| 0 <= i < ts0.len() && ts0[i].0.0@ == other;
                            lemma_target_index(ts0, w);
                            assert(w != k);
                            let w1 = if w < k { w } else { w - 1 };
                            assert(ts1[w1] == ts0[w]);
                            lemma_target_index(ts1, w1);
                        } else {
                            if exists|i: int| 0 <= i < ts1.len() && ts1[i].0.0@ == other {
                                let w = choose|i: int| 0 <= i < ts1.len() && ts1[i].0.0@ == other;
                                let a = if w < k { w } else { w + 1 };
                                assert(ts0[a].0.0@ == other);
                            }
                        }
                    }
                }
            },
        }
    }

    /// Moves `target` on to its next item at `now` (see `skip_outcome`).
    pub fn skip_target(&mut self, target: &TargetId, now: u128) -> (r: Option<SelectionChange>)
        requires
            old(self).wf(),
        ensures
            final(self).wf(),
            final(self).playlists_view() == old(self).playlists_view(),
            skip_outcome(&*old(self), &*final(self), target.0@, now, r),
    {
        let ghost ts0 = self.targets@;
        let k = match self.find_target(target.0.as_str()) {
            None => {
                return None;
            },
            Some(k) => k,
        };
        proof {
            assert(ts0[k as int].1.wf());
        }
        if self.targets[k].1.playlist.items.len() <= 1 {
            return None;
        }
        let (tid, mut st) = self.targets.remove(k);
        st.advance_to_next(now, &mut self.rng);
        let item = st.current_scheduled_item();
        let id_copy = TargetId(lit(tid.0.as_str()));
        self.targets.insert(k, (tid, st));
        proof {
            assert(self.targets@ =~= ts0.update(k as int, (ts0[k as int].0, st)));
            lemma_update_state(ts0, k as int, st);
        }
        Some(SelectionChange { target: id_copy, item, started_at: now })
    }

    /// Moves on every target whose item has run its course at `now`, in the
    /// order the targets were added (see `tick_report`).
    pub fn tick(&mut self, now: u128) -> (r: Vec<SelectionChange>)
        requires
            old(self).wf(),
        ensures
            final(self).wf(),
            final(self).playlists_view() == old(self).playlists_view(),
            tick_report(old(self).targets_view(), final(self).targets_view(), r@, now),
    {
        let ghost ts0 = self.targets@;
        let len0 = self.targets.len();
        let mut rest: Vec<(TargetId, TargetState)> = Vec::new();
        std::mem::swap(&mut rest, &mut self.targets);
        let mut changes: Vec<SelectionChange> = Vec::new();
        let ghost n = ts0.len() as int;
        let mut i: usize = 0;
        proof {
            assert(ts0.skip(0) =~= ts0);
            assert(ts0.take(0) =~= Seq::<(TargetId, TargetState)>::empty());
        }
        while rest.len() > 0
            invariant
                rest@ == ts0.skip(i as int),
                0 <= i <= n,
                n == ts0.len(),
                n == len0,
                ids_unique(ts0),
                states_wf(ts0),
                self.targets@.len() == i,
                self.playlists@ == old(self).playlists@,
                forall|k: int| 0 <= k < i ==> (#[trigger] self.targets@[k]).0 == ts0[k].0,
                states_wf(self.targets@),
                tick_report(ts0.take(i as int), self.targets@, changes@, now),
            decreases rest@.len(),
        {
            let ghost before_changes = changes@;
            let ghost before_targets = self.targets@;
            proof {
                assert(rest@[0] == ts0[i as int]);
                assert(ts0[i as int].1.wf());
            }
            let (tid, st) = rest.remove(0);
            let (st, change) = tick_one(&tid, st, now, &mut self.rng);
            match change {
                Some(c) => changes.push(c),
                None => {},
            }
            self.targets.push((tid, st));
            proof {
                assert(rest@ =~= ts0.skip(i + 1));
                assert(ts0.take(i + 1).drop_last() =~= ts0.take(i as int));
                assert(self.targets@.drop_last() =~= before_targets);
                if change is Some {
                    assert(changes@.drop_last() =~= before_changes);
                }
                assert(ts0.take(i + 1).last() == ts0[i as int]);
            }
            i += 1;
        }
        proof {
            assert(ts0.take(n) =~= ts0);
            assert forall|a: int, b: int| 0 <= a < b < self.targets@.len() implies self.targets@[a].0.0@ != self.targets@[b].0.0@ by {
                assert(self.targets@[a].0 == ts0[a].0);
                assert(self.targets@[b].0 == ts0[b].0);
            }
        }
        changes
    }

    fn find_playlist(&self, name: &str) -> (r: Option<usize>)
        ensures
            match playlist_index(self.playlists_view(), name@) {
                Some(i) => r == Some(i as usize),
                None => r is None,
            },
            r matches Some(i) ==> i < self.playlists_view().len() && playlist_index(
                self.playlists_view(),
                name@,
            ) == Some(i as int),
    {
        let target = chars_of(name);
        let mut i: usize = 0;
        while i < self.playlists.len()
            invariant
                i <= self.playlists@.len(),
                target@ == name@,
                forall|j: int| 0 <= j < i ==> self.playlists@[j].0@ != name@,
            decreases self.playlists@.len() - i,
        {
            let candidate = chars_of(self.playlists[i].0.as_str());
            if chars_eq(candidate.as_slice(), target.as_slice()) {
                proof {
                    let w = choose|k: int|
                        0 <= k < self.playlists@.len() && self.playlists@[k].0@ == name@ && forall|j: int|
                            0 <= j < k ==> self.playlists@[j].0@ != name@;
                    assert(0 <= i < self.playlists@.len() && self.playlists@[i as int].0@ == name@);
                    if w < i {
                    } else if w > i {
                        assert(self.playlists@[i as int].0@ != name@);
                    }
                }
                return Some(i);
            }
            i += 1;
        }
        None
    }

    fn find_target(&self, id: &str) -> (r: Option<usize>)
        requires
            self.wf(),
        ensures
            match target_index(self.targets_view(), id@) {
                Some(i) => r == Some(i as usize),
                None => r is None,
            },
            r matches Some(i) ==> i < self.targets_view().len() && self.targets_view()[i as int].0.0@ == id@
                && target_index(self.targets_view(), id@) == Some(i as int),
    {
        let target = chars_of(id);
        let mut i: usize = 0;
        while i < self.targets.len()
            invariant
                i <= self.targets@.len(),
                self.wf(),
                target@ == id@,
                forall|j: int| 0 <= j < i ==> self.targets@[j].0.0@ != id@,
            decreases self.targets@.len() - i,
        {
            let candidate = chars_of(self.targets[i].0.0.as_str());
            if chars_eq(candidate.as_slice(), target.as_slice()) {
                proof {
                    let w = choose|k: int| 0 <= k < self.targets@.len() && self.targets@[k].0.0@ == id@;
                    assert(0 <= i < self.targets@.len() && self.targets@[i as int].0.0@ == id@);
                    if w != i {
                        if w < i {
                        } else {
                            assert(self.targets@[i as int].0.0@ != self.targets@[w].0.0@);
                        }
                    }
                }
                return Some(i);
            }
            i += 1;
        }
        None
    }
}

} // verus!
