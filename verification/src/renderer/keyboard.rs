//! The Shadertoy keyboard texture: 256 columns (one per ASCII code) by
//! three rows, four bytes per texel. Row 0 holds whether the key is down,
//! row 1 a one-frame pulse when it goes down, row 2 a toggle flipped on each
//! press. Each cell is 255 or 0 in all four channels.
use vstd::prelude::*;

verus! {

pub const KEYBOARD_WIDTH: usize = 256;
pub const KEYBOARD_HEIGHT: usize = 3;
pub const KEYBOARD_CHANNELS: usize = 4;
pub const KEYBOARD_ROW_STATE: usize = 0;
pub const KEYBOARD_ROW_PULSE: usize = 1;
pub const KEYBOARD_ROW_TOGGLE: usize = 2;
/// Bytes in the texture.
pub const KEYBOARD_BYTES: usize = 3072;

/// The four bytes of cell (`row`, `column`) all hold `value`.
pub open spec fn cell_is(data: Seq<u8>, row: int, column: int, value: u8) -> bool {
    forall|c: int| 0 <= c < 4 ==> #[trigger] data[(row * 256 + column) * 4 + c] == value
}

pub open spec fn pulse_value(pending: bool) -> u8 {
    if pending {
        255
    } else {
        0
    }
}

pub open spec fn flipped(v: u8) -> u8 {
    if v == 0 {
        255
    } else {
        0
    }
}


/// What a key event does to the key states: a press of a key that is up
/// (and not an auto-repeat) puts it down, flips its toggle, starts its
/// pulse and marks the texture changed; a release of a key that is down
/// puts it up and marks the texture changed; anything else changes nothing.
/// The result says whether anything changed.
pub open spec fn key_step(old: KeyboardState, new: KeyboardState, code: u8, down: bool, repeat: bool, r: bool) -> bool {
    let k = code as int;
    let accepted = if down {
        !repeat && old.pressed_view()[k] != 255
    } else {
        old.pressed_view()[k] != 0
    };
    &&& r == accepted
    &&& if !accepted {
        &&& new.pressed_view() == old.pressed_view()
        &&& new.toggled_view() == old.toggled_view()
        &&& new.pending_view() == old.pending_view()
        &&& new.dirty_view() == old.dirty_view()
        &&& new.texture_view() == old.texture_view()
    } else if down {
        &&& new.pressed_view() == old.pressed_view().update(k, 255)
        &&& new.toggled_view() == old.toggled_view().update(k, flipped(old.toggled_view()[k]))
        &&& new.pending_view() == old.pending_view().update(k, true)
        &&& new.dirty_view()
    } else {
        &&& new.pressed_view() == old.pressed_view().update(k, 0)
        &&& new.toggled_view() == old.toggled_view()
        &&& new.pending_view() == old.pending_view()
        &&& new.dirty_view()
    }
}

/// A press of a key that is up, then its release, leave it up with its
/// toggle flipped and a pulse pending; the other keys are as they were.
pub proof fn lemma_press_then_release(
    s0: KeyboardState,
    s1: KeyboardState,
    s2: KeyboardState,
    code: u8,
    r1: bool,
    r2: bool,
)
    requires
        s0.pressed_view().len() == 256,
        s0.pressed_view()[code as int] == 0,
        key_step(s0, s1, code, true, false, r1),
        key_step(s1, s2, code, false, false, r2),
    ensures
        r1 && r2,
        s2.pressed_view() == s0.pressed_view(),
        s2.toggled_view() == s0.toggled_view().update(code as int, flipped(s0.toggled_view()[code as int])),
        s2.pending_view() == s0.pending_view().update(code as int, true),
        s2.dirty_view(),
{
    assert(s2.pressed_view() =~= s0.pressed_view());
}

/// Two presses of a key, each followed by its release, bring its toggle
/// back to where it was.
pub proof fn lemma_toggle_twice(v: u8)
    requires
        v == 0 || v == 255,
    ensures
        flipped(flipped(v)) == v,
{
}

proof fn lemma_other_cell(old: Seq<u8>, new: Seq<u8>, row: int, col: int, r: int, k: int, x: u8)
    requires
        old.len() == KEYBOARD_BYTES,
        new.len() == KEYBOARD_BYTES,
        0 <= row < 3,
        0 <= col < 256,
        0 <= r < 3,
        0 <= k < 256,
        r != row || k != col,
        forall|i: int|
            0 <= i < KEYBOARD_BYTES && !((row * 256 + col) * 4 <= i < (row * 256 + col) * 4 + 4) ==> #[trigger] new[i]
                == old[i],
        cell_is(old, r, k, x),
    ensures
        cell_is(new, r, k, x),
{
    assert forall|c: int| 0 <= c < 4 implies #[trigger] new[(r * 256 + k) * 4 + c] == x by {
        let i = (r * 256 + k) * 4 + c;
        assert(old[i] == x);
        assert(0 <= i < KEYBOARD_BYTES);
        assert(!((row * 256 + col) * 4 <= i < (row * 256 + col) * 4 + 4));
    }
}

/// The key states and the texture that shows them.
pub struct KeyboardState {
    pressed: [u8; KEYBOARD_WIDTH],
    toggled: [u8; KEYBOARD_WIDTH],
    pulse_pending: [bool; KEYBOARD_WIDTH],
    data: Vec<u8>,
    dirty: bool,
}

impl KeyboardState {
    /// Key `k` is down (255) or up (0).
    pub closed spec fn pressed_view(&self) -> Seq<u8> {
        self.pressed@
    }

    /// The toggle of key `k` (255 or 0).
    pub closed spec fn toggled_view(&self) -> Seq<u8> {
        self.toggled@
    }

    /// Key `k` went down since the pulses were last cleared.
    pub closed spec fn pending_view(&self) -> Seq<bool> {
        self.pulse_pending@
    }

    /// The texture changed since it was last taken.
    pub closed spec fn dirty_view(&self) -> bool {
        self.dirty
    }

    /// The texture.
    pub closed spec fn texture_view(&self) -> Seq<u8> {
        self.data@
    }

    /// The texture has one cell per key and row, and shows exactly the key
    /// states.
    pub closed spec fn wf(&self) -> bool {
        &&& self.data@.len() == KEYBOARD_BYTES
        &&& self.pressed@.len() == 256
        &&& self.toggled@.len() == 256
        &&& self.pulse_pending@.len() == 256
        &&& forall|k: int| 0 <= k < 256 ==> (#[trigger] self.pressed@[k] == 0 || self.pressed@[k] == 255)
        &&& forall|k: int| 0 <= k < 256 ==> (#[trigger] self.toggled@[k] == 0 || self.toggled@[k] == 255)
        &&& forall|k: int| 0 <= k < 256 ==> cell_is(self.data@, 0, k, #[trigger] self.pressed@[k])
        &&& forall|k: int| 0 <= k < 256 ==> cell_is(self.data@, 1, k, pulse_value(#[trigger] self.pulse_pending@[k]))
        &&& forall|k: int| 0 <= k < 256 ==> cell_is(self.data@, 2, k, #[trigger] self.toggled@[k])
    }

    /// The texture always shows the key states: row 0 the keys down, row 1
    /// the pending pulses, row 2 the toggles.
    pub proof fn lemma_texture_shows_keys(&self, k: int)
        requires
            self.wf(),
            0 <= k < 256,
        ensures
            self.texture_view().len() == KEYBOARD_BYTES,
            cell_is(self.texture_view(), 0, k, self.pressed_view()[k]),
            cell_is(self.texture_view(), 1, k, pulse_value(self.pending_view()[k])),
            cell_is(self.texture_view(), 2, k, self.toggled_view()[k]),
            self.pressed_view()[k] == 0 || self.pressed_view()[k] == 255,
            self.toggled_view()[k] == 0 || self.toggled_view()[k] == 255,
    {
    }

    /// All keys up, no toggles or pulses, a blank texture.
    pub fn new() -> (r: Self)
        ensures
            r.wf(),
            forall|k: int| 0 <= k < 256 ==> #[trigger] r.pressed_view()[k] == 0,
            forall|k: int| 0 <= k < 256 ==> #[trigger] r.toggled_view()[k] == 0,
            forall|k: int| 0 <= k < 256 ==> !#[trigger] r.pending_view()[k],
            !r.dirty_view(),
            forall|i: int| 0 <= i < KEYBOARD_BYTES ==> #[trigger] r.texture_view()[i] == 0,
    {
        let mut data: Vec<u8> = Vec::new();
        let mut i: usize = 0;
        while i < KEYBOARD_BYTES
            invariant
                i <= KEYBOARD_BYTES,
                data@.len() == i,
                forall|j: int| 0 <= j < i ==> #[trigger] data@[j] == 0,
            decreases KEYBOARD_BYTES - i,
        {
            data.push(0);
            i += 1;
        }
        let r = KeyboardState {
            pressed: [0u8; KEYBOARD_WIDTH],
            toggled: [0u8; KEYBOARD_WIDTH],
            pulse_pending: [false; KEYBOARD_WIDTH],
            data,
            dirty: false,
        };
        proof {
            assert forall|k: int| 0 <= k < 256 implies cell_is(r.data@, 0, k, #[trigger] r.pressed@[k]) by {
                assert forall|c: int| 0 <= c < 4 implies #[trigger] r.data@[(0 * 256 + k) * 4 + c] == r.pressed@[k] by {}
            }
            assert forall|k: int| 0 <= k < 256 implies cell_is(r.data@, 1, k, pulse_value(#[trigger] r.pulse_pending@[k])) by {
                assert forall|c: int| 0 <= c < 4 implies #[trigger] r.data@[(1 * 256 + k) * 4 + c] == pulse_value(r.pulse_pending@[k]) by {}
            }
            assert forall|k: int| 0 <= k < 256 implies cell_is(r.data@, 2, k, #[trigger] r.toggled@[k]) by {
                assert forall|c: int| 0 <= c < 4 implies #[trigger] r.data@[(2 * 256 + k) * 4 + c] == r.toggled@[k] by {}
            }
        }
        r
    }


    /// Applies a key event for ASCII code `code` (see `key_step`).
    pub fn handle_key(&mut self, code: u8, down: bool, repeat: bool) -> (r: bool)
        requires
            old(self).wf(),
        ensures
            final(self).wf(),
            key_step(*old(self), *final(self), code, down, repeat, r),
    {
        let index = code as usize;
        if down {
            if repeat || self.pressed[index] == 255 {
                return false;
            }
            let ghost s0 = *self;
            self.pressed[index] = 255;
            self.write_cell(KEYBOARD_ROW_STATE, index, 255);
            let ghost s1 = *self;
            self.write_cell(KEYBOARD_ROW_PULSE, index, 255);
            let ghost s2 = *self;
            self.pulse_pending[index] = true;
            let new_value: u8 = if self.toggled[index] == 0 {
                255
            } else {
                0
            };
            self.toggled[index] = new_value;
            self.write_cell(KEYBOARD_ROW_TOGGLE, index, new_value);
            self.dirty = true;
            proof {
                assert forall|k: int| 0 <= k < 256 implies cell_is(self.data@, 0, k, #[trigger] self.pressed@[k]) by {
                    if k != index {
                        lemma_other_cell(s0.data@, s1.data@, 0, index as int, 0, k, s0.pressed@[k]);
                        lemma_other_cell(s1.data@, s2.data@, 1, index as int, 0, k, s0.pressed@[k]);
                    } else {
                        lemma_other_cell(s1.data@, s2.data@, 1, index as int, 0, k, 255);
                    }
                    lemma_other_cell(s2.data@, self.data@, 2, index as int, 0, k, self.pressed@[k]);
                }
                assert forall|k: int| 0 <= k < 256 implies cell_is(self.data@, 1, k, pulse_value(#[trigger] self.pulse_pending@[k])) by {
                    if k != index {
                        lemma_other_cell(s0.data@, s1.data@, 0, index as int, 1, k, pulse_value(s0.pulse_pending@[k]));
                        lemma_other_cell(s1.data@, s2.data@, 1, index as int, 1, k, pulse_value(s0.pulse_pending@[k]));
                    }
                    lemma_other_cell(s2.data@, self.data@, 2, index as int, 1, k, pulse_value(self.pulse_pending@[k]));
                }
                assert forall|k: int| 0 <= k < 256 implies cell_is(self.data@, 2, k, #[trigger] self.toggled@[k]) by {
                    if k != index {
                        lemma_other_cell(s0.data@, s1.data@, 0, index as int, 2, k, s0.toggled@[k]);
                        lemma_other_cell(s1.data@, s2.data@, 1, index as int, 2, k, s0.toggled@[k]);
                        lemma_other_cell(s2.data@, self.data@, 2, index as int, 2, k, s0.toggled@[k]);
                    }
                }
                assert(self.pressed@ =~= s0.pressed@.update(index as int, 255));
                assert(self.toggled@ =~= s0.toggled@.update(index as int, flipped(s0.toggled@[index as int])));
                assert(self.pulse_pending@ =~= s0.pulse_pending@.update(index as int, true));
            }
            true
        } else {
            if self.pressed[index] == 0 {
                return false;
            }
            let ghost s0 = *self;
            self.pressed[index] = 0;
            self.write_cell(KEYBOARD_ROW_STATE, index, 0);
            self.dirty = true;
            proof {
                assert forall|k: int| 0 <= k < 256 implies cell_is(self.data@, 0, k, #[trigger] self.pressed@[k]) by {
                    if k != index {
                        lemma_other_cell(s0.data@, self.data@, 0, index as int, 0, k, s0.pressed@[k]);
                    }
                }
                assert forall|k: int| 0 <= k < 256 implies cell_is(self.data@, 1, k, pulse_value(#[trigger] self.pulse_pending@[k])) by {
                    lemma_other_cell(s0.data@, self.data@, 0, index as int, 1, k, pulse_value(s0.pulse_pending@[k]));
                }
                assert forall|k: int| 0 <= k < 256 implies cell_is(self.data@, 2, k, #[trigger] self.toggled@[k]) by {
                    lemma_other_cell(s0.data@, self.data@, 0, index as int, 2, k, s0.toggled@[k]);
                }
                assert(self.pressed@ =~= s0.pressed@.update(index as int, 0));
            }
            true
        }
    }

    /// A copy of the texture.
    pub fn snapshot(&self) -> (r: Vec<u8>)
        ensures
            r@ == self.texture_view(),
    {
        self.data.clone()
    }

    /// The texture when it changed since last taken (which clears the
    /// mark); nothing otherwise.
    pub fn take_dirty_snapshot(&mut self) -> (r: Option<Vec<u8>>)
        requires
            old(self).wf(),
        ensures
            final(self).wf(),
            !final(self).dirty_view(),
            final(self).pressed_view() == old(self).pressed_view(),
            final(self).toggled_view() == old(self).toggled_view(),
            final(self).pending_view() == old(self).pending_view(),
            final(self).texture_view() == old(self).texture_view(),
            old(self).dirty_view() ==> (r matches Some(v) && v@ == old(self).texture_view()),
            !old(self).dirty_view() ==> r is None,
    {
        if self.dirty {
            self.dirty = false;
            Some(self.data.clone())
        } else {
            None
        }
    }

    /// Ends every pending pulse (its cell goes back to 0) without taking
    /// the texture.
    fn end_pulses(&mut self) -> (any: bool)
        requires
            old(self).wf(),
        ensures
            final(self).wf(),
            final(self).pressed_view() == old(self).pressed_view(),
            final(self).toggled_view() == old(self).toggled_view(),
            forall|k: int| 0 <= k < 256 ==> !#[trigger] final(self).pending_view()[k],
            final(self).pending_view().len() == 256,
            final(self).dirty_view() == old(self).dirty_view(),
            any == exists|k: int| 0 <= k < 256 && #[trigger] old(self).pending_view()[k],
    {
        let mut any = false;
        let mut index: usize = 0;
        while index < KEYBOARD_WIDTH
            invariant
                index <= 256,
                self.wf(),
                self.pressed@ == old(self).pressed@,
                self.toggled@ == old(self).toggled@,
                self.dirty == old(self).dirty,
                forall|k: int| 0 <= k < index ==> !#[trigger] self.pulse_pending@[k],
                forall|k: int| index <= k < 256 ==> #[trigger] self.pulse_pending@[k] == old(self).pulse_pending@[k],
                any == exists|k: int| 0 <= k < index && #[trigger] old(self).pulse_pending@[k],
            decreases 256 - index,
        {
            if self.pulse_pending[index] {
                let ghost s0 = *self;
                self.pulse_pending[index] = false;
                self.write_cell(KEYBOARD_ROW_PULSE, index, 0);
                any = true;
                proof {
                    assert forall|k: int| 0 <= k < 256 implies cell_is(self.data@, 0, k, #[trigger] self.pressed@[k]) by {
                        lemma_other_cell(s0.data@, self.data@, 1, index as int, 0, k, s0.pressed@[k]);
                    }
                    assert forall|k: int| 0 <= k < 256 implies cell_is(self.data@, 1, k, pulse_value(#[trigger] self.pulse_pending@[k])) by {
                        if k != index {
                            lemma_other_cell(s0.data@, self.data@, 1, index as int, 1, k, pulse_value(s0.pulse_pending@[k]));
                        }
                    }
                    assert forall|k: int| 0 <= k < 256 implies cell_is(self.data@, 2, k, #[trigger] self.toggled@[k]) by {
                        lemma_other_cell(s0.data@, self.data@, 1, index as int, 2, k, s0.toggled@[k]);
                    }
                    assert(old(self).pulse_pending@[index as int]);
                }
            }
            index += 1;
        }
        proof {
            if any {
                let k = choose|k: int| 0 <= k < 256 && #[trigger] old(self).pulse_pending@[k];
                assert(old(self).pending_view()[k]);
            } else {
                assert forall|k: int| 0 <= k < 256 implies !#[trigger] old(self).pending_view()[k] by {
                    if old(self).pulse_pending@[k] {
                        assert(exists|j: int| 0 <= j < 256 && #[trigger] old(self).pulse_pending@[j]);
                    }
                }
            }
        }
        any
    }

    /// Marks the texture as taken and ends every pending pulse.
    pub fn clear_dirty(&mut self)
        requires
            old(self).wf(),
        ensures
            final(self).wf(),
            !final(self).dirty_view(),
            final(self).pressed_view() == old(self).pressed_view(),
            final(self).toggled_view() == old(self).toggled_view(),
            forall|k: int| 0 <= k < 256 ==> !#[trigger] final(self).pending_view()[k],
    {
        self.dirty = false;
        self.end_pulses();
    }

    /// Ends every pending pulse; when there was one, the texture after
    /// that, else nothing.
    pub fn take_pulse_reset_snapshot(&mut self) -> (r: Option<Vec<u8>>)
        requires
            old(self).wf(),
        ensures
            final(self).wf(),
            final(self).pressed_view() == old(self).pressed_view(),
            final(self).toggled_view() == old(self).toggled_view(),
            final(self).dirty_view() == old(self).dirty_view(),
            forall|k: int| 0 <= k < 256 ==> !#[trigger] final(self).pending_view()[k],
            (exists|k: int| 0 <= k < 256 && #[trigger] old(self).pending_view()[k]) ==> (r matches Some(v) && v@
                == final(self).texture_view()),
            !(exists|k: int| 0 <= k < 256 && #[trigger] old(self).pending_view()[k]) ==> r is None,
    {
        let any = self.end_pulses();
        if any {
            Some(self.data.clone())
        } else {
            None
        }
    }

    /// Fills cell (`row`, `column`) with `value`; every other byte stays.
    fn write_cell(&mut self, row: usize, column: usize, value: u8)
        requires
            old(self).data@.len() == KEYBOARD_BYTES,
            row < 3,
            column < 256,
        ensures
            final(self).data@.len() == KEYBOARD_BYTES,
            cell_is(final(self).data@, row as int, column as int, value),
            forall|i: int|
                0 <= i < KEYBOARD_BYTES && !((row * 256 + column) * 4 <= i < (row * 256 + column) * 4 + 4)
                    ==> #[trigger] final(self).data@[i] == old(self).data@[i],
            final(self).pressed == old(self).pressed,
            final(self).toggled == old(self).toggled,
            final(self).pulse_pending == old(self).pulse_pending,
            final(self).dirty == old(self).dirty,
    {
        let offset = (row * 256 + column) * 4;
        let mut c: usize = 0;
        while c < 4
            invariant
                c <= 4,
                offset == (row * 256 + column) * 4,
                row < 3,
                column < 256,
                self.data@.len() == KEYBOARD_BYTES,
                forall|d: int| 0 <= d < c ==> #[trigger] self.data@[offset + d] == value,
                forall|i: int|
                    0 <= i < KEYBOARD_BYTES && !(offset <= i < offset + c) ==> #[trigger] self.data@[i] == old(
                        self,
                    ).data@[i],
                self.pressed == old(self).pressed,
                self.toggled == old(self).toggled,
                self.pulse_pending == old(self).pulse_pending,
                self.dirty == old(self).dirty,
            decreases 4 - c,
        {
            self.data.set(offset + c, value);
            c += 1;
        }
    }
}

impl Default for KeyboardState {
    fn default() -> (r: Self)
        ensures
            r.wf(),
            forall|k: int| 0 <= k < 256 ==> #[trigger] r.pressed_view()[k] == 0,
            forall|k: int| 0 <= k < 256 ==> #[trigger] r.toggled_view()[k] == 0,
            forall|k: int| 0 <= k < 256 ==> !#[trigger] r.pending_view()[k],
            !r.dirty_view(),
    {
        KeyboardState::new()
    }
}

/// The ASCII code of a key's text: one character, below 128.
pub open spec fn ascii_code(text: Seq<char>) -> Option<u8> {
    if text.len() == 1 && (text[0] as u32) < 128 {
        Some(text[0] as u32 as u8)
    } else {
        None
    }
}

/// The keyboard-texture column of a key that produced `text`.
pub fn ascii_from_text(text: &str) -> (r: Option<u8>)
    ensures
        r == ascii_code(text@),
{
    let v = crate::text::chars_of(text);
    if v.len() == 1 && (v[0] as u32) < 128 {
        Some((v[0] as u32) as u8)
    } else {
        None
    }
}

/// The key of a key event, as far as the keyboard texture tells keys
/// apart: the text it produced, or one of the named keys that have an
/// ASCII code.
#[derive(Debug, Clone, PartialEq, Eq)]
pub enum KeyInput {
    Character(String),
    Space,
    Enter,
    Tab,
    Backspace,
    Escape,
    /// Any other named key.
    Other,
}

/// The keyboard-texture column of a key: its text's ASCII code, or the
/// code of a named key (Enter counting as a line feed).
pub open spec fn key_code(key: KeyInput) -> Option<u8> {
    match key {
        KeyInput::Character(text) => ascii_code(text@),
        KeyInput::Space => Some(32u8),
        KeyInput::Enter => Some(10u8),
        KeyInput::Tab => Some(9u8),
        KeyInput::Backspace => Some(8u8),
        KeyInput::Escape => Some(27u8),
        KeyInput::Other => None,
    }
}

/// See `key_code`.
pub fn ascii_from_key(key: &KeyInput) -> (r: Option<u8>)
    ensures
        r == key_code(*key),
{
    match key {
        KeyInput::Character(text) => ascii_from_text(text.as_str()),
        KeyInput::Space => Some(32),
        KeyInput::Enter => Some(10),
        KeyInput::Tab => Some(9),
        KeyInput::Backspace => Some(8),
        KeyInput::Escape => Some(27),
        KeyInput::Other => None,
    }
}

impl KeyboardState {
    /// A key event: a key without an ASCII code changes nothing; otherwise
    /// see `key_step`.
    pub fn handle_event(&mut self, key: &KeyInput, pressed: bool, repeat: bool) -> (r: bool)
        requires
            old(self).wf(),
        ensures
            final(self).wf(),
            match key_code(*key) {
                None => !r && *final(self) == *old(self),
                Some(code) => key_step(*old(self), *final(self), code, pressed, repeat, r),
            },
    {
        match ascii_from_key(key) {
            None => false,
            Some(code) => self.handle_key(code, pressed, repeat),
        }
    }
}

} // verus!
