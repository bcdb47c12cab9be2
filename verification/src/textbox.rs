//! Pure editing rules of the text-box widget.
//!
//! The buffer is a sequence of characters with a cursor that always sits
//! between 0 and the buffer length. Printable input is inserted at the
//! cursor; backspace steps left then deletes; delete removes under the
//! cursor; other control characters are ignored. Held arrow keys repeat on
//! a timer: a movement happens on the tick a key goes down and on every
//! timer expiry while it stays held. The host feeds in the decoded key
//! state and received characters each tick and applies the result.

use vstd::prelude::*;

verus! {

/// Backspace: step left, then delete.
pub const BACKSPACE: char = '\u{8}';

/// Delete: remove the character under the cursor.
pub const DELETE: char = '\u{7f}';

/// Carriage return: accepted and ignored.
pub const RETURN: char = '\r';

/// Cursor position within a text box, counted in characters.
pub struct TextBox(pub usize);

/// Marker for the text box that currently receives keyboard input.
pub struct Focused;

/// Whether `c` is a control character (the two control ranges of the
/// character set).
pub open spec fn is_control_spec(c: char) -> bool {
    (c as u32) < 32 || (127 <= (c as u32) < 160)
}

/// Whether `c` is a control character.
pub fn is_control_char(c: char) -> (r: bool)
    ensures
        r == is_control_spec(c),
{
    let u = c as u32;
    u < 32 || (127 <= u && u < 160)
}

/// Insert `c` at the cursor and step the cursor past it.
pub fn insert_char(text: &mut Vec<char>, index: &mut usize, c: char)
    requires
        *old(index) <= old(text)@.len(),
        old(text)@.len() < usize::MAX,
    ensures
        final(text)@ == old(text)@.insert(*old(index) as int, c),
        *final(index) == *old(index) + 1,
{
    text.insert(*index, c);
    *index = *index + 1;
}

/// Remove the character under the cursor, if any; the cursor stays put.
pub fn remove_char(text: &mut Vec<char>, index: &mut usize)
    ensures
        *final(index) == *old(index),
        final(text)@ == if *old(index) < old(text)@.len() {
            old(text)@.remove(*old(index) as int)
        } else {
            old(text)@
        },
{
    if *index < text.len() {
        text.remove(*index);
    }
}

/// Step the cursor one character left, stopping at the start.
pub fn move_left(text: &Vec<char>, index: &mut usize)
    ensures
        *final(index) == if *old(index) > 0 {
            (*old(index) - 1) as usize
        } else {
            0
        },
{
    if *index > 0 {
        *index = *index - 1;
    }
}

/// Step the cursor one character right, stopping at the end.
pub fn move_right(text: &Vec<char>, index: &mut usize)
    ensures
        *final(index) == if *old(index) < text@.len() {
            (*old(index) + 1) as usize
        } else {
            *old(index)
        },
{
    if *index < text.len() {
        *index = *index + 1;
    }
}

/// Text and cursor after one received character is applied.
pub open spec fn key_step(text: Seq<char>, cursor: nat, c: char) -> (Seq<char>, nat) {
    if !is_control_spec(c) {
        (text.insert(cursor as int, c), cursor + 1)
    } else if c == BACKSPACE {
        let back = if cursor > 0 { (cursor - 1) as nat } else { 0 };
        if back < text.len() {
            (text.remove(back as int), back)
        } else {
            (text, back)
        }
    } else if c == DELETE {
        if cursor < text.len() {
            (text.remove(cursor as int), cursor)
        } else {
            (text, cursor)
        }
    } else {
        (text, cursor)
    }
}

/// Text and cursor after a batch of received characters is applied in order.
pub open spec fn keys_step(text: Seq<char>, cursor: nat, cs: Seq<char>) -> (Seq<char>, nat)
    decreases cs.len(),
{
    if cs.len() == 0 {
        (text, cursor)
    } else {
        let (t1, c1) = key_step(text, cursor, cs.first());
        keys_step(t1, c1, cs.drop_first())
    }
}

/// Apply one received character: printable input is inserted, backspace
/// steps left then deletes, delete removes under the cursor, any other
/// control character is ignored.
pub fn apply_key(text: &mut Vec<char>, index: &mut usize, c: char)
    requires
        *old(index) <= old(text)@.len(),
        old(text)@.len() < usize::MAX,
    ensures
        (final(text)@, *final(index) as nat) == key_step(old(text)@, *old(index) as nat, c),
        *final(index) <= final(text)@.len(),
{
    if !is_control_char(c) {
        insert_char(text, index, c);
    } else if c == BACKSPACE {
        move_left(text, index);
        remove_char(text, index);
    } else if c == DELETE {
        remove_char(text, index);
    }
}

/// Apply a batch of received characters in order.
pub fn apply_keys(text: &mut Vec<char>, index: &mut usize, cs: &Vec<char>)
    requires
        *old(index) <= old(text)@.len(),
        old(text)@.len() + cs@.len() < usize::MAX,
    ensures
        (final(text)@, *final(index) as nat) == keys_step(old(text)@, *old(index) as nat, cs@),
        *final(index) <= final(text)@.len(),
        final(text)@.len() <= old(text)@.len() + cs@.len(),
{
    let mut k: usize = 0;
    proof {
        assert(cs@.skip(0) =~= cs@);
    }
    while k < cs.len()
        invariant
            k <= cs@.len(),
            *index <= text@.len(),
            text@.len() <= old(text)@.len() + k,
            keys_step(text@, *index as nat, cs@.skip(k as int)) == keys_step(
                old(text)@,
                *old(index) as nat,
                cs@,
            ),
            old(text)@.len() + cs@.len() < usize::MAX,
        decreases cs@.len() - k,
    {
        proof {
            assert(cs@.skip(k as int).len() > 0);
            assert(cs@.skip(k as int).first() == cs@[k as int]);
            assert(cs@.skip(k as int).drop_first() =~= cs@.skip(k + 1));
        }
        apply_key(text, index, cs[k]);
        k = k + 1;
    }
    proof {
        assert(cs@.skip(cs@.len() as int) =~= Seq::<char>::empty());
    }
}

/// Repeat timer for held keys: fires once per elapsed period.
pub struct RepeatTimer {
    period_ms: u64,
    elapsed_ms: u64,
}

impl RepeatTimer {
    /// The repeat period in milliseconds.
    pub closed spec fn period(self) -> u64 {
        self.period_ms
    }

    /// Milliseconds accumulated since the last firing.
    pub closed spec fn elapsed(self) -> u64 {
        self.elapsed_ms
    }

    /// The period is positive and the accumulator sits below it.
    pub open spec fn wf(self) -> bool {
        0 < self.period() && self.elapsed() < self.period()
    }

    /// A fresh timer that first fires after `period_ms`.
    pub fn new(period_ms: u64) -> (t: RepeatTimer)
        requires
            period_ms > 0,
        ensures
            t.wf(),
            t.period() == period_ms,
            t.elapsed() == 0,
    {
        RepeatTimer { period_ms, elapsed_ms: 0 }
    }

    /// Start the current period over.
    pub fn reset(&mut self)
        ensures
            final(self).period() == old(self).period(),
            final(self).elapsed() == 0,
    {
        self.elapsed_ms = 0;
    }

    /// Advance by `delta_ms`; reports whether a period boundary was crossed,
    /// keeping the remainder for the next period.
    pub fn tick(&mut self, delta_ms: u64) -> (fired: bool)
        requires
            old(self).wf(),
        ensures
            final(self).wf(),
            final(self).period() == old(self).period(),
            fired == (old(self).elapsed() + delta_ms >= old(self).period()),
            final(self).elapsed() == (old(self).elapsed() + delta_ms) % (old(self).period() as int),
    {
        let gap = self.period_ms - self.elapsed_ms;
        if delta_ms < gap {
            proof {
                vstd::arithmetic::div_mod::lemma_small_mod(
                    (self.elapsed_ms + delta_ms) as nat,
                    self.period_ms as nat,
                );
            }
            self.elapsed_ms = self.elapsed_ms + delta_ms;
            false
        } else {
            let over = delta_ms - gap;
            proof {
                vstd::arithmetic::div_mod::lemma_mod_add_multiples_vanish(
                    over as int,
                    self.period_ms as int,
                );
                assert(old(self).elapsed() + delta_ms == self.period_ms + over);
            }
            self.elapsed_ms = over % self.period_ms;
            true
        }
    }
}

/// The cursor after one tick of arrow-key handling: a held key moves it on
/// the tick the key went down and on every repeat firing, left taking
/// precedence over right.
pub open spec fn move_step(
    len: nat,
    cursor: nat,
    left: bool,
    right: bool,
    just: bool,
    fired: bool,
) -> nat {
    if (left || right) && (just || fired) {
        if left {
            if cursor > 0 {
                (cursor - 1) as nat
            } else {
                0
            }
        } else {
            if cursor < len {
                cursor + 1
            } else {
                cursor
            }
        }
    } else {
        cursor
    }
}

/// One tick of cursor movement for held arrow keys. A key just pressed
/// resets the repeat timer and moves at once; a key merely held moves only
/// when the timer fires; the timer only runs while a key is held.
pub fn cursor_step(
    text: &Vec<char>,
    index: &mut usize,
    pressed_left: bool,
    pressed_right: bool,
    just_left: bool,
    just_right: bool,
    timer: &mut RepeatTimer,
    delta_ms: u64,
)
    requires
        *old(index) <= text@.len(),
        old(timer).wf(),
    ensures
        final(timer).wf(),
        final(timer).period() == old(timer).period(),
        ({
            let held = pressed_left || pressed_right;
            let base = if just_left || just_right {
                0
            } else {
                old(timer).elapsed() as int
            };
            let fired = held && base + delta_ms >= old(timer).period();
            &&& final(timer).elapsed() == if held {
                (base + delta_ms) % (old(timer).period() as int)
            } else {
                base
            }
            &&& *final(index) as nat == move_step(
                text@.len(),
                *old(index) as nat,
                pressed_left,
                pressed_right,
                just_left || just_right,
                fired,
            )
        }),
        *final(index) <= text@.len(),
{
    if just_left || just_right {
        timer.reset();
    }
    let mut fired = false;
    if pressed_left || pressed_right {
        fired = timer.tick(delta_ms);
    }
    if (pressed_left || pressed_right) && (just_left || just_right || fired) {
        if pressed_left {
            move_left(text, index);
        } else {
            move_right(text, index);
        }
    }
    proof {
        vstd::std_specs::vec::axiom_spec_len(text);
    }
}

/// One full input tick for the focused text box: arrow-key movement first,
/// then every received character, in order.
pub fn textbox_step(
    text: &mut Vec<char>,
    cursor: &mut TextBox,
    received: &Vec<char>,
    pressed_left: bool,
    pressed_right: bool,
    just_left: bool,
    just_right: bool,
    timer: &mut RepeatTimer,
    delta_ms: u64,
)
    requires
        old(cursor).0 <= old(text)@.len(),
        old(timer).wf(),
        old(text)@.len() + received@.len() < usize::MAX,
    ensures
        final(timer).wf(),
        final(cursor).0 <= final(text)@.len(),
        ({
            let held = pressed_left || pressed_right;
            let base = if just_left || just_right {
                0
            } else {
                old(timer).elapsed() as int
            };
            let fired = held && base + delta_ms >= old(timer).period();
            let moved = move_step(
                old(text)@.len(),
                old(cursor).0 as nat,
                pressed_left,
                pressed_right,
                just_left || just_right,
                fired,
            );
            (final(text)@, final(cursor).0 as nat) == keys_step(old(text)@, moved, received@)
        }),
{
    let mut index = cursor.0;
    cursor_step(text, &mut index, pressed_left, pressed_right, just_left, just_right, timer,
        delta_ms);
    apply_keys(text, &mut index, received);
    cursor.0 = index;
}

/// What the pointer reports for a text box this tick.
pub enum PointerState {
    /// The pointer clicked the box.
    Clicked,
    /// The pointer hovers the box without clicking.
    Hovered,
    /// The pointer is elsewhere.
    Idle,
}

/// What to do with a text box's focus after a click somewhere.
#[derive(PartialEq, Eq, Debug)]
pub enum FocusAction {
    /// Give this box the focus.
    Grant,
    /// Take the focus away from this box.
    Revoke,
    /// Leave focus as it is.
    Keep,
}

/// Focus rule on a click: a clicked, unfocused box gains focus; a focused
/// box the pointer left loses it; anything else keeps its state.
pub open spec fn focus_spec(p: PointerState, focused: bool) -> FocusAction {
    match (p, focused) {
        (PointerState::Clicked, false) => FocusAction::Grant,
        (PointerState::Idle, true) => FocusAction::Revoke,
        _ => FocusAction::Keep,
    }
}

/// Decide what a click does to one text box's focus.
pub fn focus_decision(p: &PointerState, focused: bool) -> (r: FocusAction)
    ensures
        r == focus_spec(*p, focused),
{
    match (p, focused) {
        (PointerState::Clicked, false) => FocusAction::Grant,
        (PointerState::Idle, true) => FocusAction::Revoke,
        _ => FocusAction::Keep,
    }
}

} // verus!
