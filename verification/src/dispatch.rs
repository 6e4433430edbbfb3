//! The input dispatcher: from a decoded key press to a selector operation,
//! and from an operation to its externally visible effect.

use vstd::prelude::*;

use crate::selector::{down_target, reset_target, up_target, Selector};

verus! {

/// A decoded key press, as the host's input layer hands it over.
#[derive(Clone, Copy, PartialEq, Eq, Structural, Debug)]
pub enum KeyPress {
    Esc,
    Down,
    Up,
    Enter,
    Backspace,
    Tab,
    ShiftTab,
    /// A character pressed together with the control key.
    Ctrl(char),
    /// A plain character.
    Char(char),
    /// Anything the picker does not react to.
    Other,
}

/// The operation a key press asks for.
#[derive(Clone, Copy, PartialEq, Eq, Structural, Debug)]
pub enum Action {
    Cancel,
    MoveDown,
    MoveUp,
    Commit,
    DeleteChar,
    AppendChar(char),
    QuickJump(u8),
    Ignore,
}

/// The externally visible outcome of handling one action.
#[derive(Clone, Copy, PartialEq, Eq, Structural, Debug)]
pub enum Effect {
    /// Nothing happened.
    Nothing,
    /// The state changed; the view wants redrawing.
    Redraw,
    /// The picker asks to be closed.
    CloseSelf,
    /// The picker closes and the item at this index is acted on.
    OpenItem(usize),
    /// The picker closes and the numbered target is switched to.
    SwitchTab(u8),
}

pub open spec fn spec_is_ascii_digit(c: char) -> bool {
    '0' as int <= c as int && c as int <= '9' as int
}

pub open spec fn spec_is_ascii_alphabetic(c: char) -> bool {
    ('a' as int <= c as int && c as int <= 'z' as int) || ('A' as int <= c as int && c as int
        <= 'Z' as int)
}

pub open spec fn spec_digit_value(c: char) -> u8 {
    (c as int - '0' as int) as u8
}

fn is_ascii_digit_char(c: char) -> (r: bool)
    ensures
        r == spec_is_ascii_digit(c),
{
    let u = c as u32;
    ('0' as u32) <= u && u <= ('9' as u32)
}

fn is_ascii_alphabetic_char(c: char) -> (r: bool)
    ensures
        r == spec_is_ascii_alphabetic(c),
{
    let u = c as u32;
    (('a' as u32) <= u && u <= ('z' as u32)) || (('A' as u32) <= u && u <= ('Z' as u32))
}

fn digit_value(c: char) -> (d: u8)
    requires
        spec_is_ascii_digit(c),
    ensures
        d == spec_digit_value(c),
{
    (c as u32 - '0' as u32) as u8
}

/// The operation each key press maps to. Escape and control-c cancel;
/// down-arrow, plain tab and control-n move down; up-arrow, shift-tab,
/// control-k and control-p move up; enter commits; backspace deletes one
/// filter character; a digit jumps to a numbered target while quick jumping
/// is on; letters and digits extend the filter; everything else is ignored.
pub open spec fn spec_action_for(key: KeyPress, quick_jump: bool) -> Action {
    match key {
        KeyPress::Esc => Action::Cancel,
        KeyPress::Down => Action::MoveDown,
        KeyPress::Up => Action::MoveUp,
        KeyPress::Enter => Action::Commit,
        KeyPress::Backspace => Action::DeleteChar,
        KeyPress::Tab => Action::MoveDown,
        KeyPress::ShiftTab => Action::MoveUp,
        KeyPress::Ctrl(c) => if c == 'c' {
            Action::Cancel
        } else if c == 'n' {
            Action::MoveDown
        } else if c == 'k' || c == 'p' {
            Action::MoveUp
        } else {
            Action::Ignore
        },
        KeyPress::Char(c) => if spec_is_ascii_digit(c) && quick_jump {
            Action::QuickJump(spec_digit_value(c))
        } else if spec_is_ascii_alphabetic(c) || spec_is_ascii_digit(c) {
            Action::AppendChar(c)
        } else {
            Action::Ignore
        },
        KeyPress::Other => Action::Ignore,
    }
}

/// Map a key press to the operation it asks for.
pub fn action_for(key: KeyPress, quick_jump: bool) -> (a: Action)
    ensures
        a == spec_action_for(key, quick_jump),
{
    match key {
        KeyPress::Esc => Action::Cancel,
        KeyPress::Down => Action::MoveDown,
        KeyPress::Up => Action::MoveUp,
        KeyPress::Enter => Action::Commit,
        KeyPress::Backspace => Action::DeleteChar,
        KeyPress::Tab => Action::MoveDown,
        KeyPress::ShiftTab => Action::MoveUp,
        KeyPress::Ctrl(c) => if c == 'c' {
            Action::Cancel
        } else if c == 'n' {
            Action::MoveDown
        } else if c == 'k' || c == 'p' {
            Action::MoveUp
        } else {
            Action::Ignore
        },
        KeyPress::Char(c) => if is_ascii_digit_char(c) && quick_jump {
            Action::QuickJump(digit_value(c))
        } else if is_ascii_alphabetic_char(c) || is_ascii_digit_char(c) {
            Action::AppendChar(c)
        } else {
            Action::Ignore
        },
        KeyPress::Other => Action::Ignore,
    }
}

/// Run one action against the selector and say what the host should do.
/// Committing without a selection and moving through an empty visible list
/// degrade to no-ops rather than failing.
pub fn handle(s: &mut Selector, action: Action) -> (e: Effect)
    requires
        old(s).wf(),
    ensures
        final(s).wf(),
        match action {
            Action::Cancel => *final(s) == *old(s) && e == Effect::CloseSelf,
            Action::MoveDown => final(s).items == old(s).items && final(s).filter == old(s).filter
                && final(s).ignore_case == old(s).ignore_case && final(s).sel() == down_target(
                old(s).visible_names(),
                old(s).sel(),
            ) && e == Effect::Redraw,
            Action::MoveUp => final(s).items == old(s).items && final(s).filter == old(s).filter
                && final(s).ignore_case == old(s).ignore_case && final(s).sel() == up_target(
                old(s).visible_names(),
                old(s).sel(),
            ) && e == Effect::Redraw,
            Action::Commit => *final(s) == *old(s) && (match (old(s).sel(), e) {
                (None, Effect::Nothing) => true,
                (Some(name), Effect::OpenItem(i)) => i < old(s).names().len()
                    && old(s).names()[i as int] == name && (forall|j: int|
                    0 <= j < i ==> old(s).names()[j] != name),
                _ => false,
            }),
            Action::DeleteChar => final(s).items == old(s).items
                && final(s).ignore_case == old(s).ignore_case
                && (old(s).filter@.len() == 0 ==> final(s).filter@ == old(s).filter@)
                && (old(s).filter@.len() > 0 ==> final(s).filter@ == old(s).filter@.drop_last())
                && final(s).sel() == reset_target(final(s).visible_names())
                && e == Effect::Redraw,
            Action::AppendChar(c) => final(s).items == old(s).items
                && final(s).ignore_case == old(s).ignore_case
                && final(s).filter@ == old(s).filter@.push(c)
                && final(s).sel() == reset_target(final(s).visible_names())
                && e == Effect::Redraw,
            Action::QuickJump(d) => *final(s) == *old(s) && e == Effect::SwitchTab(d),
            Action::Ignore => *final(s) == *old(s) && e == Effect::Nothing,
        },
{
    match action {
        Action::Cancel => Effect::CloseSelf,
        Action::MoveDown => {
            s.select_down();
            Effect::Redraw
        },
        Action::MoveUp => {
            s.select_up();
            Effect::Redraw
        },
        Action::Commit => match s.commit() {
            Some(i) => Effect::OpenItem(i),
            None => Effect::Nothing,
        },
        Action::DeleteChar => {
            s.delete_char();
            Effect::Redraw
        },
        Action::AppendChar(c) => {
            s.append_char(c);
            Effect::Redraw
        },
        Action::QuickJump(d) => Effect::SwitchTab(d),
        Action::Ignore => Effect::Nothing,
    }
}

} // verus!
