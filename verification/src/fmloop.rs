//! One turn of the loop of the browser. The caller runs the loop: it shows
//! the state, reads a key, examines the path that the key is about, and
//! hands both over.

use vstd::prelude::*;
use crate::filemanager::{ActionView, OpenAction, Probe};
use crate::state::{key_press, press_of, FmState, KeyPress, Model};

verus! {

/// How the loop goes on after a key press.
#[derive(Debug, PartialEq, Eq)]
pub enum Step {
    /// The loop ends.
    Quit,
    /// The loop goes on, once the caller has run what the action says.
    Continue(OpenAction),
}

/// A step as plain values.
pub ghost enum StepView {
    Quit,
    Continue(ActionView),
}

impl View for Step {
    type V = StepView;

    open spec fn view(&self) -> StepView {
        match *self {
            Step::Quit => StepView::Quit,
            Step::Continue(action) => StepView::Continue(action@),
        }
    }
}

/// The quit key is `Q`.
pub open spec fn quits(key: KeyPress) -> bool {
    key == KeyPress::Char('Q')
}

/// The state after one turn of the loop: untouched by the quit key, else
/// what the key press makes of it.
pub open spec fn turned(m: Model, key: KeyPress, target: Option<Probe>) -> Model {
    if quits(key) {
        m
    } else {
        m.after(key, target)
    }
}

/// How the loop goes on after one turn.
pub open spec fn turn_step(
    m: Model,
    key: KeyPress,
    target: Option<Probe>,
    answer: Result<Vec<u8>, String>,
    editor: Option<String>,
) -> StepView {
    if quits(key) {
        StepView::Quit
    } else {
        StepView::Continue(m.action(key, target, answer, editor))
    }
}

/// Starts the loop: loads the main list and starts the filter on it.
pub fn start_loop(state: &mut FmState)
    ensures
        final(state)@ == old(state)@.reloaded(),
{
    state.reload();
}

/// One turn of the loop for a key press: the quit key ends the loop and
/// leaves the state as it is; every other key is handled by the state.
pub fn turn(
    state: &mut FmState,
    key: KeyPress,
    target: Option<Probe>,
    answer: Result<Vec<u8>, String>,
    editor: Option<String>,
) -> (r: Step)
    ensures
        final(state)@ == turned(old(state)@, key, target),
        r@ == turn_step(old(state)@, key, target, answer, editor),
{
    match key {
        KeyPress::Char(c) => {
            if c == 'Q' {
                return Step::Quit;
            }
        },
        _ => {},
    }
    Step::Continue(state.handle_press(key, target, answer, editor))
}

/// One turn of the loop for a key of the terminal: that for the key press
/// that the key reads as.
pub fn turn_for_key(
    state: &mut FmState,
    key: termion::event::Key,
    target: Option<Probe>,
    answer: Result<Vec<u8>, String>,
    editor: Option<String>,
) -> (r: Step)
    ensures
        final(state)@ == turned(old(state)@, press_of(key), target),
        r@ == turn_step(old(state)@, press_of(key), target, answer, editor),
{
    turn(state, key_press(key), target, answer, editor)
}

} // verus!
