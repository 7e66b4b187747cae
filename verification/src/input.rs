//! Key events, form state and the info overlay's checkboxes.
//!
//! Keys are modelled by the library's own enum; the terminal layer maps its
//! raw events onto it. `Action` is what a key-press asks the caller to do
//! besides the state change: nothing, persist the store, or quit.
use vstd::prelude::*;

verus! {

/// A key-press, as the state machine sees it.
#[derive(Clone, Copy, Debug, PartialEq, Eq, Structural)]
pub enum Key {
    Char(char),
    Enter,
    Backspace,
    Tab,
    Esc,
    Up,
    Down,
    Left,
    Right,
    Delete,
    Other,
}

/// What the caller must do after a key was handled: nothing, save the store
/// (fatally on failure when `fatal` is set), or end the session.
#[derive(Clone, Copy, Debug, PartialEq, Eq, Structural)]
pub enum Action {
    Nothing,
    Save { fatal: bool },
    Quit,
}

/// Which field of the editing form has the focus.
#[derive(Clone, Copy, Debug, PartialEq, Eq, Structural)]
pub enum InputFocus {
    Name,
    Description,
}

/// One entry of the info overlay's settings panel.
#[derive(Debug)]
pub struct Checkbox {
    pub checked: bool,
    pub label: Vec<char>,
}

/// The mathematical value of a checkbox.
pub struct CheckboxV {
    pub checked: bool,
    pub label: Seq<char>,
}

impl View for Checkbox {
    type V = CheckboxV;

    open spec fn view(&self) -> CheckboxV {
        CheckboxV { checked: self.checked, label: self.label@ }
    }
}

impl DeepView for Checkbox {
    type V = CheckboxV;

    open spec fn deep_view(&self) -> CheckboxV {
        self.view()
    }
}

impl Clone for Checkbox {
    /// A clone has the same checked state and label.
    fn clone(&self) -> (r: Self)
        ensures
            r@ == self@,
    {
        Checkbox { checked: self.checked, label: self.label.clone() }
    }
}

} // verus!
