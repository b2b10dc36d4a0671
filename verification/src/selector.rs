//! The interactive selector's state machine: a list of suggestions, a
//! highlighted entry, and the key bindings that move the highlight or end
//! the session with one user action.

use vstd::prelude::*;
use crate::response::CommandSuggestion;

verus! {

/// What the user chose to do with a command.
#[derive(Debug, Clone, PartialEq)]
pub enum UserAction {
    /// Run the command.
    Execute(String),
    /// Copy the command to the clipboard.
    Copy(String),
    /// Edit the command before running it.
    Edit(String),
    /// Leave without doing anything.
    Abort,
}

/// A key press as the selector sees it: the keys it reacts to, and any
/// character key with its control-modifier flag.
#[derive(Debug, Clone, Copy, PartialEq, Eq)]
pub enum Key {
    /// The up arrow.
    Up,
    /// The down arrow.
    Down,
    /// The enter key.
    Enter,
    /// The escape key.
    Esc,
    /// A character key; the flag says whether control was held.
    Char(char, bool),
}

/// State of the selector.
#[derive(Debug, Clone)]
pub struct App {
    /// The suggestions on display.
    pub suggestions: Vec<CommandSuggestion>,
    /// Index of the highlighted suggestion.
    pub selected: usize,
    /// A transient status message, e.g. after a copy.
    pub status_message: Option<String>,
}

/// The highlight one step up, wrapping at the top.
pub open spec fn spec_prev_index(sel: int, n: int) -> int {
    if n == 0 {
        sel
    } else if sel == 0 {
        n - 1
    } else {
        sel - 1
    }
}

/// The highlight one step down, wrapping at the bottom.
pub open spec fn spec_next_index(sel: int, n: int) -> int {
    if n == 0 {
        sel
    } else {
        (sel + 1) % n
    }
}

/// True when `key` is the character `c`, with or without control.
pub open spec fn spec_is_char(key: Key, c: char) -> bool {
    match key {
        Key::Char(c2, _) => c2 == c,
        _ => false,
    }
}

/// The decimal value of a digit key, or -1 for any other key.
pub open spec fn spec_digit_of(key: Key) -> int {
    match key {
        Key::Char(c, _) => if 48 <= c as u32 && c as u32 <= 57 {
            c as u32 - 48
        } else {
            -1
        },
        _ => -1,
    }
}

/// One step of the selector: the state after the key and the action
/// emitted, if any. The status message is cleared by every key; arrows
/// and their letter bindings move the highlight; enter and its letter
/// bindings emit the highlighted command; a digit jumps to that entry;
/// escape and its bindings abort; anything else does nothing.
pub open spec fn spec_key_step(app: App, key: Key) -> (App, Option<UserAction>) {
    let n = app.suggestions@.len() as int;
    let sel = app.selected as int;
    let cleared = App { suggestions: app.suggestions, selected: app.selected, status_message: None };
    if key == Key::Up || spec_is_char(key, 'k') {
        (
            App { selected: spec_prev_index(sel, n) as usize, ..cleared },
            None::<UserAction>,
        )
    } else if key == Key::Down || spec_is_char(key, 'j') {
        (App { selected: spec_next_index(sel, n) as usize, ..cleared }, None::<UserAction>)
    } else if key == Key::Enter || spec_is_char(key, 'a') || spec_is_char(key, 'A') {
        if sel < n {
            (cleared, Some(UserAction::Execute(app.suggestions@[sel].command)))
        } else {
            (cleared, None::<UserAction>)
        }
    } else if spec_is_char(key, 'K') {
        if sel < n {
            (cleared, Some(UserAction::Copy(app.suggestions@[sel].command)))
        } else {
            (cleared, None::<UserAction>)
        }
    } else if spec_is_char(key, 'b') || spec_is_char(key, 'B') {
        if sel < n {
            (cleared, Some(UserAction::Edit(app.suggestions@[sel].command)))
        } else {
            (cleared, None::<UserAction>)
        }
    } else if key == Key::Esc || spec_is_char(key, 'q') {
        (cleared, Some(UserAction::Abort))
    } else if key == Key::Char('c', true) {
        (cleared, Some(UserAction::Abort))
    } else if 1 <= spec_digit_of(key) && spec_digit_of(key) <= n {
        (App { selected: (spec_digit_of(key) - 1) as usize, ..cleared }, None::<UserAction>)
    } else {
        (cleared, None::<UserAction>)
    }
}

impl App {
    /// A fresh selector over `suggestions`: the first entry highlighted,
    /// no status message.
    pub fn new(suggestions: Vec<CommandSuggestion>) -> (r: App)
        ensures
            r.suggestions == suggestions,
            r.selected == 0,
            r.status_message is None,
    {
        App { suggestions, selected: 0, status_message: None }
    }

    /// Moves the highlight one entry up, wrapping at the top.
    pub fn select_previous(&mut self)
        ensures
            final(self).selected == spec_prev_index(
                old(self).selected as int,
                old(self).suggestions@.len() as int,
            ),
            final(self).suggestions == old(self).suggestions,
            final(self).status_message == old(self).status_message,
    {
        if self.suggestions.len() == 0 {
            return;
        }
        if self.selected == 0 {
            self.selected = self.suggestions.len() - 1;
        } else {
            self.selected = self.selected - 1;
        }
    }

    /// Moves the highlight one entry down, wrapping at the bottom.
    pub fn select_next(&mut self)
        ensures
            final(self).selected == spec_next_index(
                old(self).selected as int,
                old(self).suggestions@.len() as int,
            ),
            final(self).suggestions == old(self).suggestions,
            final(self).status_message == old(self).status_message,
    {
        let n = self.suggestions.len();
        if n == 0 {
            return;
        }
        let s = self.selected % n;
        proof {
            let ghost sel0 = old(self).selected as int;
            let ghost ni = n as int;
            assert(((sel0 % ni) + 1) % ni == (sel0 + 1) % ni) by (nonlinear_arith)
                requires
                    ni > 0,
                    sel0 >= 0,
            ;
        }
        self.selected = (s + 1) % n;
    }

    /// The highlighted suggestion, when the highlight is in range.
    pub fn selected_suggestion(&self) -> (r: Option<&CommandSuggestion>)
        ensures
            match r {
                Some(s) => self.selected < self.suggestions@.len() && *s == self.suggestions@[
                    self.selected as int
                ],
                None => self.selected >= self.suggestions@.len(),
            },
    {
        if self.selected < self.suggestions.len() {
            Some(&self.suggestions[self.selected])
        } else {
            None
        }
    }

    /// Shows a status message.
    pub fn set_status(&mut self, message: String)
        ensures
            final(self).status_message == Some(message),
            final(self).suggestions == old(self).suggestions,
            final(self).selected == old(self).selected,
    {
        self.status_message = Some(message);
    }

    /// Clears the status message.
    pub fn clear_status(&mut self)
        ensures
            final(self).status_message is None,
            final(self).suggestions == old(self).suggestions,
            final(self).selected == old(self).selected,
    {
        self.status_message = None;
    }
}

/// Applies one key to the selector, matching [`spec_key_step`]: the state
/// moves to the step's state, and the step's action, if any, is returned.
pub fn handle_key(app: &mut App, key: Key) -> (r: Option<UserAction>)
    ensures
        *final(app) == spec_key_step(*old(app), key).0,
        r == spec_key_step(*old(app), key).1,
{
    app.clear_status();
    match key {
        Key::Up => {
            app.select_previous();
            None
        },
        Key::Char('k', _) => {
            app.select_previous();
            None
        },
        Key::Down => {
            app.select_next();
            None
        },
        Key::Char('j', _) => {
            app.select_next();
            None
        },
        Key::Enter | Key::Char('a', _) | Key::Char('A', _) => {
            match app.selected_suggestion() {
                Some(s) => Some(UserAction::Execute(s.command.clone())),
                None => None,
            }
        },
        Key::Char('K', _) => {
            match app.selected_suggestion() {
                Some(s) => Some(UserAction::Copy(s.command.clone())),
                None => None,
            }
        },
        Key::Char('b', _) | Key::Char('B', _) => {
            match app.selected_suggestion() {
                Some(s) => Some(UserAction::Edit(s.command.clone())),
                None => None,
            }
        },
        Key::Esc | Key::Char('q', _) => Some(UserAction::Abort),
        Key::Char('c', true) => Some(UserAction::Abort),
        Key::Char(c, _) => {
            let cu = c as u32;
            if 48 <= cu && cu <= 57 {
                let num = (cu - 48) as usize;
                if 1 <= num && num <= app.suggestions.len() {
                    app.selected = num - 1;
                }
            }
            None
        },
    }
}

/// Law: the selector is total. From any well-formed state, any key yields
/// exactly one outcome: either the state transitions (staying well-formed)
/// and nothing is emitted, or one action is emitted and the highlight is
/// untouched.
pub proof fn lemma_selector_totality(app: App, key: Key)
    requires
        app.suggestions@.len() >= 1,
        app.selected < app.suggestions@.len(),
    ensures
        ({
            let (next, action) = spec_key_step(app, key);
            &&& next.selected < app.suggestions@.len()
            &&& next.suggestions == app.suggestions
            &&& (action is Some ==> next.selected == app.selected)
        }),
{
}

/// The pipeline's shortcut around the selector: with exactly one
/// suggestion it is not entered, and that suggestion's command is
/// executed directly.
pub fn bypass_action(suggestions: &Vec<CommandSuggestion>) -> (r: Option<UserAction>)
    ensures
        suggestions@.len() == 1 ==> r == Some(UserAction::Execute(suggestions@[0].command)),
        suggestions@.len() != 1 ==> r is None,
{
    if suggestions.len() == 1 {
        Some(UserAction::Execute(suggestions[0].command.clone()))
    } else {
        None
    }
}

} // verus!
