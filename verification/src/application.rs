//! What is asked of the application, and what it does.

use vstd::prelude::*;

verus! {

/// What is asked of the application.
#[derive(Clone, Copy, Debug, PartialEq, Eq, Structural)]
pub enum ApplicationIntent {
    OpenOrFocus,
    Quit,
}

/// What the application does.
#[derive(Clone, Copy, Debug, PartialEq, Eq, Structural)]
pub enum ApplicationAction {
    OpenWindow,
    FocusWindow,
    Quit,
}

pub fn action_for(intent: ApplicationIntent, has_window: bool) -> (action: ApplicationAction)
    ensures
        action == match intent {
            ApplicationIntent::Quit => ApplicationAction::Quit,
            ApplicationIntent::OpenOrFocus => if has_window {
                ApplicationAction::FocusWindow
            } else {
                ApplicationAction::OpenWindow
            },
        },
{
    match (intent, has_window) {
        (ApplicationIntent::OpenOrFocus, true) => ApplicationAction::FocusWindow,
        (ApplicationIntent::OpenOrFocus, false) => ApplicationAction::OpenWindow,
        (ApplicationIntent::Quit, _) => ApplicationAction::Quit,
    }
}

/// What an interrupt asks for: a launch during development quits.
pub fn interrupt_intent(development: bool) -> (intent: Option<ApplicationIntent>)
    ensures
        intent == if development {
            Some(ApplicationIntent::Quit)
        } else {
            None
        },
{
    if development {
        Some(ApplicationIntent::Quit)
    } else {
        None
    }
}

/// When the application ends.
#[derive(Clone, Copy, Debug, PartialEq, Eq, Structural)]
pub enum QuitMode {
    /// When it is asked to.
    Explicit,
    /// When its last window closes: nothing else would show that it runs.
    LastWindowClosed,
}

pub fn quit_mode(present: bool) -> (mode: QuitMode)
    ensures
        mode == if present {
            QuitMode::Explicit
        } else {
            QuitMode::LastWindowClosed
        },
{
    if present {
        QuitMode::Explicit
    } else {
        QuitMode::LastWindowClosed
    }
}

/// The window that gets the focus: the uppermost, where the order is known, or
/// else the first.
pub fn window_to_focus(stack: Option<Vec<u64>>, windows: &Vec<u64>) -> (window: Option<u64>)
    ensures
        window == match stack {
            Some(stack) if stack@.len() > 0 => Some(stack@[0]),
            _ => if windows@.len() > 0 {
                Some(windows@[0])
            } else {
                None
            },
        },
{
    if let Some(stack) = stack {
        if stack.len() > 0 {
            return Some(stack[0]);
        }
    }
    if windows.len() > 0 {
        Some(windows[0])
    } else {
        None
    }
}

} // verus!
