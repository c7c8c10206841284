//! What is asked of a shell whose hierarchy lives in another process, and what
//! it does.

use vstd::prelude::*;

verus! {

/// What is asked of the shell.
#[derive(Clone, Copy, Debug, PartialEq, Eq, Structural)]
pub enum DesktopIntent {
    OpenOrFocus,
    QuitDesktopShell,
    StopResidentCoreAndQuit,
}

/// What the shell does.
#[derive(Clone, Copy, Debug, PartialEq, Eq, Structural)]
pub enum DesktopAction {
    OpenWindow,
    FocusWindow,
    Quit,
    StopResidentCoreAndQuit,
}

pub fn action_for(intent: DesktopIntent, has_window: bool) -> (action: DesktopAction)
    ensures
        action == match intent {
            DesktopIntent::OpenOrFocus => if has_window {
                DesktopAction::FocusWindow
            } else {
                DesktopAction::OpenWindow
            },
            DesktopIntent::QuitDesktopShell => DesktopAction::Quit,
            DesktopIntent::StopResidentCoreAndQuit => DesktopAction::StopResidentCoreAndQuit,
        },
{
    match (intent, has_window) {
        (DesktopIntent::OpenOrFocus, true) => DesktopAction::FocusWindow,
        (DesktopIntent::OpenOrFocus, false) => DesktopAction::OpenWindow,
        (DesktopIntent::QuitDesktopShell, _) => DesktopAction::Quit,
        (DesktopIntent::StopResidentCoreAndQuit, _) => DesktopAction::StopResidentCoreAndQuit,
    }
}

/// What an interrupt asks for: only a launch during development stops all.
pub fn interrupt_intent(stop_on_interrupt: bool) -> (intent: Option<DesktopIntent>)
    ensures
        intent == if stop_on_interrupt {
            Some(DesktopIntent::StopResidentCoreAndQuit)
        } else {
            None
        },
{
    if stop_on_interrupt {
        Some(DesktopIntent::StopResidentCoreAndQuit)
    } else {
        None
    }
}

/// Whether the shell itself stops the other process after its windows are
/// gone: it does where no helper could be started for that.
pub fn stops_core_after_exit(action: DesktopAction, helper_started: bool) -> (stops: bool)
    ensures
        stops == (action == DesktopAction::StopResidentCoreAndQuit && !helper_started),
{
    action == DesktopAction::StopResidentCoreAndQuit && !helper_started
}

} // verus!
