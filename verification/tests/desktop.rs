use agent_terminal::activation::{
    activation_endpoint, activation_file, claim_step, named_scope, numbered_scope, ClaimStep,
};
use agent_terminal::application::{
    action_for, quit_mode, window_to_focus, ApplicationAction, ApplicationIntent, QuitMode,
};
use agent_terminal::desktop_presence::{click_intent, menu_intent, terminal_icon_rgba};
use agent_terminal::desktop_shell::{
    interrupt_intent, stops_core_after_exit, DesktopAction, DesktopIntent,
};

#[test]
fn application_open_or_focus_reuses_an_existing_window() {
    assert_eq!(
        action_for(ApplicationIntent::OpenOrFocus, true),
        ApplicationAction::FocusWindow
    );
    assert_eq!(
        action_for(ApplicationIntent::OpenOrFocus, false),
        ApplicationAction::OpenWindow
    );
}

#[test]
fn quit_is_independent_of_window_state() {
    assert_eq!(
        action_for(ApplicationIntent::Quit, true),
        ApplicationAction::Quit
    );
    assert_eq!(
        action_for(ApplicationIntent::Quit, false),
        ApplicationAction::Quit
    );
}

#[test]
fn terminal_icon_has_the_expected_rgba_shape_and_transparency() {
    let rgba = terminal_icon_rgba();
    assert_eq!(rgba.len(), 32 * 32 * 4);
    assert_eq!(&rgba[0..4], &[0, 0, 0, 0]);
    assert!(rgba.chunks_exact(4).any(|pixel| pixel[3] == 255));
}

#[test]
fn the_icon_shows_a_prompt_and_a_cursor_in_a_panel() {
    let rgba = terminal_icon_rgba();
    let pixel = |x: usize, y: usize| rgba[(y * 32 + x) * 4..(y * 32 + x) * 4 + 4].to_vec();
    assert_eq!(pixel(2, 3), vec![30, 41, 59, 255]);
    assert_eq!(pixel(1, 3), vec![0, 0, 0, 0]);
    assert_eq!(pixel(8, 10), vec![125, 211, 252, 255]);
    assert_eq!(pixel(12, 14), vec![125, 211, 252, 255]);
    assert_eq!(pixel(24, 19), vec![226, 232, 240, 255]);
    assert_eq!(pixel(25, 19), vec![30, 41, 59, 255]);
}

#[test]
fn only_development_launches_turn_interrupts_into_full_exit() {
    assert_eq!(interrupt_intent(false), None);
    assert_eq!(
        interrupt_intent(true),
        Some(DesktopIntent::StopResidentCoreAndQuit)
    );
}

#[test]
fn desktop_shell_open_or_focus_reuses_an_existing_window() {
    assert_eq!(
        agent_terminal::desktop_shell::action_for(DesktopIntent::OpenOrFocus, true),
        DesktopAction::FocusWindow
    );
    assert_eq!(
        agent_terminal::desktop_shell::action_for(DesktopIntent::OpenOrFocus, false),
        DesktopAction::OpenWindow
    );
}

#[test]
fn quitting_the_desktop_shell_never_depends_on_window_state() {
    assert_eq!(
        agent_terminal::desktop_shell::action_for(DesktopIntent::QuitDesktopShell, true),
        DesktopAction::Quit
    );
    assert_eq!(
        agent_terminal::desktop_shell::action_for(DesktopIntent::QuitDesktopShell, false),
        DesktopAction::Quit
    );
}

#[test]
fn full_exit_is_distinct_from_quitting_only_the_desktop_shell() {
    assert_eq!(
        agent_terminal::desktop_shell::action_for(DesktopIntent::StopResidentCoreAndQuit, true),
        DesktopAction::StopResidentCoreAndQuit
    );
    assert_ne!(
        agent_terminal::desktop_shell::action_for(DesktopIntent::StopResidentCoreAndQuit, false),
        DesktopAction::Quit
    );
}

#[test]
fn the_shell_stops_the_core_itself_only_without_a_helper() {
    assert!(stops_core_after_exit(
        DesktopAction::StopResidentCoreAndQuit,
        false
    ));
    assert!(!stops_core_after_exit(
        DesktopAction::StopResidentCoreAndQuit,
        true
    ));
    assert!(!stops_core_after_exit(DesktopAction::Quit, false));
}

#[test]
fn without_a_presence_the_last_window_ends_the_application() {
    assert_eq!(quit_mode(true), QuitMode::Explicit);
    assert_eq!(quit_mode(false), QuitMode::LastWindowClosed);
    assert_eq!(
        agent_terminal::application::interrupt_intent(true),
        Some(ApplicationIntent::Quit)
    );
    assert_eq!(agent_terminal::application::interrupt_intent(false), None);
}

#[test]
fn the_uppermost_window_gets_the_focus() {
    assert_eq!(window_to_focus(Some(vec![3, 1]), &vec![1, 3]), Some(3));
    assert_eq!(window_to_focus(Some(Vec::new()), &vec![1, 3]), Some(1));
    assert_eq!(window_to_focus(None, &vec![2]), Some(2));
    assert_eq!(window_to_focus(None, &Vec::new()), None);
}

#[test]
fn the_menu_and_a_click_ask_for_windows() {
    assert_eq!(
        menu_intent("agent-terminal.open"),
        Some(ApplicationIntent::OpenOrFocus)
    );
    assert_eq!(
        menu_intent("agent-terminal.quit"),
        Some(ApplicationIntent::Quit)
    );
    assert_eq!(menu_intent("other"), None);
    assert_eq!(
        click_intent("agent-terminal", true, true),
        Some(ApplicationIntent::OpenOrFocus)
    );
    assert_eq!(click_intent("agent-terminal", true, false), None);
    assert_eq!(click_intent("agent-terminal", false, true), None);
    assert_eq!(click_intent("other", true, true), None);
}

#[test]
fn scopes_hold_only_what_an_endpoint_may() {
    assert_eq!(numbered_scope(1000), "1000");
    assert_eq!(named_scope("HOME PC", "José.b_c-d"), "HOME-PC-Jos-.b_c-d");
    assert_eq!(
        activation_endpoint("1000"),
        "agent-terminal-1000-activation"
    );
    assert_eq!(
        activation_file("501"),
        "agent-terminal-501-activation.sock"
    );
}

#[test]
fn a_second_launch_tries_twenty_times() {
    let mut attempt = 0;
    let mut tries = 1;
    while let ClaimStep::Retry { attempt: next } = claim_step(attempt, false) {
        attempt = next;
        tries += 1;
    }
    assert_eq!(tries, 20);
    assert_eq!(claim_step(attempt, false), ClaimStep::Reclaim);
    assert_eq!(claim_step(3, true), ClaimStep::Forwarded);
}
