//! The state of a window: what it was told, what it shows, and what it has
//! asked for.

use super::appearance::SettingsSection;
use super::keys::{
    conflict_message, conflict_text, reset_conflict_message, reset_conflict_text, KeybindAction,
};
use super::selection::{
    created_selection, find_selected_tab, first_pane_id, focused_terminal, pane_selection,
    selected_place, selection_for_created, selection_for_pane, terminal_for_pane, UiSelection,
};
use crate::application_core::TerminalSnapshot;
use crate::core_driver::DriverUpdate;
use crate::core_model::edits::{lemma_found, lemma_space_found};
use crate::core_model::hierarchy::{find_space, space_named, TabQuery};
use crate::core_model::laws::lemma_located;
use crate::core_model::layout::{
    collect_terminal_session_ids, find_split_ratio, layout_contains_pane,
};
use crate::core_model::model::ModelView;
use crate::core_model::{
    CommandView, CoreCommand, CoreSnapshot, DirectoryPath, EffectView, HierarchyView, PaneId,
    SpaceId, SpaceSnapshot, SpaceView, SplitAxis, SplitId, SplitPlacement, SplitRatio, TabId,
    TabSnapshot, TabView, TerminalSessionId,
};
use crate::ghostty::option_chars;
use crate::resident_core::control::{session_keys, session_set};
use crate::sequences::{first_index, views};
use crate::table::Table;
use crate::terminal::{LifecycleView, TerminalLifecycle, TerminalSize};
use crate::text::{characters, decimal, decimal_chars, trim, trimmed};
use vstd::prelude::*;
use vstd::string::*;

verus! {

/// What can be closed.
#[derive(Clone, Copy, Debug, PartialEq, Eq, Structural)]
pub enum CloseTarget {
    Space(SpaceId),
    Tab(TabId),
    Pane(PaneId),
}

impl CloseTarget {
    pub open spec fn spec_command(self) -> CommandView {
        match self {
            CloseTarget::Space(space_id) => CommandView::CloseSpace { space_id },
            CloseTarget::Tab(tab_id) => CommandView::CloseTab { tab_id },
            CloseTarget::Pane(pane_id) => CommandView::ClosePane { pane_id },
        }
    }

    pub fn command(self) -> (command: CoreCommand)
        ensures
            command@ == self.spec_command(),
    {
        match self {
            CloseTarget::Space(space_id) => CoreCommand::CloseSpace { space_id },
            CloseTarget::Tab(tab_id) => CoreCommand::CloseTab { tab_id },
            CloseTarget::Pane(pane_id) => CoreCommand::ClosePane { pane_id },
        }
    }

    /// Whether the target is there.
    pub open spec fn is_in(self, spaces: Seq<SpaceView>) -> bool {
        match self {
            CloseTarget::Space(space_id) => first_index(spaces, space_named(space_id)) is Some,
            CloseTarget::Tab(tab_id) => TabQuery::Named(tab_id).locate(spaces) is Some,
            CloseTarget::Pane(pane_id) => TabQuery::WithPane(pane_id).locate(spaces) is Some,
        }
    }
}

/// The terminals in a Tab that a target takes with it.
pub open spec fn tab_sessions(space_id: SpaceId, tab: TabView, target: CloseTarget) -> Seq<
    TerminalSessionId,
> {
    match target {
        CloseTarget::Space(target) => if space_id == target {
            tab.layout.session_ids()
        } else {
            Seq::empty()
        },
        CloseTarget::Tab(target) => if tab.id == target {
            tab.layout.session_ids()
        } else {
            Seq::empty()
        },
        CloseTarget::Pane(target) => match tab.layout.find_pane(target) {
            Some(pane) => seq![pane.terminal_session_id],
            None => Seq::empty(),
        },
    }
}

pub open spec fn tabs_sessions(space_id: SpaceId, tabs: Seq<TabView>, target: CloseTarget) -> Seq<
    TerminalSessionId,
>
    decreases tabs.len(),
{
    if tabs.len() == 0 {
        Seq::empty()
    } else {
        tabs_sessions(space_id, tabs.drop_last(), target) + tab_sessions(
            space_id,
            tabs.last(),
            target,
        )
    }
}

/// The terminals that a target takes with it.
pub open spec fn target_sessions(spaces: Seq<SpaceView>, target: CloseTarget) -> Seq<
    TerminalSessionId,
>
    decreases spaces.len(),
{
    if spaces.len() == 0 {
        Seq::empty()
    } else {
        target_sessions(spaces.drop_last(), target) + tabs_sessions(
            spaces.last().id,
            spaces.last().tabs,
            target,
        )
    }
}

fn collect_tab_sessions(
    space_id: SpaceId,
    tab: &TabSnapshot,
    target: CloseTarget,
    sessions: &mut Vec<TerminalSessionId>,
)
    ensures
        final(sessions)@ == old(sessions)@ + tab_sessions(space_id, tab@, target),
{
    let whole = match target {
        CloseTarget::Space(target) => space_id == target,
        CloseTarget::Tab(target) => tab.id == target,
        CloseTarget::Pane(pane_id) => {
            match terminal_for_pane(&tab.layout, pane_id) {
                Some(session) => {
                    sessions.push(session);
                    proof {
                        assert(sessions@ =~= old(sessions)@ + tab_sessions(space_id, tab@, target));
                    }
                },
                None => {
                    proof {
                        assert(sessions@ =~= old(sessions)@ + tab_sessions(space_id, tab@, target));
                    }
                },
            }
            return ;
        },
    };
    if whole {
        collect_terminal_session_ids(&tab.layout, sessions);
    } else {
        proof {
            assert(sessions@ =~= old(sessions)@ + tab_sessions(space_id, tab@, target));
        }
    }
}

fn collect_space_sessions(
    space: &SpaceSnapshot,
    target: CloseTarget,
    sessions: &mut Vec<TerminalSessionId>,
)
    ensures
        final(sessions)@ == old(sessions)@ + tabs_sessions(space@.id, space@.tabs, target),
{
    let ghost tabs = space@.tabs;
    let mut index: usize = 0;
    proof {
        assert(sessions@ + tabs_sessions(space.id, tabs.take(0), target) =~= sessions@);
    }
    while index < space.tabs.len()
        invariant
            index <= space.tabs@.len(),
            tabs == views(space.tabs@),
            sessions@ == old(sessions)@ + tabs_sessions(space.id, tabs.take(index as int), target),
        decreases space.tabs@.len() - index,
    {
        proof {
            let longer = tabs.take(index + 1);
            assert(longer.drop_last() =~= tabs.take(index as int));
            assert(longer.last() == space.tabs@[index as int]@);
        }
        let ghost before = sessions@;
        collect_tab_sessions(space.id, &space.tabs[index], target, sessions);
        index += 1;
        proof {
            assert(sessions@ =~= old(sessions)@ + tabs_sessions(
                space.id,
                tabs.take(index as int),
                target,
            ));
        }
    }
    proof {
        assert(tabs.take(index as int) =~= tabs);
    }
}

pub fn terminal_sessions_for_target(hierarchy: &CoreSnapshot, target: CloseTarget) -> (sessions:
    Vec<TerminalSessionId>)
    ensures
        sessions@ == target_sessions(hierarchy@.spaces, target),
{
    let ghost spaces = hierarchy@.spaces;
    let mut sessions: Vec<TerminalSessionId> = Vec::new();
    let mut index: usize = 0;
    proof {
        assert(sessions@ =~= target_sessions(spaces.take(0), target));
    }
    while index < hierarchy.spaces.len()
        invariant
            index <= hierarchy.spaces@.len(),
            spaces == views(hierarchy.spaces@),
            sessions@ == target_sessions(spaces.take(index as int), target),
        decreases hierarchy.spaces@.len() - index,
    {
        proof {
            let longer = spaces.take(index + 1);
            assert(longer.drop_last() =~= spaces.take(index as int));
            assert(longer.last() == hierarchy.spaces@[index as int]@);
        }
        collect_space_sessions(&hierarchy.spaces[index], target, &mut sessions);
        index += 1;
    }
    proof {
        assert(spaces.take(index as int) =~= spaces);
    }
    sessions
}

/// What a window says of a terminal whose process has ended.
pub open spec fn ending_message(lifecycle: LifecycleView) -> Option<Seq<char>> {
    match lifecycle {
        LifecycleView::Running => None,
        LifecycleView::Exited => Some("Terminal process exited"@),
        LifecycleView::Failed(error) => Some("Terminal process failed: "@ + error),
    }
}

pub fn lifecycle_message(lifecycle: &TerminalLifecycle) -> (message: Option<String>)
    ensures
        option_chars(message) == ending_message(lifecycle@),
{
    match lifecycle {
        TerminalLifecycle::Running => None,
        TerminalLifecycle::Exited => Some("Terminal process exited".to_owned()),
        TerminalLifecycle::Failed(error) => {
            let mut message = "Terminal process failed: ".to_owned();
            message.append(error.as_str());
            Some(message)
        },
    }
}

/// The texts of a table.
pub open spec fn texts(table: Map<u64, String>) -> Map<u64, Seq<char>> {
    table.map_values(|text: String| text@)
}

/// What is said of a terminal after a snapshot came.
pub open spec fn errors_after(
    errors: Map<u64, Seq<char>>,
    session: TerminalSessionId,
    lifecycle: LifecycleView,
) -> Map<u64, Seq<char>> {
    match ending_message(lifecycle) {
        Some(message) => errors.insert(session.0, message),
        None => errors.remove(session.0),
    }
}

/// Takes a snapshot of a terminal, where the hierarchy still holds its session.
pub fn accept_terminal_snapshot(
    hierarchy: &CoreSnapshot,
    terminals: &mut Table<TerminalSnapshot>,
    terminal_errors: &mut Table<String>,
    terminal_session_id: TerminalSessionId,
    snapshot: TerminalSnapshot,
)
    ensures
        if session_set(hierarchy@.sessions).contains(terminal_session_id.0) {
            &&& final(terminals)@ == old(terminals)@.insert(terminal_session_id.0, snapshot)
            &&& texts(final(terminal_errors)@) == errors_after(
                texts(old(terminal_errors)@),
                terminal_session_id,
                snapshot.lifecycle@,
            )
        } else {
            &&& final(terminals)@ == old(terminals)@
            &&& final(terminal_errors)@ == old(terminal_errors)@
        },
{
    let keys = session_keys(&hierarchy.terminal_sessions);
    let live = crate::table::contains_key(&keys, terminal_session_id.0);
    proof {
        assert(keys@.contains(terminal_session_id.0) == keys@.to_set().contains(
            terminal_session_id.0,
        ));
    }
    if !live {
        return ;
    }
    let ghost before = terminal_errors@;
    match lifecycle_message(&snapshot.lifecycle) {
        Some(message) => {
            let ghost text = message@;
            terminal_errors.insert(terminal_session_id.0, message);
            proof {
                assert(texts(terminal_errors@) =~= texts(before).insert(
                    terminal_session_id.0,
                    text,
                ));
            }
        },
        None => {
            let _ = terminal_errors.remove(terminal_session_id.0);
            proof {
                assert(texts(terminal_errors@) =~= texts(before).remove(terminal_session_id.0));
            }
        },
    }
    terminals.insert(terminal_session_id.0, snapshot);
}

/// How the programs of a Space move on the screen.
#[derive(Clone, Copy, Debug, PartialEq, Eq, Structural)]
pub enum AgentLayoutTransition {
    Expanding,
    Collapsing,
}

pub struct MultiplexerView {
    hierarchy: CoreSnapshot,
    terminals: Table<TerminalSnapshot>,
    selection: UiSelection,
    terminal_errors: Table<String>,
    global_error: Option<String>,
    settings_open: bool,
    settings_section: SettingsSection,
    recording_binding: Option<KeybindAction>,
    requested_sizes: Table<TerminalSize>,
    move_source: Option<PaneId>,
    selections_after_commands: Table<PaneId>,
    split_dragging: Option<SplitId>,
    preview_split_ratios: Table<SplitRatio>,
    pending_split_resizes: Table<SplitId>,
    sidebar_collapsed: bool,
    expanded_agent_spaces: Table<()>,
    agent_layout_transitions: Table<AgentLayoutTransition>,
}

#[verifier::ext_equal]
pub struct WindowView {
    pub hierarchy: HierarchyView,
    pub terminals: Map<u64, TerminalSnapshot>,
    pub selection: UiSelection,
    pub terminal_errors: Map<u64, Seq<char>>,
    pub global_error: Option<Seq<char>>,
    pub settings_open: bool,
    pub settings_section: SettingsSection,
    pub recording_binding: Option<KeybindAction>,
    pub requested_sizes: Map<u64, TerminalSize>,
    pub move_source: Option<PaneId>,
    /// The Panes to select once the commands with these numbers are accepted.
    pub selections_after_commands: Map<u64, PaneId>,
    pub split_dragging: Option<SplitId>,
    pub preview_split_ratios: Map<u64, SplitRatio>,
    /// The splits that the commands with these numbers resize.
    pub pending_split_resizes: Map<u64, SplitId>,
    pub sidebar_collapsed: bool,
    pub expanded_agent_spaces: Map<u64, ()>,
    pub agent_layout_transitions: Map<u64, AgentLayoutTransition>,
}

impl View for MultiplexerView {
    type V = WindowView;

    closed spec fn view(&self) -> WindowView {
        WindowView {
            hierarchy: self.hierarchy@,
            terminals: self.terminals@,
            selection: self.selection,
            terminal_errors: texts(self.terminal_errors@),
            global_error: option_chars(self.global_error),
            settings_open: self.settings_open,
            settings_section: self.settings_section,
            recording_binding: self.recording_binding,
            requested_sizes: self.requested_sizes@,
            move_source: self.move_source,
            selections_after_commands: self.selections_after_commands@,
            split_dragging: self.split_dragging,
            preview_split_ratios: self.preview_split_ratios@,
            pending_split_resizes: self.pending_split_resizes@,
            sidebar_collapsed: self.sidebar_collapsed,
            expanded_agent_spaces: self.expanded_agent_spaces@,
            agent_layout_transitions: self.agent_layout_transitions@,
        }
    }
}

/// The identities of Spaces.
pub open spec fn space_set(spaces: Seq<SpaceView>) -> Set<u64> {
    Set::new(|id: u64| exists|i: int| 0 <= i < spaces.len() && (#[trigger] spaces[i]).id.0 == id)
}

fn space_keys(spaces: &Vec<SpaceSnapshot>) -> (keys: Vec<u64>)
    ensures
        keys@.to_set() == space_set(views(spaces@)),
{
    let mut keys: Vec<u64> = Vec::new();
    let mut index: usize = 0;
    while index < spaces.len()
        invariant
            index <= spaces@.len(),
            keys@.len() == index,
            forall|i: int| 0 <= i < index ==> #[trigger] keys@[i] == spaces@[i].id.0,
        decreases spaces@.len() - index,
    {
        keys.push(spaces[index].id.0);
        index += 1;
    }
    proof {
        let all = views(spaces@);
        assert forall|id: u64| keys@.to_set().contains(id) <==> space_set(all).contains(id) by {
            if keys@.contains(id) {
                let i = keys@.index_of(id);
                assert(all[i].id.0 == id);
            }
            if space_set(all).contains(id) {
                let i = choose|i: int| 0 <= i < all.len() && (#[trigger] all[i]).id.0 == id;
                assert(keys@[i] == id);
            }
        }
        assert(keys@.to_set() =~= space_set(all));
    }
    keys
}

impl WindowView {
    /// After a hierarchy came: what belongs to what is gone is forgotten.
    pub open spec fn with_hierarchy(self, hierarchy: HierarchyView) -> WindowView {
        let sessions = session_set(hierarchy.sessions);
        let spaces = space_set(hierarchy.spaces);
        WindowView {
            hierarchy,
            terminals: self.terminals.restrict(sessions),
            terminal_errors: self.terminal_errors.restrict(sessions),
            requested_sizes: self.requested_sizes.restrict(sessions),
            expanded_agent_spaces: self.expanded_agent_spaces.restrict(spaces),
            agent_layout_transitions: self.agent_layout_transitions.restrict(spaces),
            selection: self.selection.settled(hierarchy.spaces),
            move_source: match self.move_source {
                Some(pane_id) if TabQuery::WithPane(pane_id).locate(hierarchy.spaces) is None => {
                    None
                },
                source => source,
            },
            ..self
        }
    }

    /// After a command was answered: its split shows its own ratio again.
    pub open spec fn answered(self, command_id: u64) -> WindowView {
        WindowView {
            preview_split_ratios: if self.pending_split_resizes.contains_key(command_id) {
                self.preview_split_ratios.remove(self.pending_split_resizes[command_id].0)
            } else {
                self.preview_split_ratios
            },
            pending_split_resizes: self.pending_split_resizes.remove(command_id),
            selections_after_commands: self.selections_after_commands.remove(command_id),
            ..self
        }
    }

    /// After an update of the driver came.
    pub open spec fn told(self, update: DriverUpdate) -> WindowView {
        match update {
            DriverUpdate::Hierarchy(hierarchy) => self.with_hierarchy(hierarchy@),
            DriverUpdate::CommandAccepted { command_id, outcome } => WindowView {
                selection: if self.selections_after_commands.contains_key(command_id) {
                    pane_selection(
                        self.selections_after_commands[command_id],
                        self.hierarchy.spaces,
                    )
                } else {
                    created_selection(self.selection, outcome.created, self.hierarchy.spaces)
                },
                global_error: None,
                ..self.answered(command_id)
            },
            DriverUpdate::CommandRejected { command_id, error } => WindowView {
                global_error: Some(error@),
                ..self.answered(command_id)
            },
            DriverUpdate::Terminal { terminal_session_id, snapshot } => if session_set(
                self.hierarchy.sessions,
            ).contains(terminal_session_id.0) {
                WindowView {
                    terminals: self.terminals.insert(terminal_session_id.0, snapshot),
                    terminal_errors: errors_after(
                        self.terminal_errors,
                        terminal_session_id,
                        snapshot.lifecycle@,
                    ),
                    ..self
                }
            } else {
                self
            },
            DriverUpdate::Error(error) => WindowView {
                selections_after_commands: Map::empty(),
                pending_split_resizes: Map::empty(),
                preview_split_ratios: Map::empty(),
                split_dragging: None,
                global_error: Some(error@),
                ..self
            },
        }
    }

    /// Whether the window keeps nothing of terminals and Spaces that are gone,
    /// and moves no Pane that is gone.
    pub open spec fn is_current(self) -> bool {
        let sessions = session_set(self.hierarchy.sessions);
        let spaces = space_set(self.hierarchy.spaces);
        &&& self.terminals.dom().subset_of(sessions)
        &&& self.terminal_errors.dom().subset_of(sessions)
        &&& self.requested_sizes.dom().subset_of(sessions)
        &&& self.expanded_agent_spaces.dom().subset_of(spaces)
        &&& self.agent_layout_transitions.dom().subset_of(spaces)
        &&& self.move_source matches Some(pane_id) ==> TabQuery::WithPane(pane_id).locate(
            self.hierarchy.spaces,
        ) is Some
    }

    /// After a command was handed over or refused.
    pub open spec fn submitted(self, result: Result<u64, String>) -> WindowView {
        WindowView {
            global_error: match result {
                Ok(_) => None,
                Err(error) => Some(error@),
            },
            ..self
        }
    }
}

/// No update leaves a window with something of a terminal or a Space that is
/// gone, or with the move of a Pane that is gone; a late update of a terminal
/// brings nothing back.
pub proof fn law_windows_forget_closed_terminals(window: WindowView, update: DriverUpdate)
    requires
        window.is_current(),
    ensures
        window.told(update).is_current(),
{
}

/// Selections follow the hierarchy: after an update of it the selection is
/// settled.
pub proof fn law_selections_follow_the_hierarchy(window: WindowView, hierarchy: HierarchyView)
    ensures
        window.with_hierarchy(hierarchy).selection.settled(hierarchy.spaces)
            == window.with_hierarchy(hierarchy).selection,
{
    super::selection::law_settled_selections_stay(window.selection, hierarchy.spaces);
}

/// What closing comes to.
#[derive(Debug, PartialEq, Eq)]
pub enum CloseDecision {
    /// The target is gone.
    Nothing,
    /// The user is asked first: that many terminals seem to be at work.
    Confirm { active_sessions: usize },
    Close(CoreCommand),
}

/// How many of `sessions` are at work, or not known.
pub open spec fn active_count(
    sessions: Seq<TerminalSessionId>,
    terminals: Map<u64, TerminalSnapshot>,
) -> nat
    decreases sessions.len(),
{
    if sessions.len() == 0 {
        0
    } else {
        let session = sessions.last();
        let active = !terminals.contains_key(session.0) || terminals[session.0].active_work;
        active_count(sessions.drop_last(), terminals) + if active {
            1nat
        } else {
            0nat
        }
    }
}

/// The sessions that are asked about are those that are at work or not known:
/// their number, and where none is listed twice the size of their set. Nothing is
/// asked exactly where all are known and none is at work.
pub proof fn law_sessions_at_work_are_counted(
    sessions: Seq<TerminalSessionId>,
    terminals: Map<u64, TerminalSnapshot>,
)
    ensures
        ({
            let at_work = |session: TerminalSessionId|
                !terminals.contains_key(session.0) || terminals[session.0].active_work;
            &&& active_count(sessions, terminals) == sessions.filter(at_work).len()
            &&& sessions.no_duplicates() ==> sessions.to_set().filter(at_work).finite()
                && active_count(sessions, terminals) == sessions.to_set().filter(at_work).len()
            &&& active_count(sessions, terminals) == 0 <==> forall|i: int|
                0 <= i < sessions.len() ==> {
                    let session = #[trigger] sessions[i];
                    terminals.contains_key(session.0) && !terminals[session.0].active_work
                }
        }),
    decreases sessions.len(),
{
    broadcast use vstd::set::group_set_axioms;

    reveal(Seq::filter);
    let at_work = |session: TerminalSessionId|
        !terminals.contains_key(session.0) || terminals[session.0].active_work;
    let all = sessions.to_set().filter(at_work);
    if sessions.len() == 0 {
        assert(all =~= Set::empty());
    } else {
        let rest = sessions.drop_last();
        let last = sessions.last();
        law_sessions_at_work_are_counted(rest, terminals);
        let fewer = rest.to_set().filter(at_work);
        assert(sessions =~= rest.push(last));
        assert(sessions[sessions.len() - 1] == last);
        assert forall|i: int| 0 <= i < rest.len() implies rest[i] == sessions[i] by {}
        assert forall|session: TerminalSessionId|
            sessions.contains(session) <==> rest.contains(session) || session == last by {
            if sessions.contains(session) {
                let i = sessions.index_of(session);
                if i < rest.len() {
                    assert(rest[i] == session);
                }
            }
            if rest.contains(session) {
                let i = rest.index_of(session);
                assert(sessions[i] == session);
            }
        }
        if sessions.no_duplicates() {
            assert(rest.no_duplicates());
            if rest.contains(last) {
                let i = rest.index_of(last);
                assert(sessions[i] == sessions[sessions.len() - 1]);
            }
            if at_work(last) {
                assert(all =~= fewer.insert(last));
            } else {
                assert(all =~= fewer);
            }
        }
    }
}

proof fn lemma_no_tab_sessions(space_id: SpaceId, tabs: Seq<TabView>, target: CloseTarget)
    requires
        forall|t: int|
            0 <= t < tabs.len() ==> tab_sessions(space_id, #[trigger] tabs[t], target).len() == 0,
    ensures
        tabs_sessions(space_id, tabs, target).len() == 0,
    decreases tabs.len(),
{
    if tabs.len() > 0 {
        assert forall|t: int| 0 <= t < tabs.drop_last().len() implies tab_sessions(
            space_id,
            #[trigger] tabs.drop_last()[t],
            target,
        ).len() == 0 by {
            assert(tab_sessions(space_id, tabs[t], target).len() == 0);
        }
        lemma_no_tab_sessions(space_id, tabs.drop_last(), target);
        assert(tab_sessions(space_id, tabs[tabs.len() - 1], target).len() == 0);
    }
}

proof fn lemma_one_tab_sessions(
    space_id: SpaceId,
    tabs: Seq<TabView>,
    target: CloseTarget,
    tab: int,
)
    requires
        0 <= tab < tabs.len(),
        forall|t: int|
            0 <= t < tabs.len() && t != tab ==> tab_sessions(
                space_id,
                #[trigger] tabs[t],
                target,
            ).len() == 0,
    ensures
        tabs_sessions(space_id, tabs, target) == tab_sessions(space_id, tabs[tab], target),
    decreases tabs.len(),
{
    let rest = tabs.drop_last();
    assert forall|t: int| 0 <= t < rest.len() && t != tab implies tab_sessions(
        space_id,
        #[trigger] rest[t],
        target,
    ).len() == 0 by {
        assert(tab_sessions(space_id, tabs[t], target).len() == 0);
    }
    if tab == tabs.len() - 1 {
        lemma_no_tab_sessions(space_id, rest, target);
    } else {
        lemma_one_tab_sessions(space_id, rest, target, tab);
        assert(tab_sessions(space_id, tabs[tabs.len() - 1], target).len() == 0);
    }
    assert(tabs_sessions(space_id, tabs, target) =~= tab_sessions(space_id, tabs[tab], target));
}

proof fn lemma_one_space_sessions(spaces: Seq<SpaceView>, target: CloseTarget, space: int)
    requires
        0 <= space < spaces.len(),
        forall|s: int|
            0 <= s < spaces.len() && s != space ==> tabs_sessions(
                (#[trigger] spaces[s]).id,
                spaces[s].tabs,
                target,
            ).len() == 0,
    ensures
        target_sessions(spaces, target) == tabs_sessions(
            spaces[space].id,
            spaces[space].tabs,
            target,
        ),
    decreases spaces.len(),
{
    let rest = spaces.drop_last();
    assert forall|s: int| 0 <= s < rest.len() && s != space implies tabs_sessions(
        (#[trigger] rest[s]).id,
        rest[s].tabs,
        target,
    ).len() == 0 by {
        assert(tabs_sessions(spaces[s].id, spaces[s].tabs, target).len() == 0);
    }
    if space == spaces.len() - 1 {
        lemma_no_space_sessions(rest, target);
    } else {
        lemma_one_space_sessions(rest, target, space);
        assert(tabs_sessions(
            spaces[spaces.len() - 1].id,
            spaces[spaces.len() - 1].tabs,
            target,
        ).len() == 0);
    }
    assert(target_sessions(spaces, target) =~= tabs_sessions(
        spaces[space].id,
        spaces[space].tabs,
        target,
    ));
}

proof fn lemma_no_space_sessions(spaces: Seq<SpaceView>, target: CloseTarget)
    requires
        forall|s: int|
            0 <= s < spaces.len() ==> tabs_sessions(
                (#[trigger] spaces[s]).id,
                spaces[s].tabs,
                target,
            ).len() == 0,
    ensures
        target_sessions(spaces, target).len() == 0,
    decreases spaces.len(),
{
    if spaces.len() > 0 {
        let rest = spaces.drop_last();
        assert forall|s: int| 0 <= s < rest.len() implies tabs_sessions(
            (#[trigger] rest[s]).id,
            rest[s].tabs,
            target,
        ).len() == 0 by {
            assert(tabs_sessions(spaces[s].id, spaces[s].tabs, target).len() == 0);
        }
        lemma_no_space_sessions(rest, target);
        assert(tabs_sessions(
            spaces[spaces.len() - 1].id,
            spaces[spaces.len() - 1].tabs,
            target,
        ).len() == 0);
    }
}

proof fn lemma_whole_tabs(space_id: SpaceId, tabs: Seq<TabView>)
    ensures
        tabs_sessions(space_id, tabs, CloseTarget::Space(space_id))
            == crate::core_model::model::tab_session_ids(tabs),
    decreases tabs.len(),
{
    if tabs.len() > 0 {
        lemma_whole_tabs(space_id, tabs.drop_last());
    }
}

/// What a target takes with it is what its command stops, session for session, and
/// a target is there exactly where its command is accepted.
pub proof fn law_targets_take_what_their_commands_stop(model: ModelView, target: CloseTarget)
    requires
        model.well_formed(),
    ensures
        target.is_in(model.snapshot.spaces) <==> model.change(target.spec_command()) is Ok,
        model.change(target.spec_command()) matches Ok(change) ==> {
            let sessions = target_sessions(model.snapshot.spaces, target);
            &&& change.effects.len() == sessions.len()
            &&& forall|i: int|
                0 <= i < sessions.len() ==> #[trigger] change.effects[i]
                    == (EffectView::StopTerminal { terminal_session_id: sessions[i] })
        },
{
    let spaces = model.snapshot.spaces;
    if target.is_in(spaces) {
        match target {
            CloseTarget::Space(space_id) => {
                let space = first_index(spaces, space_named(space_id))->0;
                assert forall|s: int| 0 <= s < spaces.len() && s != space implies tabs_sessions(
                    (#[trigger] spaces[s]).id,
                    spaces[s].tabs,
                    target,
                ).len() == 0 by {
                    if spaces[s].id == space_id {
                        lemma_space_found(model, s);
                    }
                    lemma_no_tab_sessions(spaces[s].id, spaces[s].tabs, target);
                }
                lemma_one_space_sessions(spaces, target, space);
                lemma_whole_tabs(space_id, spaces[space].tabs);
            },
            CloseTarget::Tab(tab_id) => {
                lemma_target_tab(model, TabQuery::Named(tab_id), target);
            },
            CloseTarget::Pane(pane_id) => {
                lemma_target_tab(model, TabQuery::WithPane(pane_id), target);
            },
        }
    }
}

proof fn lemma_target_tab(model: ModelView, query: TabQuery, target: CloseTarget)
    requires
        model.well_formed(),
        query.locate(model.snapshot.spaces) is Some,
        match target {
            CloseTarget::Space(_) => false,
            CloseTarget::Tab(tab_id) => query == TabQuery::Named(tab_id),
            CloseTarget::Pane(pane_id) => query == TabQuery::WithPane(pane_id),
        },
    ensures
        ({
            let spaces = model.snapshot.spaces;
            let (space, tab) = query.locate(spaces)->0;
            target_sessions(spaces, target) == tab_sessions(
                spaces[space].id,
                spaces[space].tabs[tab],
                target,
            )
        }),
{
    let spaces = model.snapshot.spaces;
    lemma_located(query, spaces);
    let (space, tab) = query.locate(spaces)->0;
    assert forall|s: int, t: int|
        #![trigger spaces[s].tabs[t]]
        0 <= s < spaces.len() && 0 <= t < spaces[s].tabs.len() && (s != space || t
            != tab) implies tab_sessions(spaces[s].id, spaces[s].tabs[t], target).len() == 0 by {
        if query.matches(spaces[s].tabs[t]) {
            lemma_found(spaces, query, s, t);
        }
    }
    assert forall|s: int| 0 <= s < spaces.len() && s != space implies tabs_sessions(
        (#[trigger] spaces[s]).id,
        spaces[s].tabs,
        target,
    ).len() == 0 by {
        lemma_no_tab_sessions(spaces[s].id, spaces[s].tabs, target);
    }
    lemma_one_space_sessions(spaces, target, space);
    lemma_one_tab_sessions(spaces[space].id, spaces[space].tabs, target, tab);
}

/// A window never closes without asking what it knows to be at work, or does not
/// know: where a command would stop such a session, something is asked about.
pub proof fn law_work_is_not_stopped_unasked(
    model: ModelView,
    terminals: Map<u64, TerminalSnapshot>,
    target: CloseTarget,
    place: int,
)
    requires
        model.well_formed(),
        model.change(target.spec_command()) is Ok,
        0 <= place < model.change(target.spec_command())->Ok_0.effects.len(),
        ({
            let session = model.change(
                target.spec_command(),
            )->Ok_0.effects[place]->StopTerminal_terminal_session_id;
            !terminals.contains_key(session.0) || terminals[session.0].active_work
        }),
    ensures
        active_count(target_sessions(model.snapshot.spaces, target), terminals) > 0,
{
    let sessions = target_sessions(model.snapshot.spaces, target);
    law_targets_take_what_their_commands_stop(model, target);
    law_sessions_at_work_are_counted(sessions, terminals);
    let effect = model.change(target.spec_command())->Ok_0.effects[place];
    assert(effect == (EffectView::StopTerminal { terminal_session_id: sessions[place] }));
}

/// The question before terminals at work are closed.
pub fn close_warning(active_sessions: usize) -> (warning: String)
    ensures
        warning@ == decimal_chars(active_sessions as nat) + " terminal "@ + (if active_sessions
            == 1 {
            "session"@
        } else {
            "sessions"@
        }) + " appear to be busy. Closing will stop the running work."@,
{
    let mut warning = decimal(active_sessions as u64);
    warning.append(" terminal ");
    if active_sessions == 1 {
        warning.append("session");
    } else {
        warning.append("sessions");
    }
    warning.append(" appear to be busy. Closing will stop the running work.");
    warning
}

impl MultiplexerView {
    /// A window that was told a hierarchy, and may have to warn of something.
    pub fn new(hierarchy: CoreSnapshot, warning: Option<String>) -> (window: Self)
        ensures
            window@.is_current(),
            window@ == (WindowView {
                hierarchy: hierarchy@,
                terminals: Map::empty(),
                selection: super::selection::no_selection().settled(hierarchy@.spaces),
                terminal_errors: Map::empty(),
                global_error: option_chars(warning),
                settings_open: false,
                settings_section: SettingsSection::Appearance,
                recording_binding: None,
                requested_sizes: Map::empty(),
                move_source: None,
                selections_after_commands: Map::empty(),
                split_dragging: None,
                preview_split_ratios: Map::empty(),
                pending_split_resizes: Map::empty(),
                sidebar_collapsed: false,
                expanded_agent_spaces: Map::empty(),
                agent_layout_transitions: Map::empty(),
            }),
    {
        let selection = UiSelection::initial(&hierarchy);
        let window = MultiplexerView {
            hierarchy,
            terminals: Table::new(),
            selection,
            terminal_errors: Table::new(),
            global_error: warning,
            settings_open: false,
            settings_section: SettingsSection::Appearance,
            recording_binding: None,
            requested_sizes: Table::new(),
            move_source: None,
            selections_after_commands: Table::new(),
            split_dragging: None,
            preview_split_ratios: Table::new(),
            pending_split_resizes: Table::new(),
            sidebar_collapsed: false,
            expanded_agent_spaces: Table::new(),
            agent_layout_transitions: Table::new(),
        };
        proof {
            assert(window@.terminal_errors =~= Map::empty());
        }
        window
    }

    pub fn selection(&self) -> (selection: UiSelection)
        ensures
            selection == self@.selection,
    {
        self.selection
    }

    pub fn hierarchy(&self) -> (hierarchy: &CoreSnapshot)
        ensures
            hierarchy@ == self@.hierarchy,
    {
        &self.hierarchy
    }

    pub fn terminal(&self, session: TerminalSessionId) -> (snapshot: Option<&TerminalSnapshot>)
        ensures
            match snapshot {
                Some(snapshot) => self@.terminals.contains_key(session.0) && *snapshot
                    == self@.terminals[session.0],
                None => !self@.terminals.contains_key(session.0),
            },
    {
        self.terminals.get(session.0)
    }

    /// What is said of a terminal.
    pub fn terminal_error(&self, session: TerminalSessionId) -> (error: Option<&String>)
        ensures
            match error {
                Some(error) => self@.terminal_errors.contains_key(session.0) && error@
                    == self@.terminal_errors[session.0],
                None => !self@.terminal_errors.contains_key(session.0),
            },
    {
        self.terminal_errors.get(session.0)
    }

    pub fn global_error(&self) -> (error: Option<String>)
        ensures
            option_chars(error) == self@.global_error,
    {
        match &self.global_error {
            Some(error) => Some(error.clone()),
            None => None,
        }
    }

    pub fn move_source(&self) -> (source: Option<PaneId>)
        ensures
            source == self@.move_source,
    {
        self.move_source
    }

    /// The ratio at which a split is shown, where it is not its own.
    pub fn preview_ratio(&self, split_id: SplitId) -> (ratio: Option<SplitRatio>)
        ensures
            ratio == if self@.preview_split_ratios.contains_key(split_id.0) {
                Some(self@.preview_split_ratios[split_id.0])
            } else {
                None
            },
    {
        match self.preview_split_ratios.get(split_id.0) {
            Some(ratio) => Some(*ratio),
            None => None,
        }
    }

    pub fn settings_section(&self) -> (section: SettingsSection)
        ensures
            section == self@.settings_section,
    {
        self.settings_section
    }

    pub fn sidebar_collapsed(&self) -> (collapsed: bool)
        ensures
            collapsed == self@.sidebar_collapsed,
    {
        self.sidebar_collapsed
    }

    /// Whether the programs of a Space are listed one by one.
    pub fn agents_expanded(&self, space_id: SpaceId) -> (expanded: bool)
        ensures
            expanded == self@.expanded_agent_spaces.contains_key(space_id.0),
    {
        self.expanded_agent_spaces.contains(space_id.0)
    }

    /// How the programs of a Space move.
    pub fn agent_transition(&self, space_id: SpaceId) -> (transition: Option<AgentLayoutTransition>)
        ensures
            transition == if self@.agent_layout_transitions.contains_key(space_id.0) {
                Some(self@.agent_layout_transitions[space_id.0])
            } else {
                None
            },
    {
        match self.agent_layout_transitions.get(space_id.0) {
            Some(transition) => Some(*transition),
            None => None,
        }
    }

    pub fn terminals(&self) -> (terminals: &Table<TerminalSnapshot>)
        ensures
            terminals@ == self@.terminals,
    {
        &self.terminals
    }

    pub fn split_dragging(&self) -> (split: Option<SplitId>)
        ensures
            split == self@.split_dragging,
    {
        self.split_dragging
    }

    pub fn settings_open(&self) -> (open: bool)
        ensures
            open == self@.settings_open,
    {
        self.settings_open
    }

    pub fn recording_binding(&self) -> (recording: Option<KeybindAction>)
        ensures
            recording == self@.recording_binding,
    {
        self.recording_binding
    }

    fn retain_live_terminals(&mut self)
        ensures
            final(self)@ == (WindowView {
                terminals: old(self)@.terminals.restrict(
                    session_set(old(self)@.hierarchy.sessions),
                ),
                terminal_errors: old(self)@.terminal_errors.restrict(
                    session_set(old(self)@.hierarchy.sessions),
                ),
                requested_sizes: old(self)@.requested_sizes.restrict(
                    session_set(old(self)@.hierarchy.sessions),
                ),
                ..old(self)@
            }),
    {
        let keys = session_keys(&self.hierarchy.terminal_sessions);
        self.terminals.retain(&keys);
        self.terminal_errors.retain(&keys);
        self.requested_sizes.retain(&keys);
        proof {
            assert(self@.terminal_errors =~= old(self)@.terminal_errors.restrict(
                session_set(old(self)@.hierarchy.sessions),
            ));
        }
    }

    fn accept_hierarchy(&mut self, hierarchy: CoreSnapshot)
        ensures
            final(self)@ == old(self)@.with_hierarchy(hierarchy@),
    {
        self.hierarchy = hierarchy;
        self.retain_live_terminals();
        let spaces = space_keys(&self.hierarchy.spaces);
        self.expanded_agent_spaces.retain(&spaces);
        self.agent_layout_transitions.retain(&spaces);
        self.selection = self.selection.normalized(&self.hierarchy);
        if let Some(pane_id) = self.move_source {
            if TabQuery::WithPane(pane_id).find(&self.hierarchy.spaces).is_err() {
                self.move_source = None;
            }
        }
    }

    fn accept_answer(&mut self, command_id: u64) -> (selected: Option<PaneId>)
        ensures
            final(self)@ == old(self)@.answered(command_id),
            selected == if old(self)@.selections_after_commands.contains_key(command_id) {
                Some(old(self)@.selections_after_commands[command_id])
            } else {
                None
            },
    {
        if let Some(split_id) = self.pending_split_resizes.remove(command_id) {
            let _ = self.preview_split_ratios.remove(split_id.0);
        }
        self.selections_after_commands.remove(command_id)
    }

    pub fn accept_driver_update(&mut self, update: DriverUpdate)
        ensures
            final(self)@ == old(self)@.told(update),
    {
        match update {
            DriverUpdate::Hierarchy(hierarchy) => self.accept_hierarchy(hierarchy),
            DriverUpdate::CommandAccepted { command_id, outcome } => {
                let selected = self.accept_answer(command_id);
                self.selection = match selected {
                    Some(pane_id) => selection_for_pane(pane_id, &self.hierarchy),
                    None => selection_for_created(
                        self.selection,
                        &outcome.created,
                        &self.hierarchy,
                    ),
                };
                self.global_error = None;
            },
            DriverUpdate::CommandRejected { command_id, error } => {
                let _ = self.accept_answer(command_id);
                self.global_error = Some(error);
            },
            DriverUpdate::Terminal { terminal_session_id, snapshot } => {
                accept_terminal_snapshot(
                    &self.hierarchy,
                    &mut self.terminals,
                    &mut self.terminal_errors,
                    terminal_session_id,
                    snapshot,
                );
            },
            DriverUpdate::Error(error) => {
                self.selections_after_commands = Table::new();
                self.pending_split_resizes = Table::new();
                self.preview_split_ratios = Table::new();
                self.split_dragging = None;
                self.global_error = Some(error);
            },
        }
    }

    /// Shows a Space, from its first Tab on.
    pub fn select_space(&mut self, space_id: SpaceId)
        ensures
            final(self)@ == (WindowView {
                selection: UiSelection {
                    space_id: Some(space_id),
                    tab_id: None,
                    pane_id: None,
                }.settled(old(self)@.hierarchy.spaces),
                ..old(self)@
            }),
    {
        let selection = UiSelection { space_id: Some(space_id), tab_id: None, pane_id: None };
        self.selection = selection.normalized(&self.hierarchy);
    }

    /// Shows a Tab of the Space that is shown, from its first Pane on.
    pub fn select_tab(&mut self, tab_id: TabId)
        ensures
            final(self)@ == (WindowView {
                selection: UiSelection {
                    space_id: old(self)@.selection.space_id,
                    tab_id: Some(tab_id),
                    pane_id: None,
                }.settled(old(self)@.hierarchy.spaces),
                ..old(self)@
            }),
    {
        let selection = UiSelection {
            space_id: self.selection.space_id,
            tab_id: Some(tab_id),
            pane_id: None,
        };
        self.selection = selection.normalized(&self.hierarchy);
    }

    /// Gives a Pane the focus, or moves to it the Pane that is being moved.
    pub fn focus_pane(&mut self, pane_id: PaneId) -> (moved: Option<(PaneId, CoreCommand)>)
        ensures
            match old(self)@.move_source {
                Some(source) if source != pane_id => {
                    &&& moved matches Some((moving, command))
                    &&& moving == source
                    &&& command@ == (CommandView::MovePane {
                        pane_id: source,
                        target_pane_id: pane_id,
                        axis: SplitAxis::Horizontal,
                        placement: SplitPlacement::After,
                        ratio: SplitRatio::of_parts(500),
                    })
                    &&& final(self)@ == (WindowView {
                        move_source: None,
                        selection: UiSelection {
                            pane_id: Some(pane_id),
                            ..old(self)@.selection
                        },
                        ..old(self)@
                    })
                },
                _ => {
                    &&& moved is None
                    &&& final(self)@ == (WindowView {
                        selection: UiSelection {
                            pane_id: Some(pane_id),
                            ..old(self)@.selection
                        },
                        ..old(self)@
                    })
                },
            },
    {
        self.selection.pane_id = Some(pane_id);
        match self.move_source {
            Some(source) => {
                if source == pane_id {
                    return None;
                }
                self.move_source = None;
                let command = CoreCommand::MovePane {
                    pane_id: source,
                    target_pane_id: pane_id,
                    axis: SplitAxis::Horizontal,
                    placement: SplitPlacement::After,
                    ratio: SplitRatio::equal(),
                };
                Some((source, command))
            },
            None => None,
        }
    }

    /// Notes what came of a command that was handed over.
    pub fn note_submitted(&mut self, result: Result<u64, String>) -> (command_id: Option<u64>)
        ensures
            final(self)@ == old(self)@.submitted(result),
            command_id == match result {
                Ok(command_id) => Some(command_id),
                Err(_) => None,
            },
    {
        match result {
            Ok(command_id) => {
                self.global_error = None;
                Some(command_id)
            },
            Err(error) => {
                self.global_error = Some(error);
                None
            },
        }
    }

    /// Notes what came of moving a Pane: it is selected once it has moved.
    pub fn note_move(&mut self, source: PaneId, result: Result<u64, String>)
        ensures
            final(self)@ == (WindowView {
                selections_after_commands: match result {
                    Ok(command_id) => old(self)@.selections_after_commands.insert(
                        command_id,
                        source,
                    ),
                    Err(_) => old(self)@.selections_after_commands,
                },
                ..old(self)@.submitted(result)
            }),
    {
        if let Some(command_id) = self.note_submitted(result) {
            self.selections_after_commands.insert(command_id, source);
        }
    }

    /// The command for a Space in a directory; or why there is none.
    pub fn create_space(
        &mut self,
        directory: Result<DirectoryPath, String>,
        name: String,
    ) -> (command: Option<CoreCommand>)
        ensures
            match directory {
                Ok(directory) => {
                    &&& command is Some
                    &&& command->0@ == (CommandView::CreateSpace {
                        name: name@,
                        directory: directory@,
                    })
                    &&& final(self)@ == (WindowView { move_source: None, ..old(self)@ })
                },
                Err(error) => {
                    &&& command is None
                    &&& final(self)@ == (WindowView {
                        move_source: None,
                        global_error: Some("locate current directory: "@ + error@),
                        ..old(self)@
                    })
                },
            },
    {
        self.move_source = None;
        match directory {
            Ok(directory) => Some(CoreCommand::CreateSpace { name, directory }),
            Err(error) => {
                let mut message = "locate current directory: ".to_owned();
                message.append(error.as_str());
                self.global_error = Some(message);
                None
            },
        }
    }

    /// The command for a Tab in the Space that is shown.
    pub fn create_tab(&mut self) -> (command: Option<CoreCommand>)
        ensures
            final(self)@ == (WindowView { move_source: None, ..old(self)@ }),
            match old(self)@.selection.space_id {
                Some(space_id) if first_index(
                    old(self)@.hierarchy.spaces,
                    space_named(space_id),
                ) is Some => {
                    &&& command is Some
                    &&& command->0@ == (CommandView::CreateTab { space_id, name: "Terminal"@ })
                },
                _ => command is None,
            },
    {
        self.move_source = None;
        match self.selection.space_id {
            Some(space_id) => {
                if find_space(&self.hierarchy.spaces, space_id).is_err() {
                    return None;
                }
                Some(CoreCommand::CreateTab { space_id, name: "Terminal".to_owned() })
            },
            None => None,
        }
    }

    /// The command that splits the Pane with the focus.
    pub fn split_focused_pane(&mut self, axis: SplitAxis) -> (command: Option<CoreCommand>)
        ensures
            final(self)@ == (WindowView { move_source: None, ..old(self)@ }),
            match old(self)@.selection.pane_id {
                Some(pane_id) => {
                    &&& command is Some
                    &&& command->0@ == (CommandView::SplitPane {
                        pane_id,
                        axis,
                        placement: SplitPlacement::After,
                        ratio: SplitRatio::of_parts(500),
                    })
                },
                None => command is None,
            },
    {
        self.move_source = None;
        match self.selection.pane_id {
            Some(pane_id) => Some(
                CoreCommand::SplitPane {
                    pane_id,
                    axis,
                    placement: SplitPlacement::After,
                    ratio: SplitRatio::equal(),
                },
            ),
            None => None,
        }
    }

    /// Begins to move the Pane with the focus, or no longer moves it.
    pub fn toggle_move_focused_pane(&mut self)
        ensures
            final(self)@ == (WindowView {
                move_source: match old(self)@.selection.pane_id {
                    Some(pane_id) => if old(self)@.move_source == Some(pane_id) {
                        None
                    } else {
                        Some(pane_id)
                    },
                    None => old(self)@.move_source,
                },
                ..old(self)@
            }),
    {
        if let Some(pane_id) = self.selection.pane_id {
            let moving = match self.move_source {
                Some(source) => source == pane_id,
                None => false,
            };
            self.move_source = if moving {
                None
            } else {
                Some(pane_id)
            };
        }
    }

    pub fn cancel_move(&mut self)
        ensures
            final(self)@ == (WindowView { move_source: None, ..old(self)@ }),
    {
        self.move_source = None;
    }

    /// How many terminals that a target takes with it are at work.
    pub fn active_session_count(&self, target: CloseTarget) -> (count: usize)
        ensures
            count == active_count(
                target_sessions(self@.hierarchy.spaces, target),
                self@.terminals,
            ),
    {
        let sessions = terminal_sessions_for_target(&self.hierarchy, target);
        let mut count: usize = 0;
        let mut index: usize = 0;
        while index < sessions.len()
            invariant
                index <= sessions@.len(),
                count <= index,
                count == active_count(sessions@.take(index as int), self.terminals@),
            decreases sessions@.len() - index,
        {
            proof {
                let longer = sessions@.take(index + 1);
                assert(longer.drop_last() =~= sessions@.take(index as int));
                assert(longer.last() == sessions@[index as int]);
            }
            let active = match self.terminals.get(sessions[index].0) {
                Some(snapshot) => snapshot.active_work,
                None => true,
            };
            if active {
                count += 1;
            }
            index += 1;
        }
        proof {
            assert(sessions@.take(index as int) =~= sessions@);
        }
        count
    }

    pub fn close_target_exists(&self, target: CloseTarget) -> (exists: bool)
        ensures
            exists == target.is_in(self@.hierarchy.spaces),
    {
        match target {
            CloseTarget::Space(space_id) => find_space(&self.hierarchy.spaces, space_id).is_ok(),
            CloseTarget::Tab(tab_id) => TabQuery::Named(tab_id).find(
                &self.hierarchy.spaces,
            ).is_ok(),
            CloseTarget::Pane(pane_id) => TabQuery::WithPane(pane_id).find(
                &self.hierarchy.spaces,
            ).is_ok(),
        }
    }

    /// Closes a target, unless terminals at work would stop: those are asked
    /// about first.
    pub fn close_target(&mut self, target: CloseTarget) -> (decision: CloseDecision)
        ensures
            ({
                let active = active_count(
                    target_sessions(old(self)@.hierarchy.spaces, target),
                    old(self)@.terminals,
                );
                if !target.is_in(old(self)@.hierarchy.spaces) {
                    decision is Nothing && final(self)@ == old(self)@
                } else if active > 0 {
                    &&& decision matches CloseDecision::Confirm { active_sessions }
                    &&& active_sessions == active
                    &&& final(self)@ == old(self)@
                } else {
                    &&& decision matches CloseDecision::Close(command)
                    &&& command@ == target.spec_command()
                    &&& final(self)@ == (WindowView { move_source: None, ..old(self)@ })
                }
            }),
            decision is Close ==> forall|i: int|
                0 <= i < target_sessions(old(self)@.hierarchy.spaces, target).len() ==> {
                    let session = #[trigger] target_sessions(
                        old(self)@.hierarchy.spaces,
                        target,
                    )[i];
                    &&& old(self)@.terminals.contains_key(session.0)
                    &&& !old(self)@.terminals[session.0].active_work
                },
            decision matches CloseDecision::Confirm { active_sessions } ==> active_sessions
                == target_sessions(old(self)@.hierarchy.spaces, target).filter(
                |session: TerminalSessionId|
                    !old(self)@.terminals.contains_key(session.0) || old(
                        self,
                    )@.terminals[session.0].active_work,
            ).len(),
    {
        proof {
            law_sessions_at_work_are_counted(
                target_sessions(self@.hierarchy.spaces, target),
                self@.terminals,
            );
        }
        if !self.close_target_exists(target) {
            return CloseDecision::Nothing;
        }
        let active_sessions = self.active_session_count(target);
        if active_sessions > 0 {
            return CloseDecision::Confirm { active_sessions };
        }
        self.move_source = None;
        CloseDecision::Close(target.command())
    }

    /// Closes a target after the user agreed, where it is still there.
    pub fn confirm_close(&mut self, target: CloseTarget) -> (command: Option<CoreCommand>)
        ensures
            if target.is_in(old(self)@.hierarchy.spaces) {
                &&& command is Some && command->0@ == target.spec_command()
                &&& final(self)@ == (WindowView { move_source: None, ..old(self)@ })
            } else {
                command is None && final(self)@ == old(self)@
            },
    {
        if self.close_target_exists(target) {
            self.move_source = None;
            Some(target.command())
        } else {
            None
        }
    }

    /// Begins to drag the seam of a split.
    pub fn begin_split_drag(&mut self, split_id: SplitId)
        ensures
            final(self)@ == (WindowView { split_dragging: Some(split_id), ..old(self)@ }),
    {
        self.split_dragging = Some(split_id);
    }

    /// Drags a seam to where it divides at `ratio`, or no longer where the
    /// split is not on the screen.
    pub fn update_split_drag(&mut self, ratio: Option<SplitRatio>) -> (changed: bool)
        ensures
            match (old(self)@.split_dragging, ratio) {
                (Some(split_id), Some(ratio)) => {
                    &&& final(self)@ == (WindowView {
                        preview_split_ratios: old(self)@.preview_split_ratios.insert(
                            split_id.0,
                            ratio,
                        ),
                        ..old(self)@
                    })
                    &&& changed == !(old(self)@.preview_split_ratios.contains_key(split_id.0)
                        && old(self)@.preview_split_ratios[split_id.0] == ratio)
                },
                (Some(_), None) => !changed && final(self)@ == (WindowView {
                    split_dragging: None,
                    ..old(self)@
                }),
                (None, _) => !changed && final(self)@ == old(self)@,
            },
    {
        let split_id = match self.split_dragging {
            Some(split_id) => split_id,
            None => return false,
        };
        let ratio = match ratio {
            Some(ratio) => ratio,
            None => {
                self.split_dragging = None;
                return false;
            },
        };
        let same = match self.preview_split_ratios.get(split_id.0) {
            Some(shown) => *shown == ratio,
            None => false,
        };
        if same {
            proof {
                assert(self@.preview_split_ratios =~= old(self)@.preview_split_ratios.insert(
                    split_id.0,
                    ratio,
                ));
            }
            return false;
        }
        self.preview_split_ratios.insert(split_id.0, ratio);
        true
    }

    /// Ends the drag of a seam; gives the command that resizes its split, where
    /// it has moved.
    pub fn finish_split_drag(&mut self) -> (resize: Option<(SplitId, SplitRatio)>)
        ensures
            ({
                let before = old(self)@;
                let stopped = WindowView { split_dragging: None, ..before };
                match before.split_dragging {
                    Some(split_id) if before.preview_split_ratios.contains_key(split_id.0) => {
                        let ratio = before.preview_split_ratios[split_id.0];
                        let place = selected_place(before.selection, before.hierarchy.spaces);
                        let settled = match place {
                            Some((space, tab)) => {
                                before.hierarchy.spaces[space].tabs[tab].layout.find_ratio(split_id)
                                    == Some(ratio)
                            },
                            None => false,
                        };
                        if settled {
                            resize is None && final(self)@ == (WindowView {
                                preview_split_ratios: before.preview_split_ratios.remove(
                                    split_id.0,
                                ),
                                ..stopped
                            })
                        } else {
                            resize == Some((split_id, ratio)) && final(self)@ == stopped
                        }
                    },
                    _ => resize is None && final(self)@ == stopped,
                }
            }),
    {
        let split_id = match self.split_dragging {
            Some(split_id) => split_id,
            None => return None,
        };
        self.split_dragging = None;
        let ratio = match self.preview_split_ratios.get(split_id.0) {
            Some(ratio) => *ratio,
            None => return None,
        };
        let own_ratio = match find_selected_tab(self.selection, &self.hierarchy) {
            Some((space, tab)) => find_split_ratio(
                &self.hierarchy.spaces[space].tabs[tab].layout,
                split_id,
            ),
            None => None,
        };
        let settled = match own_ratio {
            Some(own) => own == ratio,
            None => false,
        };
        if settled {
            let _ = self.preview_split_ratios.remove(split_id.0);
            return None;
        }
        Some((split_id, ratio))
    }

    /// Notes what came of resizing a split.
    pub fn note_split_resize(&mut self, split_id: SplitId, result: Result<u64, String>)
        ensures
            final(self)@ == match result {
                Ok(command_id) => WindowView {
                    pending_split_resizes: old(self)@.pending_split_resizes.insert(
                        command_id,
                        split_id,
                    ),
                    ..old(self)@.submitted(result)
                },
                Err(_) => WindowView {
                    preview_split_ratios: old(self)@.preview_split_ratios.remove(split_id.0),
                    ..old(self)@.submitted(result)
                },
            },
    {
        match self.note_submitted(result) {
            Some(command_id) => {
                self.pending_split_resizes.insert(command_id, split_id);
            },
            None => {
                let _ = self.preview_split_ratios.remove(split_id.0);
            },
        }
    }

    /// Whether a terminal has to be asked for a size.
    pub fn wants_size(&self, session: TerminalSessionId, size: TerminalSize) -> (wants: bool)
        ensures
            wants == !(self@.requested_sizes.contains_key(session.0)
                && self@.requested_sizes[session.0] == size),
    {
        match self.requested_sizes.get(session.0) {
            Some(requested) => *requested != size,
            None => true,
        }
    }

    /// Notes what came of asking for a size.
    pub fn note_size(
        &mut self,
        session: TerminalSessionId,
        size: TerminalSize,
        result: Result<(), String>,
    )
        ensures
            final(self)@ == match result {
                Ok(()) => WindowView {
                    requested_sizes: old(self)@.requested_sizes.insert(session.0, size),
                    ..old(self)@
                },
                Err(error) => WindowView { global_error: Some(error@), ..old(self)@ },
            },
    {
        match result {
            Ok(()) => self.requested_sizes.insert(session.0, size),
            Err(error) => {
                self.global_error = Some(error);
            },
        }
    }

    /// Forgets the sizes that were asked for: the font has changed.
    pub fn forget_sizes(&mut self)
        ensures
            final(self)@ == (WindowView { requested_sizes: Map::empty(), ..old(self)@ }),
    {
        self.requested_sizes = Table::new();
    }

    /// Opens the settings, or closes them.
    pub fn toggle_settings(&mut self)
        ensures
            final(self)@ == (WindowView {
                settings_open: !old(self)@.settings_open,
                recording_binding: None,
                ..old(self)@
            }),
    {
        self.settings_open = !self.settings_open;
        self.recording_binding = None;
    }

    pub fn close_settings(&mut self)
        ensures
            final(self)@ == (WindowView { settings_open: false, ..old(self)@ }),
    {
        self.settings_open = false;
    }

    /// Begins to record the shortcut of an action.
    pub fn record_binding(&mut self, action: KeybindAction)
        ensures
            final(self)@ == (WindowView {
                recording_binding: Some(action),
                global_error: None,
                ..old(self)@
            }),
    {
        self.recording_binding = Some(action);
        self.global_error = None;
    }

    /// Shows a section of the settings.
    pub fn select_section(&mut self, section: SettingsSection)
        ensures
            final(self)@ == (WindowView {
                settings_section: section,
                recording_binding: None,
                ..old(self)@
            }),
    {
        self.settings_section = section;
        self.recording_binding = None;
    }

    /// Hides the sidebar, or shows it; the terminals get other sizes.
    pub fn toggle_sidebar(&mut self)
        ensures
            final(self)@ == (WindowView {
                sidebar_collapsed: !old(self)@.sidebar_collapsed,
                requested_sizes: Map::empty(),
                ..old(self)@
            }),
    {
        self.sidebar_collapsed = !self.sidebar_collapsed;
        self.requested_sizes = Table::new();
    }

    /// Lists the programs of a Space one by one, or no longer; tells how they
    /// move.
    pub fn toggle_agents(&mut self, space_id: SpaceId) -> (transition: AgentLayoutTransition)
        ensures
            transition == if old(self)@.expanded_agent_spaces.contains_key(space_id.0) {
                AgentLayoutTransition::Collapsing
            } else {
                AgentLayoutTransition::Expanding
            },
            final(self)@ == (WindowView {
                expanded_agent_spaces: if old(self)@.expanded_agent_spaces.contains_key(
                    space_id.0,
                ) {
                    old(self)@.expanded_agent_spaces.remove(space_id.0)
                } else {
                    old(self)@.expanded_agent_spaces.insert(space_id.0, ())
                },
                agent_layout_transitions: old(self)@.agent_layout_transitions.insert(
                    space_id.0,
                    transition,
                ),
                ..old(self)@
            }),
    {
        let transition = if self.expanded_agent_spaces.contains(space_id.0) {
            let _ = self.expanded_agent_spaces.remove(space_id.0);
            AgentLayoutTransition::Collapsing
        } else {
            self.expanded_agent_spaces.insert(space_id.0, ());
            AgentLayoutTransition::Expanding
        };
        self.agent_layout_transitions.insert(space_id.0, transition);
        transition
    }

    /// Ends a movement, where no other has begun since; tells whether it did.
    pub fn settle_agents(&mut self, space_id: SpaceId, transition: AgentLayoutTransition) -> (
    settled: bool)
        ensures
            settled == (old(self)@.agent_layout_transitions.contains_key(space_id.0) && old(
                self,
            )@.agent_layout_transitions[space_id.0] == transition),
            final(self)@ == (WindowView {
                agent_layout_transitions: if settled {
                    old(self)@.agent_layout_transitions.remove(space_id.0)
                } else {
                    old(self)@.agent_layout_transitions
                },
                ..old(self)@
            }),
    {
        let current = match self.agent_layout_transitions.get(space_id.0) {
            Some(current) => *current == transition,
            None => false,
        };
        if current {
            let _ = self.agent_layout_transitions.remove(space_id.0);
        }
        current
    }

    /// Shows the Pane in which a program works.
    pub fn select_agent(&mut self, space_id: SpaceId, tab_id: TabId, pane_id: PaneId)
        ensures
            final(self)@ == (WindowView {
                selection: UiSelection {
                    space_id: Some(space_id),
                    tab_id: Some(tab_id),
                    pane_id: Some(pane_id),
                }.settled(old(self)@.hierarchy.spaces),
                ..old(self)@
            }),
    {
        let selection = UiSelection {
            space_id: Some(space_id),
            tab_id: Some(tab_id),
            pane_id: Some(pane_id),
        };
        self.selection = selection.normalized(&self.hierarchy);
    }

    /// Takes the shortcut that was recorded for an action, where `conflict` names
    /// another action that has it already. Tells the action that is to get it:
    /// none where it is taken, which the window then says while it records on.
    pub fn accept_shortcut(
        &mut self,
        action: KeybindAction,
        shortcut: &str,
        conflict: Option<&str>,
    ) -> (bound: Option<KeybindAction>)
        ensures
            match conflict {
                Some(conflict) => bound is None && final(self)@ == (WindowView {
                    global_error: Some(conflict_text(shortcut@, conflict@)),
                    ..old(self)@
                }),
                None => bound == Some(action) && final(self)@ == (WindowView {
                    recording_binding: None,
                    ..old(self)@
                }),
            },
    {
        match conflict {
            Some(conflict) => {
                self.global_error = Some(conflict_message(shortcut, conflict));
                None
            },
            None => {
                self.recording_binding = None;
                Some(action)
            },
        }
    }

    /// Gives an action, which `label` names, the shortcut back that it comes
    /// with, where `conflict` names another action that has it now. Tells the
    /// action that is to lose its own: none where the other is taken, which the
    /// window then says.
    pub fn reset_shortcut(
        &mut self,
        action: KeybindAction,
        label: &str,
        shortcut: &str,
        conflict: Option<&str>,
    ) -> (reset: Option<KeybindAction>)
        ensures
            match conflict {
                Some(conflict) => reset is None && final(self)@ == (WindowView {
                    global_error: Some(reset_conflict_text(shortcut@, conflict@, label@)),
                    ..old(self)@
                }),
                None => reset == Some(action) && final(self)@ == (WindowView {
                    recording_binding: None,
                    ..old(self)@
                }),
            },
    {
        match conflict {
            Some(conflict) => {
                self.global_error = Some(reset_conflict_message(shortcut, conflict, label));
                None
            },
            None => {
                self.recording_binding = None;
                Some(action)
            },
        }
    }

    /// No longer records a shortcut.
    pub fn stop_recording(&mut self)
        ensures
            final(self)@ == (WindowView { recording_binding: None, ..old(self)@ }),
    {
        self.recording_binding = None;
    }

    /// Notes what came of saving the settings, or of anything else that can go
    /// wrong.
    pub fn note_result(&mut self, result: Result<(), String>)
        ensures
            final(self)@ == (WindowView {
                global_error: match result {
                    Ok(()) => None,
                    Err(error) => Some(error@),
                },
                ..old(self)@
            }),
    {
        match result {
            Ok(()) => {
                self.global_error = None;
            },
            Err(error) => {
                self.global_error = Some(error);
            },
        }
    }

    /// The terminal of the Pane with the focus.
    pub fn focused_terminal_session_id(&self) -> (terminal: Option<TerminalSessionId>)
        ensures
            terminal == focused_terminal(self@.selection, self@.hierarchy),
    {
        super::selection::focused_terminal_session_id(self.selection, &self.hierarchy)
    }

    /// The terminal that a Tab is named after: that of the Pane with the focus,
    /// where the Tab is shown, or else of its first.
    pub fn naming_terminal(&self, tab: &TabSnapshot) -> (terminal: Option<TerminalSessionId>)
        ensures
            terminal == naming_session(self@.selection, tab@),
    {
        let shown = match self.selection.tab_id {
            Some(tab_id) => tab_id == tab.id,
            None => false,
        };
        let focused = match self.selection.pane_id {
            Some(pane_id) => if shown && layout_contains_pane(&tab.layout, pane_id) {
                Some(pane_id)
            } else {
                None
            },
            None => None,
        };
        let pane_id = match focused {
            Some(pane_id) => Some(pane_id),
            None => first_pane_id(&tab.layout),
        };
        match pane_id {
            Some(pane_id) => terminal_for_pane(&tab.layout, pane_id),
            None => None,
        }
    }

    /// The name of a Tab: the one it was given, or the title of its terminal,
    /// or the last component of the directory in which its terminal started, or
    /// the one it came with.
    pub fn tab_display_name(&self, tab: &TabSnapshot, directory_name: Option<String>) -> (name:
        String)
        ensures
            name@ == display_name(self@, tab@, option_chars(directory_name)),
    {
        if tab.name_is_custom {
            return tab.name.clone();
        }
        let terminal = self.naming_terminal(tab);
        if let Some(session) = terminal {
            if let Some(snapshot) = self.terminals.get(session.0) {
                if let Some(title) = &snapshot.title {
                    let chars = characters(title.as_str());
                    let title = trim(&chars);
                    if title.as_str().unicode_len() > 0 {
                        return title;
                    }
                }
            }
        }
        if let Some(directory_name) = directory_name {
            if directory_name.as_str().unicode_len() > 0 {
                return directory_name;
            }
        }
        tab.name.clone()
    }
}

/// The terminal that a Tab is named after.
pub open spec fn naming_session(selection: UiSelection, tab: TabView) -> Option<TerminalSessionId> {
    let pane_id = if selection.tab_id == Some(tab.id) && selection.pane_id is Some
        && tab.layout.holds_pane(selection.pane_id->0) {
        selection.pane_id->0
    } else {
        tab.layout.panes()[0].id
    };
    match tab.layout.find_pane(pane_id) {
        Some(pane) => Some(pane.terminal_session_id),
        None => None,
    }
}

/// The title of a terminal, without the white space around it.
pub open spec fn shown_title(window: WindowView, terminal: Option<TerminalSessionId>) -> Seq<char> {
    match terminal {
        Some(session) if window.terminals.contains_key(session.0) => {
            match window.terminals[session.0].title {
                Some(title) => trimmed(title@),
                None => Seq::empty(),
            }
        },
        _ => Seq::empty(),
    }
}

pub open spec fn display_name(
    window: WindowView,
    tab: TabView,
    directory_name: Option<Seq<char>>,
) -> Seq<char> {
    let title = shown_title(window, naming_session(window.selection, tab));
    if tab.name_is_custom {
        tab.name
    } else if title.len() > 0 {
        title
    } else if directory_name is Some && directory_name->0.len() > 0 {
        directory_name->0
    } else {
        tab.name
    }
}

} // verus!
