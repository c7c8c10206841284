//! What the parts of a window show, before it is drawn.

use super::agents::{
    agent_state_label, agent_status_detail, agent_summary_for_space, foremost_agents,
    law_shown_programs_come_by_attention, spec_state_label, spec_status_detail, tab_agents, SpaceAgentEntry, SpaceAgentSummary,
    VISIBLE_AGENTS,
};
use super::keys::KeybindAction;
use super::selection::{find_selected_tab, lemma_has_panes, selected_place, shown_tab, UiSelection};
use super::view::{
    display_name, naming_session, AgentLayoutTransition, MultiplexerView, WindowView,
};
use crate::core_model::hierarchy::{find_space, space_named, TabQuery};
use crate::core_model::{
    PaneId, PaneLayout, PaneSnapshot, SpaceId, SpaceSnapshot, SpaceView, SplitRatio,
    SplitSnapshot, TabId, TabSnapshot, TabView,
};
use crate::ghostty::option_chars;
use crate::sequences::{first_index, lemma_first_index_none, lemma_first_index_some, views};
use crate::table::Table;
use crate::text::{decimal, decimal_chars, folded, same_ignoring_case};
use vstd::prelude::*;
use vstd::string::*;

verus! {

/// The last components of the directories in which terminals started.
pub open spec fn directory_of(
    names: Map<u64, String>,
    window: WindowView,
    tab: TabView,
) -> Option<Seq<char>> {
    match naming_session(window.selection, tab) {
        Some(session) if names.contains_key(session.0) => Some(names[session.0]@),
        _ => None,
    }
}

/// The name under which a Tab is shown.
pub open spec fn tab_title(window: WindowView, tab: TabView, names: Map<u64, String>) -> Seq<char> {
    display_name(window, tab, directory_of(names, window, tab))
}

fn title_of(window: &MultiplexerView, tab: &TabSnapshot, names: &Table<String>) -> (title: String)
    ensures
        title@ == tab_title(window@, tab@, names@),
{
    let directory = match window.naming_terminal(tab) {
        Some(session) => match names.get(session.0) {
            Some(name) => Some(name.clone()),
            None => None,
        },
        None => None,
    };
    window.tab_display_name(tab, directory)
}

/// A Space in the sidebar.
#[derive(Debug, PartialEq, Eq)]
pub struct SidebarRow {
    pub space_id: SpaceId,
    pub name: String,
    pub selected: bool,
    pub agents: Option<SpaceAgentSummary>,
    pub agents_expanded: bool,
    pub transition: Option<AgentLayoutTransition>,
    /// Where no program works: the name of a Tab, and how many others there
    /// are.
    pub terminal: Option<(String, usize)>,
}

#[verifier::ext_equal]
pub struct SidebarRowView {
    pub space_id: SpaceId,
    pub name: Seq<char>,
    pub selected: bool,
    pub agents: Option<(usize, Seq<SpaceAgentEntry>)>,
    pub agents_expanded: bool,
    pub transition: Option<AgentLayoutTransition>,
    pub terminal: Option<(Seq<char>, usize)>,
}

impl View for SidebarRow {
    type V = SidebarRowView;

    open spec fn view(&self) -> SidebarRowView {
        SidebarRowView {
            space_id: self.space_id,
            name: self.name@,
            selected: self.selected,
            agents: match self.agents {
                Some(summary) => Some((summary.count, summary.visible@)),
                None => None,
            },
            agents_expanded: self.agents_expanded,
            transition: self.transition,
            terminal: match self.terminal {
                Some((title, others)) => Some((title@, others)),
                None => None,
            },
        }
    }
}

/// The Tab that stands for a Space in the sidebar: the one that is shown, where
/// the Space is, or else its first.
pub open spec fn standing_tab(selection: UiSelection, space: SpaceView) -> Option<int> {
    shown_tab(
        if selection.space_id == Some(space.id) {
            selection.tab_id
        } else {
            None
        },
        space.tabs,
    )
}

/// How a Space is shown in the sidebar.
pub open spec fn sidebar_row(window: WindowView, space: SpaceView, names: Map<u64, String>) -> SidebarRowView {
    let agents = tab_agents(space.tabs, window.terminals);
    SidebarRowView {
        space_id: space.id,
        name: space.name,
        selected: window.selection.space_id == Some(space.id),
        agents: if agents.len() > 0 {
            Some((agents.len() as usize, foremost_agents(agents, VISIBLE_AGENTS as nat)))
        } else {
            None
        },
        agents_expanded: window.expanded_agent_spaces.contains_key(space.id.0),
        transition: if window.agent_layout_transitions.contains_key(space.id.0) {
            Some(window.agent_layout_transitions[space.id.0])
        } else {
            None
        },
        terminal: match standing_tab(window.selection, space) {
            Some(tab) if agents.len() == 0 => Some(
                (tab_title(window, space.tabs[tab], names), (space.tabs.len() - 1) as usize),
            ),
            _ => None,
        },
    }
}

fn row_of(window: &MultiplexerView, space: &SpaceSnapshot, names: &Table<String>) -> (row:
    SidebarRow)
    ensures
        row@ == sidebar_row(window@, space@, names@),
{
    let selection = window.selection();
    let selected = match selection.space_id {
        Some(space_id) => space_id == space.id,
        None => false,
    };
    let agents = agent_summary_for_space(space, window.terminals());
    let terminal = if agents.is_some() {
        None
    } else {
        let shown = if selected {
            selection.tab_id
        } else {
            None
        };
        let found = match shown {
            Some(tab_id) => TabQuery::Named(tab_id).position(&space.tabs),
            None => None,
        };
        let place: Option<usize> = match found {
            Some(tab) => Some(tab),
            None => if space.tabs.len() > 0 {
                Some(0)
            } else {
                None
            },
        };
        match place {
            Some(tab) => {
                proof {
                    assert(space@.tabs[tab as int] == space.tabs@[tab as int]@);
                }
                let title = title_of(window, &space.tabs[tab], names);
                Some((title, space.tabs.len() - 1))
            },
            None => None,
        }
    };
    SidebarRow {
        space_id: space.id,
        name: space.name.clone(),
        selected,
        agents,
        agents_expanded: window.agents_expanded(space.id),
        transition: window.agent_transition(space.id),
        terminal,
    }
}

/// The Spaces in the sidebar.
pub fn sidebar_rows(window: &MultiplexerView, names: &Table<String>) -> (rows: Vec<SidebarRow>)
    ensures
        views(rows@) == Seq::new(
            window@.hierarchy.spaces.len(),
            |i: int| sidebar_row(window@, window@.hierarchy.spaces[i], names@),
        ),
{
    let hierarchy = window.hierarchy();
    let mut rows: Vec<SidebarRow> = Vec::new();
    let mut index: usize = 0;
    while index < hierarchy.spaces.len()
        invariant
            index <= hierarchy.spaces@.len(),
            hierarchy@ == window@.hierarchy,
            rows@.len() == index,
            forall|i: int|
                0 <= i < index ==> (#[trigger] rows@[i])@ == sidebar_row(
                    window@,
                    window@.hierarchy.spaces[i],
                    names@,
                ),
        decreases hierarchy.spaces@.len() - index,
    {
        proof {
            assert(hierarchy@.spaces[index as int] == hierarchy.spaces@[index as int]@);
        }
        rows.push(row_of(window, &hierarchy.spaces[index], names));
        index += 1;
    }
    proof {
        assert(views(rows@) =~= Seq::new(
            window@.hierarchy.spaces.len(),
            |i: int| sidebar_row(window@, window@.hierarchy.spaces[i], names@),
        ));
    }
    rows
}

/// How many programs work in a Space, in words.
pub fn agent_count_label(count: usize) -> (label: String)
    ensures
        label@ == decimal_chars(count as nat) + if count == 1 {
            " agent"@
        } else {
            " agents"@
        },
{
    let mut label = decimal(count as u64);
    if count == 1 {
        label.append(" agent");
    } else {
        label.append(" agents");
    }
    label
}

/// A program in the list of a Space.
#[derive(Debug, PartialEq, Eq)]
pub struct AgentRow {
    pub label: String,
    pub detail: &'static str,
    /// Whether the Pane in which it works has the focus.
    pub active: bool,
}

/// How a program is shown in the list of a Space.
pub fn agent_row(selection: UiSelection, space_id: SpaceId, entry: &SpaceAgentEntry) -> (row:
    AgentRow)
    ensures
        row.label@ == entry.agent.program.spec_label() + " \u{b7} "@ + spec_state_label(
            entry.agent.state,
        ),
        row.detail@ == spec_status_detail(entry.agent.state),
        row.active == (selection == UiSelection {
            space_id: Some(space_id),
            tab_id: Some(entry.tab_id),
            pane_id: Some(entry.pane_id),
        }),
{
    let mut label = entry.agent.program.label().to_owned();
    label.append(" \u{b7} ");
    label.append(agent_state_label(entry.agent.state));
    let active = match (selection.space_id, selection.tab_id, selection.pane_id) {
        (Some(space), Some(tab), Some(pane)) => space == space_id && tab == entry.tab_id && pane
            == entry.pane_id,
        _ => false,
    };
    AgentRow { label, detail: agent_status_detail(entry.agent.state), active }
}

/// A Tab in the title bar.
#[derive(Debug, PartialEq, Eq)]
pub struct TabItem {
    pub tab_id: TabId,
    pub name: String,
    pub selected: bool,
}

#[verifier::ext_equal]
pub struct TabItemView {
    pub tab_id: TabId,
    pub name: Seq<char>,
    pub selected: bool,
}

impl View for TabItem {
    type V = TabItemView;

    open spec fn view(&self) -> TabItemView {
        TabItemView { tab_id: self.tab_id, name: self.name@, selected: self.selected }
    }
}

/// How a Tab is shown in the title bar.
pub open spec fn tab_item(window: WindowView, tab: TabView, names: Map<u64, String>) -> TabItemView {
    TabItemView {
        tab_id: tab.id,
        name: tab_title(window, tab, names),
        selected: window.selection.tab_id == Some(tab.id),
    }
}

/// The Tabs in the title bar: those of the Space that is shown, or nothing
/// where none is.
pub fn tab_items(window: &MultiplexerView, names: &Table<String>) -> (items: Option<Vec<TabItem>>)
    ensures
        ({
            let space = match window@.selection.space_id {
                Some(space_id) => first_index(window@.hierarchy.spaces, space_named(space_id)),
                None => None,
            };
            match space {
                None => items is None,
                Some(space) => {
                    let tabs = window@.hierarchy.spaces[space].tabs;
                    items is Some && views(items->0@) == Seq::new(
                        tabs.len(),
                        |i: int| tab_item(window@, tabs[i], names@),
                    )
                },
            }
        }),
{
    let hierarchy = window.hierarchy();
    let selection = window.selection();
    let space_id = match selection.space_id {
        Some(space_id) => space_id,
        None => return None,
    };
    let space: usize = match find_space(&hierarchy.spaces, space_id) {
        Ok(space) => space,
        Err(_) => return None,
    };
    let tabs = &hierarchy.spaces[space].tabs;
    let ghost shown = window@.hierarchy.spaces[space as int].tabs;
    proof {
        assert(hierarchy@.spaces[space as int] == hierarchy.spaces@[space as int]@);
        assert(shown == views(tabs@));
    }
    let mut items: Vec<TabItem> = Vec::new();
    let mut index: usize = 0;
    while index < tabs.len()
        invariant
            index <= tabs@.len(),
            shown == views(tabs@),
            selection == window@.selection,
            items@.len() == index,
            forall|i: int|
                0 <= i < index ==> (#[trigger] items@[i])@ == tab_item(window@, shown[i], names@),
        decreases tabs@.len() - index,
    {
        let tab = &tabs[index];
        proof {
            assert(shown[index as int] == tabs@[index as int]@);
        }
        let selected = match selection.tab_id {
            Some(tab_id) => tab_id == tab.id,
            None => false,
        };
        items.push(TabItem { tab_id: tab.id, name: title_of(window, tab, names), selected });
        index += 1;
    }
    proof {
        assert(views(items@) =~= Seq::new(
            shown.len(),
            |i: int| tab_item(window@, shown[i], names@),
        ));
    }
    Some(items)
}

/// How a Pane is shown.
#[derive(Debug, PartialEq, Eq)]
pub enum PaneScene {
    /// Its terminal is not known yet.
    Starting,
    /// Its terminal, dimmed and without a cursor where it is `inactive`, and
    /// what is said of it.
    Terminal { inactive: bool, error: Option<String> },
}

/// Whether a Pane stands beside others and does not have the focus.
pub open spec fn is_inactive(window: WindowView, pane_id: PaneId) -> bool {
    let split = match selected_place(window.selection, window.hierarchy.spaces) {
        Some((space, tab)) => window.hierarchy.spaces[space].tabs[tab].layout is Split,
        None => false,
    };
    split && window.selection.pane_id != Some(pane_id)
}

pub fn pane_scene(window: &MultiplexerView, pane: &PaneSnapshot) -> (scene: PaneScene)
    ensures
        ({
            let session = pane.terminal_session_id.0;
            match scene {
                PaneScene::Starting => !window@.terminals.contains_key(session),
                PaneScene::Terminal { inactive, error } => {
                    &&& window@.terminals.contains_key(session)
                    &&& inactive == is_inactive(window@, pane.id)
                    &&& option_chars(error) == if window@.terminal_errors.contains_key(session) {
                        Some(window@.terminal_errors[session])
                    } else {
                        None
                    }
                },
            }
        }),
{
    if window.terminal(pane.terminal_session_id).is_none() {
        return PaneScene::Starting;
    }
    let selection = window.selection();
    let hierarchy = window.hierarchy();
    let split = match find_selected_tab(selection, hierarchy) {
        Some((space, tab)) => match &hierarchy.spaces[space].tabs[tab].layout {
            PaneLayout::Pane(_) => false,
            PaneLayout::Split(_) => true,
        },
        None => false,
    };
    let focused = match selection.pane_id {
        Some(pane_id) => pane_id == pane.id,
        None => false,
    };
    let error = match window.terminal_error(pane.terminal_session_id) {
        Some(error) => Some(error.clone()),
        None => None,
    };
    PaneScene::Terminal { inactive: split && !focused, error }
}

/// The ratio at which a split is shown: the one to which its seam is dragged,
/// or its own.
pub fn shown_ratio(window: &MultiplexerView, split: &SplitSnapshot) -> (ratio: SplitRatio)
    ensures
        ratio == if window@.preview_split_ratios.contains_key(split.id.0) {
            window@.preview_split_ratios[split.id.0]
        } else {
            split.ratio
        },
{
    match window.preview_ratio(split.id) {
        Some(ratio) => ratio,
        None => split.ratio,
    }
}

/// A ratio at which a seam can stand, nearest to `parts` in a thousand.
pub fn bounded_ratio(parts: u16) -> (ratio: SplitRatio)
    ensures
        ratio.parts() == if parts < 100 {
            100
        } else if parts > 900 {
            900
        } else {
            parts as int
        },
{
    let bounded: u16 = if parts < SplitRatio::MIN_PARTS {
        SplitRatio::MIN_PARTS
    } else if parts > SplitRatio::MAX_PARTS {
        SplitRatio::MAX_PARTS
    } else {
        parts
    };
    match SplitRatio::new(bounded) {
        Ok(ratio) => ratio,
        Err(_) => SplitRatio::equal(),
    }
}

/// The shortcut of an action in the settings.
#[derive(Debug, PartialEq, Eq)]
pub struct BindingRow {
    pub action: KeybindAction,
    pub recording: bool,
    pub text: String,
    /// Whether it can be reset: it is not the one the action comes with.
    pub resettable: bool,
}

/// How the shortcut of an action, as `shortcut` spells it, is shown.
pub fn binding_row(
    recording: Option<KeybindAction>,
    action: KeybindAction,
    shortcut: &str,
    custom: bool,
) -> (row: BindingRow)
    ensures
        row.action == action,
        row.recording == (recording == Some(action)),
        row.text@ == if recording == Some(action) {
            "Press shortcut\u{2026}"@
        } else {
            shortcut@
        },
        row.resettable == custom,
{
    let here = match recording {
        Some(recorded) => recorded == action,
        None => false,
    };
    let text = if here {
        "Press shortcut\u{2026}".to_owned()
    } else {
        shortcut.to_owned()
    };
    BindingRow { action, recording: here, text, resettable: custom }
}

/// Which of `families` is the one in use.
pub fn chosen_fonts(families: &Vec<String>, current: &str) -> (chosen: Vec<bool>)
    ensures
        chosen@ == Seq::new(
            families@.len(),
            |i: int| folded(families@[i]@) == folded(current@),
        ),
{
    let mut chosen: Vec<bool> = Vec::new();
    let mut index: usize = 0;
    while index < families.len()
        invariant
            index <= families@.len(),
            chosen@.len() == index,
            forall|i: int|
                0 <= i < index ==> #[trigger] chosen@[i] == (folded(families@[i]@) == folded(
                    current@,
                )),
        decreases families@.len() - index,
    {
        chosen.push(same_ignoring_case(families[index].as_str(), current));
        index += 1;
    }
    proof {
        assert(chosen@ =~= Seq::new(
            families@.len(),
            |i: int| folded(families@[i]@) == folded(current@),
        ));
    }
    chosen
}

/// The desktops, by who draws the buttons of a window.
#[derive(Clone, Copy, Debug, PartialEq, Eq, Structural)]
pub enum Desktop {
    MacOs,
    Windows,
    Linux,
}

/// The buttons of a window.
#[derive(Debug, PartialEq, Eq)]
pub struct WindowControls {
    pub minimize: Option<&'static str>,
    pub maximize: Option<&'static str>,
    pub close: &'static str,
}

#[verifier::ext_equal]
pub struct WindowControlsView {
    pub minimize: Option<Seq<char>>,
    pub maximize: Option<Seq<char>>,
    pub close: Seq<char>,
}

impl View for WindowControls {
    type V = WindowControlsView;

    open spec fn view(&self) -> WindowControlsView {
        WindowControlsView {
            minimize: match self.minimize {
                Some(sign) => Some(sign@),
                None => None,
            },
            maximize: match self.maximize {
                Some(sign) => Some(sign@),
                None => None,
            },
            close: self.close@,
        }
    }
}

/// The buttons that a window draws, with their signs.
pub open spec fn controls_of(
    desktop: Desktop,
    can_minimize: bool,
    can_maximize: bool,
    maximized: bool,
) -> WindowControlsView {
    let windows = desktop == Desktop::Windows;
    WindowControlsView {
        minimize: if !can_minimize {
            None
        } else if windows {
            Some("\u{e921}"@)
        } else {
            Some("\u{2212}"@)
        },
        maximize: if !can_maximize {
            None
        } else if windows && maximized {
            Some("\u{e923}"@)
        } else if windows {
            Some("\u{e922}"@)
        } else if maximized {
            Some("\u{25a3}"@)
        } else {
            Some("\u{25a1}"@)
        },
        close: if windows {
            "\u{e8bb}"@
        } else {
            "\u{d7}"@
        },
    }
}

/// The buttons that a window draws, where the desktop leaves them to it.
pub fn window_controls(
    desktop: Desktop,
    client_decorations: bool,
    can_minimize: bool,
    can_maximize: bool,
    maximized: bool,
) -> (controls: Option<WindowControls>)
    ensures
        match controls {
            None => desktop == Desktop::MacOs || (desktop == Desktop::Linux && !client_decorations),
            Some(controls) => {
                &&& desktop == Desktop::Windows || (desktop == Desktop::Linux && client_decorations)
                &&& controls@ == controls_of(desktop, can_minimize, can_maximize, maximized)
            },
        },
{
    let windows = match desktop {
        Desktop::MacOs => return None,
        Desktop::Linux => {
            if !client_decorations {
                return None;
            }
            false
        },
        Desktop::Windows => true,
    };
    let minimize = if !can_minimize {
        None
    } else if windows {
        Some("\u{e921}")
    } else {
        Some("\u{2212}")
    };
    let maximize = if !can_maximize {
        None
    } else if windows && maximized {
        Some("\u{e923}")
    } else if windows {
        Some("\u{e922}")
    } else if maximized {
        Some("\u{25a3}")
    } else {
        Some("\u{25a1}")
    };
    let close = if windows {
        "\u{e8bb}"
    } else {
        "\u{d7}"
    };
    Some(WindowControls { minimize, maximize, close })
}

/// A Space shows its programs, or where none works the Tab that stands for it with
/// the number of the others.
pub proof fn law_spaces_show_programs_or_a_terminal(
    window: WindowView,
    space: SpaceView,
    names: Map<u64, String>,
    tab: int,
)
    requires
        0 <= tab < space.tabs.len(),
        if window.selection.space_id == Some(space.id) && window.selection.tab_id is Some
            && exists|i: int|
            0 <= i < space.tabs.len() && Some((#[trigger] space.tabs[i]).id)
                == window.selection.tab_id {
            Some(space.tabs[tab].id) == window.selection.tab_id && forall|i: int|
                0 <= i < tab ==> Some((#[trigger] space.tabs[i]).id) != window.selection.tab_id
        } else {
            tab == 0
        },
        space.tabs.len() <= usize::MAX,
    ensures
        ({
            let row = sidebar_row(window, space, names);
            let working = tab_agents(space.tabs, window.terminals);
            &&& row.space_id == space.id
            &&& row.name == space.name
            &&& row.selected <==> window.selection.space_id == Some(space.id)
            &&& row.agents is Some <==> working.len() > 0
            &&& row.terminal is Some <==> working.len() == 0
            &&& row.terminal matches Some((title, others)) ==> title == tab_title(
                window,
                space.tabs[tab],
                names,
            ) && others == space.tabs.len() - 1
            &&& working.len() <= usize::MAX ==> (row.agents matches Some((count, shown)) ==> count
                == working.len() && shown.len() == if working.len() < 3 {
                working.len()
            } else {
                3
            })
        }),
{
    let tabs = space.tabs;
    if window.selection.space_id == Some(space.id) && window.selection.tab_id is Some {
        let tab_id = window.selection.tab_id->0;
        let named = TabQuery::Named(tab_id).predicate();
        if exists|i: int| 0 <= i < tabs.len() && Some((#[trigger] tabs[i]).id) == Some(tab_id) {
            assert forall|i: int| 0 <= i < tab implies !named(#[trigger] tabs[i]) by {
                assert(Some(tabs[i].id) != Some(tab_id));
            }
            assert(named(tabs[tab]));
            lemma_first_index_some(tabs, named, tab);
        } else {
            assert forall|i: int| 0 <= i < tabs.len() implies !named(#[trigger] tabs[i]) by {
                assert(Some(tabs[i].id) != Some(tab_id));
            }
            lemma_first_index_none(tabs, named);
        }
    }
    law_shown_programs_come_by_attention(
        tab_agents(space.tabs, window.terminals),
        VISIBLE_AGENTS as nat,
        0,
        0,
    );
}

/// A Pane is dimmed only where it stands beside others in the Tab that is shown,
/// and the focus is on another.
pub proof fn law_only_panes_beside_the_focus_are_dimmed(window: WindowView, pane_id: PaneId)
    ensures
        window.selection.pane_id == Some(pane_id) ==> !is_inactive(window, pane_id),
        is_inactive(window, pane_id) ==> {
            &&& selected_place(window.selection, window.hierarchy.spaces) is Some
            &&& ({
                let (space, tab) = selected_place(window.selection, window.hierarchy.spaces)->0;
                window.hierarchy.spaces[space].tabs[tab].layout.panes().len() >= 2
            })
        },
        selected_place(window.selection, window.hierarchy.spaces) matches Some((space, tab))
            ==> window.hierarchy.spaces[space].tabs[tab].layout.panes().len() >= 2
            && window.selection.pane_id != Some(pane_id) ==> is_inactive(window, pane_id),
{
    if let Some((space, tab)) = selected_place(window.selection, window.hierarchy.spaces) {
        let layout = window.hierarchy.spaces[space].tabs[tab].layout;
        if let PaneLayout::Split(split) = layout {
            lemma_has_panes(*split.first);
            lemma_has_panes(*split.second);
        }
    }
}

/// A window draws the buttons that it can do something with, and can always be
/// closed; another sign stands for a window that fills the screen.
pub proof fn law_buttons_stand_for_what_can_be_done(
    desktop: Desktop,
    can_minimize: bool,
    can_maximize: bool,
    maximized: bool,
)
    ensures
        controls_of(desktop, can_minimize, can_maximize, maximized).minimize is Some
            <==> can_minimize,
        controls_of(desktop, can_minimize, can_maximize, maximized).maximize is Some
            <==> can_maximize,
        controls_of(desktop, can_minimize, can_maximize, maximized).close.len() == 1,
        can_maximize ==> controls_of(desktop, can_minimize, can_maximize, true).maximize
            != controls_of(desktop, can_minimize, can_maximize, false).maximize,
        desktop == Desktop::Windows ==> controls_of(
            desktop,
            can_minimize,
            can_maximize,
            maximized,
        ).close == "\u{e8bb}"@,
        desktop != Desktop::Windows ==> controls_of(
            desktop,
            can_minimize,
            can_maximize,
            maximized,
        ).close == "\u{d7}"@,
{
    reveal_strlit("\u{e8bb}");
    reveal_strlit("\u{d7}");
    reveal_strlit("\u{e923}");
    reveal_strlit("\u{e922}");
    reveal_strlit("\u{25a3}");
    reveal_strlit("\u{25a1}");
    assert("\u{e923}"@[0] != "\u{e922}"@[0]);
    assert("\u{25a3}"@[0] != "\u{25a1}"@[0]);
}

} // verus!
