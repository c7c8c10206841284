//! The programs that work in the terminals of a Space.

use crate::agent_integration::{AgentSnapshot, AgentState};
use crate::application_core::TerminalSnapshot;
use crate::core_model::{
    PaneId, PaneLayout, PaneSnapshot, SpaceSnapshot, TabId, TabView, TerminalSessionId,
};
use crate::sequences::views;
use crate::table::Table;
use vstd::prelude::*;

verus! {

/// How many programs a Space shows.
pub const VISIBLE_AGENTS: usize = 3;

/// A program and where it works.
#[derive(Clone, Copy, Debug, PartialEq, Eq, Structural)]
pub struct SpaceAgentEntry {
    pub agent: AgentSnapshot,
    pub tab_id: TabId,
    pub pane_id: PaneId,
    pub terminal_session_id: TerminalSessionId,
}

/// How many programs work in a Space, and those of them that it shows.
#[derive(Debug, PartialEq, Eq)]
pub struct SpaceAgentSummary {
    pub count: usize,
    pub visible: Vec<SpaceAgentEntry>,
}

/// Whether the program at `index` wants most attention, and is the first to do
/// so.
pub open spec fn is_foremost(agents: Seq<SpaceAgentEntry>, index: int) -> bool {
    &&& 0 <= index < agents.len()
    &&& forall|i: int|
        0 <= i < index ==> (#[trigger] agents[i]).agent.spec_priority()
            < agents[index].agent.spec_priority()
    &&& forall|i: int|
        index < i < agents.len() ==> (#[trigger] agents[i]).agent.spec_priority()
            <= agents[index].agent.spec_priority()
}

pub open spec fn foremost(agents: Seq<SpaceAgentEntry>) -> int {
    choose|index: int| is_foremost(agents, index)
}

/// The first `count` programs by how much they want attention, and by their
/// place where they want as much.
pub open spec fn foremost_agents(agents: Seq<SpaceAgentEntry>, count: nat) -> Seq<SpaceAgentEntry>
    decreases count,
{
    if count == 0 || agents.len() == 0 {
        Seq::empty()
    } else {
        seq![agents[foremost(agents)]] + foremost_agents(
            agents.remove(foremost(agents)),
            (count - 1) as nat,
        )
    }
}

fn find_foremost(agents: &Vec<SpaceAgentEntry>) -> (index: usize)
    requires
        agents@.len() > 0,
    ensures
        is_foremost(agents@, index as int),
        foremost(agents@) == index,
{
    let mut best: usize = 0;
    let mut index: usize = 1;
    while index < agents.len()
        invariant
            best < index <= agents@.len(),
            forall|i: int|
                0 <= i < best ==> (#[trigger] agents@[i]).agent.spec_priority()
                    < agents@[best as int].agent.spec_priority(),
            forall|i: int|
                best < i < index ==> (#[trigger] agents@[i]).agent.spec_priority()
                    <= agents@[best as int].agent.spec_priority(),
        decreases agents@.len() - index,
    {
        if agents[index].agent.priority() > agents[best].agent.priority() {
            best = index;
        }
        index += 1;
    }
    proof {
        assert(is_foremost(agents@, best as int));
        let other = foremost(agents@);
        assert(is_foremost(agents@, other));
        if other < best {
            assert(agents@[other].agent.spec_priority()
                < agents@[best as int].agent.spec_priority());
            assert(agents@[best as int].agent.spec_priority()
                <= agents@[other].agent.spec_priority());
        } else if best < other {
            assert(agents@[best as int].agent.spec_priority()
                < agents@[other].agent.spec_priority());
            assert(agents@[other].agent.spec_priority()
                <= agents@[best as int].agent.spec_priority());
        }
    }
    best
}

pub fn prioritized_agent_summary(agents: Vec<SpaceAgentEntry>) -> (summary: Option<
    SpaceAgentSummary,
>)
    ensures
        match summary {
            Some(summary) => {
                &&& agents@.len() > 0
                &&& summary.count == agents@.len()
                &&& summary.visible@ == foremost_agents(agents@, VISIBLE_AGENTS as nat)
            },
            None => agents@.len() == 0,
        },
{
    let count = agents.len();
    if count == 0 {
        return None;
    }
    let ghost all = agents@;
    let mut rest = agents;
    let mut visible: Vec<SpaceAgentEntry> = Vec::new();
    let mut left: usize = VISIBLE_AGENTS;
    proof {
        assert(visible@ + foremost_agents(rest@, left as nat) =~= foremost_agents(
            all,
            VISIBLE_AGENTS as nat,
        ));
    }
    while left > 0 && rest.len() > 0
        invariant
            visible@ + foremost_agents(rest@, left as nat) == foremost_agents(
                all,
                VISIBLE_AGENTS as nat,
            ),
        decreases left,
    {
        let ghost shown = visible@;
        let index = find_foremost(&rest);
        visible.push(rest.remove(index));
        left -= 1;
        proof {
            assert(visible@ + foremost_agents(rest@, left as nat) =~= shown + (
            seq![visible@[shown.len() as int]] + foremost_agents(rest@, left as nat)));
        }
    }
    proof {
        assert(foremost_agents(rest@, left as nat) =~= Seq::empty());
        assert(visible@ =~= foremost_agents(all, VISIBLE_AGENTS as nat));
    }
    Some(SpaceAgentSummary { count, visible })
}

/// What a Space shows wants no less attention than what it does not.
pub proof fn law_the_shown_agents_want_most_attention(
    agents: Seq<SpaceAgentEntry>,
    count: nat,
    shown: int,
    hidden: int,
)
    requires
        0 <= shown < foremost_agents(agents, count).len(),
        0 <= hidden < agents.len(),
        !foremost_agents(agents, count).contains(agents[hidden]),
    ensures
        foremost_agents(agents, count)[shown].agent.spec_priority()
            >= agents[hidden].agent.spec_priority(),
    decreases count,
{
    let first = foremost(agents);
    lemma_foremost_exists(agents);
    let rest = agents.remove(first);
    let others = foremost_agents(rest, (count - 1) as nat);
    let all = foremost_agents(agents, count);
    assert(all == seq![agents[first]] + others);
    assert(all[0] == agents[first]);
    if shown > 0 {
        if hidden == first {
            assert(all.contains(agents[hidden]));
        }
        let place = if hidden < first {
            hidden
        } else {
            hidden - 1
        };
        assert(rest[place] == agents[hidden]);
        assert(all[shown] == others[shown - 1]);
        assert(!others.contains(rest[place])) by {
            if others.contains(rest[place]) {
                let i = others.index_of(rest[place]);
                assert(all[i + 1] == others[i]);
            }
        }
        law_the_shown_agents_want_most_attention(
            rest,
            (count - 1) as nat,
            shown - 1,
            place,
        );
    }
}

proof fn lemma_foremost_exists(agents: Seq<SpaceAgentEntry>)
    requires
        agents.len() > 0,
    ensures
        is_foremost(agents, foremost(agents)),
    decreases agents.len(),
{
    if agents.len() == 1 {
        assert(is_foremost(agents, 0));
    } else {
        let shorter = agents.drop_last();
        lemma_foremost_exists(shorter);
        let best = foremost(shorter);
        let last = agents.len() - 1;
        if agents[last].agent.spec_priority() > shorter[best].agent.spec_priority() {
            assert forall|i: int| 0 <= i < last implies (#[trigger] agents[i]).agent.spec_priority()
                < agents[last].agent.spec_priority() by {
                assert(shorter[i] == agents[i]);
            }
            assert(is_foremost(agents, last));
        } else {
            assert forall|i: int| 0 <= i < best implies (#[trigger] agents[i]).agent.spec_priority()
                < agents[best].agent.spec_priority() by {
                assert(shorter[i] == agents[i]);
            }
            assert forall|i: int| best < i < agents.len() implies (
            #[trigger] agents[i]).agent.spec_priority() <= agents[best].agent.spec_priority() by {
                if i < last {
                    assert(shorter[i] == agents[i]);
                }
            }
            assert(is_foremost(agents, best));
        }
    }
}

/// The programs in `panes` of the Tab `tab_id`, as far as `terminals` tell.
pub open spec fn pane_agents(
    panes: Seq<PaneSnapshot>,
    tab_id: TabId,
    terminals: Map<u64, TerminalSnapshot>,
) -> Seq<SpaceAgentEntry>
    decreases panes.len(),
{
    if panes.len() == 0 {
        Seq::empty()
    } else {
        let pane = panes.last();
        let before = pane_agents(panes.drop_last(), tab_id, terminals);
        let session = pane.terminal_session_id;
        if terminals.contains_key(session.0) && terminals[session.0].agent is Some {
            before.push(
                SpaceAgentEntry {
                    agent: terminals[session.0].agent->0,
                    tab_id,
                    pane_id: pane.id,
                    terminal_session_id: session,
                },
            )
        } else {
            before
        }
    }
}

/// The programs in `tabs`, as far as `terminals` tell.
pub open spec fn tab_agents(tabs: Seq<TabView>, terminals: Map<u64, TerminalSnapshot>) -> Seq<
    SpaceAgentEntry,
>
    decreases tabs.len(),
{
    if tabs.len() == 0 {
        Seq::empty()
    } else {
        tab_agents(tabs.drop_last(), terminals) + pane_agents(
            tabs.last().layout.panes(),
            tabs.last().id,
            terminals,
        )
    }
}

/// Appends the Panes of a layout with their terminals.
pub fn collect_pane_terminals(
    layout: &PaneLayout,
    output: &mut Vec<(PaneId, TerminalSessionId)>,
)
    ensures
        final(output)@ == old(output)@ + layout.panes().map_values(
            |pane: PaneSnapshot| (pane.id, pane.terminal_session_id),
        ),
    decreases layout,
{
    let ghost pair = |pane: PaneSnapshot| (pane.id, pane.terminal_session_id);
    match layout {
        PaneLayout::Pane(pane) => {
            output.push((pane.id, pane.terminal_session_id));
            proof {
                assert(output@ =~= old(output)@ + layout.panes().map_values(pair));
            }
        },
        PaneLayout::Split(split) => {
            collect_pane_terminals(&split.first, output);
            collect_pane_terminals(&split.second, output);
            proof {
                assert(layout.panes().map_values(pair) =~= split.first.panes().map_values(pair)
                    + split.second.panes().map_values(pair));
                assert(output@ =~= old(output)@ + layout.panes().map_values(pair));
            }
        },
    }
}

fn collect_agents(
    layout: &PaneLayout,
    tab_id: TabId,
    terminals: &Table<TerminalSnapshot>,
    agents: &mut Vec<SpaceAgentEntry>,
)
    ensures
        final(agents)@ == old(agents)@ + pane_agents(layout.panes(), tab_id, terminals@),
{
    let mut panes: Vec<(PaneId, TerminalSessionId)> = Vec::new();
    collect_pane_terminals(layout, &mut panes);
    let ghost all = layout.panes();
    proof {
        assert(panes@.len() == all.len());
        assert forall|i: int| 0 <= i < all.len() implies #[trigger] panes@[i] == (
            all[i].id,
            all[i].terminal_session_id,
        ) by {}
        assert(agents@ + pane_agents(all.take(0), tab_id, terminals@) =~= agents@);
    }
    let mut index: usize = 0;
    while index < panes.len()
        invariant
            index <= panes@.len() == all.len(),
            forall|i: int|
                0 <= i < all.len() ==> #[trigger] panes@[i] == (
                    all[i].id,
                    all[i].terminal_session_id,
                ),
            agents@ == old(agents)@ + pane_agents(all.take(index as int), tab_id, terminals@),
        decreases panes@.len() - index,
    {
        let (pane_id, terminal_session_id) = panes[index];
        proof {
            let longer = all.take(index + 1);
            assert(longer.drop_last() =~= all.take(index as int));
            assert(longer.last() == all[index as int]);
        }
        if let Some(snapshot) = terminals.get(terminal_session_id.0) {
            if let Some(agent) = snapshot.agent {
                agents.push(SpaceAgentEntry { agent, tab_id, pane_id, terminal_session_id });
            }
        }
        index += 1;
        proof {
            assert(agents@ =~= old(agents)@ + pane_agents(
                all.take(index as int),
                tab_id,
                terminals@,
            ));
        }
    }
    proof {
        assert(all.take(index as int) =~= all);
    }
}

pub fn agent_summary_for_space(space: &SpaceSnapshot, terminals: &Table<TerminalSnapshot>) -> (
summary: Option<SpaceAgentSummary>)
    ensures
        match summary {
            Some(summary) => {
                &&& summary.count == tab_agents(space@.tabs, terminals@).len() > 0
                &&& summary.visible@ == foremost_agents(
                    tab_agents(space@.tabs, terminals@),
                    VISIBLE_AGENTS as nat,
                )
            },
            None => tab_agents(space@.tabs, terminals@).len() == 0,
        },
{
    let mut agents: Vec<SpaceAgentEntry> = Vec::new();
    let ghost tabs = space@.tabs;
    let mut index: usize = 0;
    proof {
        assert(agents@ =~= tab_agents(tabs.take(0), terminals@));
    }
    while index < space.tabs.len()
        invariant
            index <= space.tabs@.len(),
            tabs == views(space.tabs@),
            agents@ == tab_agents(tabs.take(index as int), terminals@),
        decreases space.tabs@.len() - index,
    {
        let tab = &space.tabs[index];
        proof {
            let longer = tabs.take(index + 1);
            assert(longer.drop_last() =~= tabs.take(index as int));
            assert(longer.last() == tab@);
        }
        collect_agents(&tab.layout, tab.id, terminals, &mut agents);
        index += 1;
    }
    proof {
        assert(tabs.take(index as int) =~= tabs);
    }
    prioritized_agent_summary(agents)
}

pub open spec fn spec_state_label(state: AgentState) -> Seq<char> {
    match state {
        AgentState::Idle => "Waiting"@,
        AgentState::Working => "Working"@,
        AgentState::Blocked => "Needs attention"@,
        AgentState::Unknown => "Detected"@,
    }
}

pub fn agent_state_label(state: AgentState) -> (label: &'static str)
    ensures
        label@ == spec_state_label(state),
{
    match state {
        AgentState::Idle => "Waiting",
        AgentState::Working => "Working",
        AgentState::Blocked => "Needs attention",
        AgentState::Unknown => "Detected",
    }
}

pub open spec fn spec_status_detail(state: AgentState) -> Seq<char> {
    match state {
        AgentState::Idle => "Ready for input"@,
        AgentState::Working => "Agent is active"@,
        AgentState::Blocked => "Waiting for your input"@,
        AgentState::Unknown => "Status unavailable"@,
    }
}

pub fn agent_status_detail(state: AgentState) -> (detail: &'static str)
    ensures
        detail@ == spec_status_detail(state),
{
    match state {
        AgentState::Idle => "Ready for input",
        AgentState::Working => "Agent is active",
        AgentState::Blocked => "Waiting for your input",
        AgentState::Unknown => "Status unavailable",
    }
}

/// Every program that a terminal in one of the Tabs tells of is listed with the
/// place where it works.
pub proof fn law_working_programs_are_listed(
    tabs: Seq<TabView>,
    terminals: Map<u64, TerminalSnapshot>,
    tab: int,
    pane: int,
)
    requires
        0 <= tab < tabs.len(),
        0 <= pane < tabs[tab].layout.panes().len(),
        terminals.contains_key(tabs[tab].layout.panes()[pane].terminal_session_id.0),
        terminals[tabs[tab].layout.panes()[pane].terminal_session_id.0].agent is Some,
    ensures
        tab_agents(tabs, terminals).contains(
            SpaceAgentEntry {
                agent: terminals[tabs[tab].layout.panes()[pane].terminal_session_id.0].agent->0,
                tab_id: tabs[tab].id,
                pane_id: tabs[tab].layout.panes()[pane].id,
                terminal_session_id: tabs[tab].layout.panes()[pane].terminal_session_id,
            },
        ),
    decreases tabs.len(),
{
    let shorter = tabs.drop_last();
    let before = tab_agents(shorter, terminals);
    let here = pane_agents(tabs.last().layout.panes(), tabs.last().id, terminals);
    let session = tabs[tab].layout.panes()[pane].terminal_session_id;
    let entry = SpaceAgentEntry {
        agent: terminals[session.0].agent->0,
        tab_id: tabs[tab].id,
        pane_id: tabs[tab].layout.panes()[pane].id,
        terminal_session_id: session,
    };
    if tab < shorter.len() {
        assert(shorter[tab] == tabs[tab]);
        law_working_programs_are_listed(shorter, terminals, tab, pane);
        let i = before.index_of(entry);
        assert((before + here)[i] == entry);
    } else {
        lemma_pane_is_listed(tabs.last().layout.panes(), tabs.last().id, terminals, pane);
        let i = here.index_of(entry);
        assert((before + here)[before.len() + i] == entry);
    }
}

proof fn lemma_pane_is_listed(
    panes: Seq<PaneSnapshot>,
    tab_id: TabId,
    terminals: Map<u64, TerminalSnapshot>,
    pane: int,
)
    requires
        0 <= pane < panes.len(),
        terminals.contains_key(panes[pane].terminal_session_id.0),
        terminals[panes[pane].terminal_session_id.0].agent is Some,
    ensures
        pane_agents(panes, tab_id, terminals).contains(
            SpaceAgentEntry {
                agent: terminals[panes[pane].terminal_session_id.0].agent->0,
                tab_id,
                pane_id: panes[pane].id,
                terminal_session_id: panes[pane].terminal_session_id,
            },
        ),
    decreases panes.len(),
{
    let shorter = panes.drop_last();
    let before = pane_agents(shorter, tab_id, terminals);
    let all = pane_agents(panes, tab_id, terminals);
    let entry = SpaceAgentEntry {
        agent: terminals[panes[pane].terminal_session_id.0].agent->0,
        tab_id,
        pane_id: panes[pane].id,
        terminal_session_id: panes[pane].terminal_session_id,
    };
    if pane < shorter.len() {
        assert(shorter[pane] == panes[pane]);
        lemma_pane_is_listed(shorter, tab_id, terminals, pane);
        let i = before.index_of(entry);
        assert(all[i] == entry);
    } else {
        assert(all[before.len() as int] == entry);
    }
}

/// Nothing is listed but what a terminal in one of the Tabs tells of.
pub proof fn law_listed_programs_work_there(
    tabs: Seq<TabView>,
    terminals: Map<u64, TerminalSnapshot>,
    index: int,
) -> (place: (int, int))
    requires
        0 <= index < tab_agents(tabs, terminals).len(),
    ensures
        ({
            let entry = tab_agents(tabs, terminals)[index];
            let (tab, pane) = place;
            let shown = tabs[tab].layout.panes()[pane];
            &&& 0 <= tab < tabs.len()
            &&& 0 <= pane < tabs[tab].layout.panes().len()
            &&& entry.tab_id == tabs[tab].id
            &&& entry.pane_id == shown.id
            &&& entry.terminal_session_id == shown.terminal_session_id
            &&& terminals.contains_key(shown.terminal_session_id.0)
            &&& terminals[shown.terminal_session_id.0].agent == Some(entry.agent)
        }),
    decreases tabs.len(),
{
    let shorter = tabs.drop_last();
    let before = tab_agents(shorter, terminals);
    if index < before.len() {
        let place = law_listed_programs_work_there(shorter, terminals, index);
        assert(shorter[place.0] == tabs[place.0]);
        place
    } else {
        let pane = lemma_listed_pane(
            tabs.last().layout.panes(),
            tabs.last().id,
            terminals,
            index - before.len(),
        );
        (tabs.len() - 1, pane)
    }
}

proof fn lemma_listed_pane(
    panes: Seq<PaneSnapshot>,
    tab_id: TabId,
    terminals: Map<u64, TerminalSnapshot>,
    index: int,
) -> (pane: int)
    requires
        0 <= index < pane_agents(panes, tab_id, terminals).len(),
    ensures
        ({
            let entry = pane_agents(panes, tab_id, terminals)[index];
            &&& 0 <= pane < panes.len()
            &&& entry.tab_id == tab_id
            &&& entry.pane_id == panes[pane].id
            &&& entry.terminal_session_id == panes[pane].terminal_session_id
            &&& terminals.contains_key(panes[pane].terminal_session_id.0)
            &&& terminals[panes[pane].terminal_session_id.0].agent == Some(entry.agent)
        }),
    decreases panes.len(),
{
    let shorter = panes.drop_last();
    let before = pane_agents(shorter, tab_id, terminals);
    if index < before.len() {
        let pane = lemma_listed_pane(shorter, tab_id, terminals, index);
        assert(shorter[pane] == panes[pane]);
        pane
    } else {
        panes.len() - 1
    }
}

/// A Space shows as many programs as there are, up to the count; each of them is
/// there, and whoever wants more attention comes first.
pub proof fn law_shown_programs_come_by_attention(
    agents: Seq<SpaceAgentEntry>,
    count: nat,
    first: int,
    second: int,
)
    ensures
        foremost_agents(agents, count).len() == if agents.len() < count {
            agents.len()
        } else {
            count
        },
        0 <= first < foremost_agents(agents, count).len() ==> agents.contains(
            foremost_agents(agents, count)[first],
        ),
        0 <= first < second < foremost_agents(agents, count).len() ==> foremost_agents(
            agents,
            count,
        )[first].agent.spec_priority() >= foremost_agents(
            agents,
            count,
        )[second].agent.spec_priority(),
    decreases count,
{
    if count > 0 && agents.len() > 0 {
        let best = foremost(agents);
        lemma_foremost_exists(agents);
        let rest = agents.remove(best);
        let others = foremost_agents(rest, (count - 1) as nat);
        let all = foremost_agents(agents, count);
        assert(all == seq![agents[best]] + others);
        law_shown_programs_come_by_attention(rest, (count - 1) as nat, first - 1, second - 1);
        if 0 < first < all.len() {
            assert(all[first] == others[first - 1]);
            let i = rest.index_of(others[first - 1]);
            assert(rest[i] == if i < best {
                agents[i]
            } else {
                agents[i + 1]
            });
        }
        if 0 <= first < second < all.len() {
            assert(all[second] == others[second - 1]);
            if first == 0 {
                law_shown_programs_come_by_attention(
                    rest,
                    (count - 1) as nat,
                    second - 1,
                    second,
                );
                let i = rest.index_of(others[second - 1]);
                assert(rest[i] == if i < best {
                    agents[i]
                } else {
                    agents[i + 1]
                });
            }
        }
    }
}

/// What is said of a program tells its states apart.
pub proof fn law_states_are_told_apart(first: AgentState, second: AgentState)
    requires
        first != second,
    ensures
        spec_state_label(first) != spec_state_label(second),
        spec_status_detail(first) != spec_status_detail(second),
        spec_state_label(AgentState::Blocked) == "Needs attention"@,
        spec_state_label(AgentState::Working) == "Working"@,
        spec_state_label(AgentState::Idle) == "Waiting"@,
{
    reveal_strlit("Waiting");
    reveal_strlit("Working");
    reveal_strlit("Needs attention");
    reveal_strlit("Detected");
    reveal_strlit("Ready for input");
    reveal_strlit("Agent is active");
    reveal_strlit("Waiting for your input");
    reveal_strlit("Status unavailable");
    assert("Waiting"@.len() == 7 && "Needs attention"@.len() == 15 && "Detected"@.len() == 8);
    assert("Working"@.len() == 7 && "Waiting"@[1] == 'a' && "Working"@[1] == 'o');
    assert("Waiting for your input"@.len() == 22 && "Status unavailable"@.len() == 18);
    assert("Ready for input"@.len() == 15 && "Agent is active"@.len() == 15);
    assert("Ready for input"@[0] == 'R' && "Agent is active"@[0] == 'A');
}

} // verus!
