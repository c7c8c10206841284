//! What becomes of the terminals by what their processes have reported.

use super::exits::{law_exited_terminals_close_their_panes, pane_in_spaces};
use super::runtime::{
    after_effects, error_view, exited_since, law_effects_keep_the_registry, refresh_events,
    tell_refresh, CoreRuntime, CoreRuntimeView, RuntimeEvent, RuntimeEventView, RuntimeTerminal,
    RuntimeView,
};
use crate::agent_integration::AgentProgram;
use crate::core_model::model::ModelView;
use crate::core_model::{CommandView, CoreEffect, EffectView, TerminalSessionId};
use crate::resident_core::control::session_set;
use crate::sequences::{reversed, views};
use vstd::prelude::*;

verus! {

/// What a process has reported.
pub enum Reported {
    Changed,
    /// It has ended: what taking its last output and the process itself came
    /// to.
    Exited { output: Result<bool, String>, reap: Result<(), String> },
    Failed(String),
}

pub enum ReportedView {
    Changed,
    Exited { output: Result<bool, Seq<char>>, reap: Result<(), Seq<char>> },
    Failed(Seq<char>),
}

impl View for Reported {
    type V = ReportedView;

    open spec fn view(&self) -> ReportedView {
        match *self {
            Reported::Changed => ReportedView::Changed,
            Reported::Exited { output, reap } => ReportedView::Exited {
                output: error_view(output),
                reap: error_view(reap),
            },
            Reported::Failed(error) => ReportedView::Failed(error@),
        }
    }
}

/// What runs in a terminal; what cannot be told counts as running in the
/// foreground.
#[derive(Clone, Copy, Debug, PartialEq, Eq, Structural)]
pub struct ProcessReport {
    pub foreground: Option<bool>,
    pub agent: Option<AgentProgram>,
}

/// What is new of a terminal.
pub struct TerminalReport {
    pub terminal_session_id: TerminalSessionId,
    /// What taking output came to.
    pub drained: Result<bool, String>,
    pub reported: Vec<Reported>,
    /// What runs in it, where that was looked at.
    pub processes: Option<ProcessReport>,
}

pub struct ReportView {
    pub session: TerminalSessionId,
    pub drained: Result<bool, Seq<char>>,
    pub reported: Seq<ReportedView>,
    pub processes: Option<ProcessReport>,
}

impl View for TerminalReport {
    type V = ReportView;

    open spec fn view(&self) -> ReportView {
        ReportView {
            session: self.terminal_session_id,
            drained: error_view(self.drained),
            reported: views(self.reported@),
            processes: self.processes,
        }
    }
}

impl RuntimeView {
    /// After a process has reported something.
    pub open spec fn after_reported(self, reported: ReportedView) -> RuntimeView {
        match reported {
            ReportedView::Changed => self,
            ReportedView::Exited { output, reap } => self.ended(output, reap),
            ReportedView::Failed(error) => self.broken(error),
        }
    }

    /// After all that a process has reported.
    pub open spec fn after_all_reported(self, reported: Seq<ReportedView>) -> RuntimeView
        decreases reported.len(),
    {
        if reported.len() == 0 {
            self
        } else {
            self.after_all_reported(reported.drop_last()).after_reported(reported.last())
        }
    }

    /// After what is new of the terminal; one without a process stays as it is.
    pub open spec fn refreshed(self, report: ReportView) -> RuntimeView {
        if !self.live {
            self
        } else {
            let told = self.drained(report.drained).after_all_reported(report.reported);
            match report.processes {
                None => told,
                Some(processes) => told.polled(
                    match processes.foreground {
                        Some(foreground) => foreground,
                        None => true,
                    },
                    processes.agent,
                ),
            }
        }
    }
}

/// Notes what is new of a terminal.
pub fn refresh_terminal(terminal: &mut RuntimeTerminal, report: TerminalReport)
    ensures
        final(terminal)@ == old(terminal)@.refreshed(report@),
{
    if !terminal.live {
        return ;
    }
    let ghost before = terminal@;
    let ghost drained = error_view(report.drained);
    let ghost whole = views(report.reported@);
    terminal.note_drained(report.drained);
    let ghost taken = terminal@;
    let ghost all = report.reported@;
    let mut ordered = reversed(report.reported);
    let ghost mut done: nat = 0;
    while ordered.len() > 0
        invariant
            ordered@.len() + done == all.len(),
            whole == views(all),
            forall|i: int|
                0 <= i < ordered@.len() ==> #[trigger] ordered@[i] == all[all.len() - 1 - i],
            terminal@ == taken.after_all_reported(whole.take(done as int)),
        decreases ordered@.len(),
    {
        proof {
            assert(ordered@[ordered@.len() - 1] == all[done as int]);
            let longer = whole.take(done as int + 1);
            assert(longer.drop_last() =~= whole.take(done as int));
            assert(longer.last() == all[done as int]@);
        }
        let reported = ordered.pop();
        match reported {
            None => {},
            Some(Reported::Changed) => {},
            Some(Reported::Exited { output, reap }) => terminal.note_exit(output, reap),
            Some(Reported::Failed(error)) => terminal.note_failure(error),
        }
        proof {
            done = done + 1;
        }
    }
    proof {
        assert(whole.take(done as int) =~= whole);
        assert(before.drained(drained) == taken);
    }
    if let Some(processes) = report.processes {
        terminal.note_processes(processes.foreground, processes.agent);
    }
}

/// The terminals after all that is new of them.
pub open spec fn refreshed_terminals(
    terminals: Map<u64, RuntimeView>,
    reports: Seq<ReportView>,
) -> Map<u64, RuntimeView>
    decreases reports.len(),
{
    if reports.len() == 0 {
        terminals
    } else {
        let earlier = refreshed_terminals(terminals, reports.drop_last());
        let report = reports.last();
        if earlier.contains_key(report.session.0) {
            earlier.insert(
                report.session.0,
                earlier[report.session.0].refreshed(report),
            )
        } else {
            earlier
        }
    }
}

/// What is told of the terminals.
pub open spec fn told_of_terminals(
    terminals: Map<u64, RuntimeView>,
    reports: Seq<ReportView>,
) -> Seq<RuntimeEventView>
    decreases reports.len(),
{
    if reports.len() == 0 {
        Seq::empty()
    } else {
        let told = told_of_terminals(terminals, reports.drop_last());
        let earlier = refreshed_terminals(terminals, reports.drop_last());
        let report = reports.last();
        if earlier.contains_key(report.session.0) {
            let before = earlier[report.session.0];
            told + refresh_events(report.session, before, before.refreshed(report))
        } else {
            told
        }
    }
}

/// The sessions that have ended by themselves, in the order of the reports.
pub open spec fn ended_sessions(
    terminals: Map<u64, RuntimeView>,
    reports: Seq<ReportView>,
) -> Seq<TerminalSessionId>
    decreases reports.len(),
{
    if reports.len() == 0 {
        Seq::empty()
    } else {
        let ended = ended_sessions(terminals, reports.drop_last());
        let earlier = refreshed_terminals(terminals, reports.drop_last());
        let report = reports.last();
        if earlier.contains_key(report.session.0) && exited_since(
            earlier[report.session.0],
            earlier[report.session.0].refreshed(report),
        ) {
            ended.push(report.session)
        } else {
            ended
        }
    }
}

proof fn lemma_refreshed_only_by_revision_and_lifecycle(
    session: TerminalSessionId,
    before: RuntimeView,
    after: RuntimeView,
)
    ensures
        ({
            let known = RuntimeView {
                revision: before.revision,
                lifecycle: before.lifecycle,
                ..after
            };
            &&& exited_since(known, after) == exited_since(before, after)
            &&& refresh_events(session, known, after) == refresh_events(session, before, after)
        }),
{
}

fn refresh_terminals(runtime: &mut CoreRuntime, reports: Vec<TerminalReport>) -> (told: (
    Vec<RuntimeEvent>,
    Vec<TerminalSessionId>,
))
    ensures
        final(runtime)@ == (CoreRuntimeView {
            terminals: refreshed_terminals(old(runtime)@.terminals, views(reports@)),
            ..old(runtime)@
        }),
        views(told.0@) == told_of_terminals(old(runtime)@.terminals, views(reports@)),
        told.1@ == ended_sessions(old(runtime)@.terminals, views(reports@)),
{
    let ghost start = runtime@;
    let ghost whole = views(reports@);
    let ghost all = reports@;
    let mut ordered = reversed(reports);
    let mut events: Vec<RuntimeEvent> = Vec::new();
    let mut ended: Vec<TerminalSessionId> = Vec::new();
    let ghost mut done: nat = 0;
    proof {
        assert(whole.take(0) =~= Seq::empty());
        assert(views(events@) =~= Seq::empty());
    }
    while ordered.len() > 0
        invariant
            ordered@.len() + done == all.len(),
            whole == views(all),
            forall|i: int|
                0 <= i < ordered@.len() ==> #[trigger] ordered@[i] == all[all.len() - 1 - i],
            runtime@ == (CoreRuntimeView {
                terminals: refreshed_terminals(start.terminals, whole.take(done as int)),
                ..start
            }),
            views(events@) == told_of_terminals(start.terminals, whole.take(done as int)),
            ended@ == ended_sessions(start.terminals, whole.take(done as int)),
        decreases ordered@.len(),
    {
        let ghost longer = whole.take(done as int + 1);
        let ghost before = runtime@;
        proof {
            assert(ordered@[ordered@.len() - 1] == all[done as int]);
            assert(longer.drop_last() =~= whole.take(done as int));
            assert(longer.last() == all[done as int]@);
            done = done + 1;
        }
        if let Some(report) = ordered.pop() {
            let session = report.terminal_session_id;
            let ghost asked = report@;
            match runtime.take_terminal(session) {
                Err(_) => {
                    proof {
                        assert(before.terminals.remove(session.0) =~= before.terminals);
                    }
                },
                Ok(mut terminal) => {
                    let ghost known = terminal@;
                    let revision = terminal.revision;
                    let lifecycle = terminal.lifecycle.clone();
                    refresh_terminal(&mut terminal, report);
                    let exited = tell_refresh(
                        &mut events,
                        session,
                        revision,
                        &lifecycle,
                        &terminal,
                    );
                    let ghost refreshed = terminal@;
                    runtime.put_terminal(session, terminal);
                    if exited {
                        ended.push(session);
                    }
                    proof {
                        lemma_refreshed_only_by_revision_and_lifecycle(session, known, refreshed);
                        assert(before.terminals.remove(session.0).insert(session.0, refreshed)
                            =~= before.terminals.insert(session.0, refreshed));
                        assert(refreshed == known.refreshed(asked));
                    }
                },
            }
        }
    }
    proof {
        assert(whole.take(done as int) =~= whole);
    }
    (events, ended)
}

/// The hierarchy after the Panes of some sessions were closed.
pub open spec fn closed_hierarchy(model: ModelView, ended: Seq<TerminalSessionId>) -> ModelView
    decreases ended.len(),
{
    if ended.len() == 0 {
        model
    } else {
        let earlier = closed_hierarchy(model, ended.drop_last());
        let pane = pane_in_spaces(earlier.snapshot.spaces, ended.last())->0;
        earlier.applied(
            earlier.snapshot.revision,
            CommandView::ClosePane { pane_id: pane.id },
        )->Ok_0.0
    }
}

/// What is told of the Panes that were closed.
pub open spec fn told_of_closed(
    model: ModelView,
    ended: Seq<TerminalSessionId>,
) -> Seq<RuntimeEventView> {
    Seq::new(
        ended.len(),
        |i: int|
            RuntimeEventView::PaneClosed {
                terminal_session_id: ended[i],
                revision: closed_hierarchy(model, ended.take(i + 1)).snapshot.revision,
            },
    )
}

/// The terminals but those of some sessions.
pub open spec fn without_sessions(
    terminals: Map<u64, RuntimeView>,
    ended: Seq<TerminalSessionId>,
) -> Map<u64, RuntimeView> {
    terminals.remove_keys(Set::new(|id: u64| ended.contains(TerminalSessionId(id))))
}

proof fn lemma_without_one_more(
    terminals: Map<u64, RuntimeView>,
    ended: Seq<TerminalSessionId>,
    session: TerminalSessionId,
)
    ensures
        without_sessions(terminals, ended.push(session)) == without_sessions(
            terminals,
            ended,
        ).remove(session.0),
{
    let longer = ended.push(session);
    assert forall|id: u64|
        longer.contains(TerminalSessionId(id)) <==> ended.contains(TerminalSessionId(id)) || id
            == session.0 by {
        if ended.contains(TerminalSessionId(id)) {
            let i = ended.index_of(TerminalSessionId(id));
            assert(longer[i] == TerminalSessionId(id));
        }
        if id == session.0 {
            assert(longer[ended.len() as int] == TerminalSessionId(id));
        }
        if longer.contains(TerminalSessionId(id)) && id != session.0 {
            let i = longer.index_of(TerminalSessionId(id));
            assert(ended[i] == TerminalSessionId(id));
        }
    }
    assert(without_sessions(terminals, longer) =~= without_sessions(terminals, ended).remove(
        session.0,
    ));
}

fn close_ended(
    runtime: &mut CoreRuntime,
    ended: &Vec<TerminalSessionId>,
    events: &mut Vec<RuntimeEvent>,
)
    requires
        old(runtime)@.model.well_formed(),
        ended@.no_duplicates(),
        forall|i: int|
            0 <= i < ended@.len() ==> session_set(old(runtime)@.model.snapshot.sessions).contains(
                (#[trigger] ended@[i]).0,
            ),
    ensures
        final(runtime)@ == (CoreRuntimeView {
            model: closed_hierarchy(old(runtime)@.model, ended@),
            terminals: without_sessions(old(runtime)@.terminals, ended@),
        }),
        views(final(events)@) == views(old(events)@) + told_of_closed(
            old(runtime)@.model,
            ended@,
        ),
        final(runtime)@.model.well_formed(),
        session_set(final(runtime)@.model.snapshot.sessions) == session_set(
            old(runtime)@.model.snapshot.sessions,
        ).difference(Set::new(|id: u64| ended@.contains(TerminalSessionId(id)))),
{
    let ghost start = runtime@;
    let ghost sessions = session_set(start.model.snapshot.sessions);
    let ghost first = views(events@);
    let mut index: usize = 0;
    proof {
        assert(ended@.take(0) =~= Seq::empty());
        assert(without_sessions(start.terminals, Seq::empty()) =~= start.terminals);
        assert(told_of_closed(start.model, Seq::empty()) =~= Seq::empty());
        assert(first + Seq::<RuntimeEventView>::empty() =~= first);
    }
    while index < ended.len()
        invariant
            index <= ended@.len(),
            ended@.no_duplicates(),
            sessions == session_set(start.model.snapshot.sessions),
            runtime@ == (CoreRuntimeView {
                model: closed_hierarchy(start.model, ended@.take(index as int)),
                terminals: without_sessions(start.terminals, ended@.take(index as int)),
            }),
            views(events@) == first + told_of_closed(start.model, ended@.take(index as int)),
            runtime@.model.well_formed(),
            forall|i: int| 0 <= i < ended@.len() ==> sessions.contains((#[trigger] ended@[i]).0),
            forall|id: u64| #[trigger]
                session_set(runtime@.model.snapshot.sessions).contains(id) <==> sessions.contains(
                    id,
                ) && !ended@.take(index as int).contains(TerminalSessionId(id)),
        decreases ended@.len() - index,
    {
        let session = ended[index];
        let ghost closed = ended@.take(index as int);
        let ghost longer = ended@.take(index + 1);
        let ghost before = runtime@;
        proof {
            assert(longer =~= closed.push(session));
            assert(longer.drop_last() =~= closed);
            if closed.contains(session) {
                let i = closed.index_of(session);
                assert(ended@[i] == ended@[index as int]);
            }
            assert(TerminalSessionId(session.0) == session);
        }
        let (event, _) = runtime.close_exited(session);
        let ghost told = event@;
        let ghost after = runtime@.model;
        let ghost earlier = events@;
        events.push(event);
        runtime.note_effect(&CoreEffect::StopTerminal { terminal_session_id: session }, None);
        proof {
            lemma_without_one_more(start.terminals, closed, session);
            let pane = pane_in_spaces(before.model.snapshot.spaces, session)->0;
            let command = CommandView::ClosePane { pane_id: pane.id };
            law_effects_keep_the_registry(before.model, command);
            let effects = before.model.change(command)->Ok_0.effects;
            assert(effects =~= seq![EffectView::StopTerminal { terminal_session_id: session }]);
            reveal_with_fuel(after_effects, 2);
            assert(effects.drop_last() =~= Seq::empty());
            assert(session_set(after.snapshot.sessions) == session_set(
                before.model.snapshot.sessions,
            ).remove(session.0));
            assert(told_of_closed(start.model, longer) =~= told_of_closed(
                start.model,
                closed,
            ).push(told)) by {
                assert forall|i: int| 0 <= i < closed.len() implies closed.take(i + 1)
                    == #[trigger] longer.take(i + 1) by {
                    assert(closed.take(i + 1) =~= longer.take(i + 1));
                }
                assert(longer.take(index + 1) =~= longer);
            }
            assert(views(events@) =~= views(earlier).push(told));
            assert(views(events@) =~= first + told_of_closed(start.model, longer));
            assert forall|id: u64| #[trigger]
                session_set(runtime@.model.snapshot.sessions).contains(id) <==> sessions.contains(
                    id,
                ) && !longer.contains(TerminalSessionId(id)) by {
                if closed.contains(TerminalSessionId(id)) {
                    let i = closed.index_of(TerminalSessionId(id));
                    assert(longer[i] == TerminalSessionId(id));
                }
                if id == session.0 {
                    assert(longer[index as int] == TerminalSessionId(id));
                }
                if longer.contains(TerminalSessionId(id)) && id != session.0 {
                    let i = longer.index_of(TerminalSessionId(id));
                    assert(closed[i] == TerminalSessionId(id));
                }
            }
        }
        index += 1;
    }
    proof {
        assert(ended@.take(index as int) =~= ended@);
        assert(session_set(runtime@.model.snapshot.sessions) =~= sessions.difference(
            Set::new(|id: u64| ended@.contains(TerminalSessionId(id))),
        ));
    }
}

/// Whether each session is reported once.
pub open spec fn reported_once(reports: Seq<ReportView>) -> bool {
    forall|i: int, j: int|
        0 <= i < j < reports.len() ==> (#[trigger] reports[i]).session != (
        #[trigger] reports[j]).session
}

proof fn lemma_ended_are_reported(terminals: Map<u64, RuntimeView>, reports: Seq<ReportView>)
    requires
        reported_once(reports),
    ensures
        ended_sessions(terminals, reports).no_duplicates(),
        refreshed_terminals(terminals, reports).dom() == terminals.dom(),
        forall|i: int|
            0 <= i < ended_sessions(terminals, reports).len() ==> terminals.contains_key(
                (#[trigger] ended_sessions(terminals, reports)[i]).0,
            ) && exists|j: int|
                0 <= j < reports.len() && (#[trigger] reports[j]).session == ended_sessions(
                    terminals,
                    reports,
                )[i],
    decreases reports.len(),
{
    if reports.len() > 0 {
        let shorter = reports.drop_last();
        lemma_ended_are_reported(terminals, shorter);
        let ended = ended_sessions(terminals, shorter);
        let longer = ended_sessions(terminals, reports);
        let last = reports.last().session;
        assert(refreshed_terminals(terminals, reports).dom() =~= terminals.dom());
        assert forall|i: int| 0 <= i < longer.len() implies terminals.contains_key(
            (#[trigger] longer[i]).0,
        ) && exists|j: int|
            0 <= j < reports.len() && (#[trigger] reports[j]).session == longer[i] by {
            if i < ended.len() {
                assert(longer[i] == ended[i]);
                let j = choose|j: int|
                    0 <= j < shorter.len() && (#[trigger] shorter[j]).session == ended[i];
                assert(reports[j].session == longer[i]);
            } else {
                assert(reports[reports.len() - 1].session == longer[i]);
            }
        }
        if longer.len() > ended.len() {
            assert forall|i: int, j: int| 0 <= i < longer.len() && 0 <= j < longer.len() && i
                != j implies longer[i] != longer[j] by {
                if i < ended.len() && j == ended.len() {
                    let k = choose|k: int|
                        0 <= k < shorter.len() && (#[trigger] shorter[k]).session == ended[i];
                    assert(reports[k].session != reports[reports.len() - 1].session);
                }
                if j < ended.len() && i == ended.len() {
                    let k = choose|k: int|
                        0 <= k < shorter.len() && (#[trigger] shorter[k]).session == ended[j];
                    assert(reports[k].session != reports[reports.len() - 1].session);
                }
            }
        }
    }
}

/// Notes what is new of the terminals, and closes the Panes of those that have
/// ended by themselves. Says what is told, and whose processes are done with.
pub fn refresh(runtime: &mut CoreRuntime, reports: Vec<TerminalReport>) -> (told: (
    Vec<RuntimeEvent>,
    Vec<TerminalSessionId>,
))
    requires
        old(runtime)@.model.well_formed(),
        old(runtime)@.registered(),
        reported_once(views(reports@)),
    ensures
        ({
            let before = old(runtime)@;
            let ended = ended_sessions(before.terminals, views(reports@));
            &&& told.1@ == ended
            &&& final(runtime)@ == (CoreRuntimeView {
                model: closed_hierarchy(before.model, ended),
                terminals: without_sessions(
                    refreshed_terminals(before.terminals, views(reports@)),
                    ended,
                ),
            })
            &&& views(told.0@) == told_of_terminals(before.terminals, views(reports@))
                + told_of_closed(before.model, ended)
        }),
        final(runtime)@.model.well_formed(),
        final(runtime)@.registered(),
{
    let ghost before = runtime@;
    let ghost whole = views(reports@);
    proof {
        lemma_ended_are_reported(before.terminals, whole);
    }
    let (mut events, ended) = refresh_terminals(runtime, reports);
    proof {
        assert forall|i: int| 0 <= i < ended@.len() implies session_set(
            runtime@.model.snapshot.sessions,
        ).contains((#[trigger] ended@[i]).0) by {
            assert(before.terminals.dom().contains(ended@[i].0));
        }
    }
    close_ended(runtime, &ended, &mut events);
    proof {
        assert(runtime@.terminals.dom() =~= session_set(runtime@.model.snapshot.sessions));
    }
    (events, ended)
}

/// Each terminal takes its own report, whatever is reported of others; one of
/// which nothing is reported stays as it is.
pub proof fn law_terminals_take_their_own_reports(
    terminals: Map<u64, RuntimeView>,
    reports: Seq<ReportView>,
    index: int,
    other: u64,
)
    requires
        reported_once(reports),
        0 <= index < reports.len(),
    ensures
        ({
            let after = refreshed_terminals(terminals, reports);
            let session = reports[index].session.0;
            &&& after.dom() == terminals.dom()
            &&& terminals.contains_key(session) ==> after[session]
                == terminals[session].refreshed(reports[index])
            &&& (forall|i: int| 0 <= i < reports.len() ==> (#[trigger] reports[i]).session.0 != other)
                ==> after[other] == terminals[other]
        }),
    decreases reports.len(),
{
    lemma_ended_are_reported(terminals, reports);
    let shorter = reports.drop_last();
    lemma_ended_are_reported(terminals, shorter);
    let session = reports[index].session.0;
    assert forall|i: int| 0 <= i < shorter.len() implies (#[trigger] shorter[i]) == reports[i] by {
    }
    lemma_unreported(terminals, reports, other);
    if index < shorter.len() {
        law_terminals_take_their_own_reports(terminals, shorter, index, other);
        assert(reports[index].session != reports[reports.len() - 1].session);
    } else {
        assert forall|i: int| 0 <= i < shorter.len() implies (#[trigger] shorter[i]).session.0
            != session by {
            assert(reports[i].session != reports[index].session);
        }
        lemma_unreported(terminals, shorter, session);
    }
}

proof fn lemma_unreported(terminals: Map<u64, RuntimeView>, reports: Seq<ReportView>, id: u64)
    ensures
        (forall|i: int| 0 <= i < reports.len() ==> (#[trigger] reports[i]).session.0 != id)
            ==> refreshed_terminals(terminals, reports)[id] == terminals[id],
    decreases reports.len(),
{
    if reports.len() > 0 && forall|i: int|
        0 <= i < reports.len() ==> (#[trigger] reports[i]).session.0 != id {
        let shorter = reports.drop_last();
        assert forall|i: int| 0 <= i < shorter.len() implies (#[trigger] shorter[i]).session.0
            != id by {
            assert(reports[i].session.0 != id);
        }
        assert(reports[reports.len() - 1].session.0 != id);
        lemma_unreported(terminals, shorter, id);
    }
}

/// The sessions that have ended by themselves are those that are reported and
/// whose terminals have exited only now.
pub proof fn law_ended_sessions_have_just_exited(
    terminals: Map<u64, RuntimeView>,
    reports: Seq<ReportView>,
    index: int,
)
    requires
        reported_once(reports),
        0 <= index < reports.len(),
    ensures
        ({
            let session = reports[index].session;
            let before = terminals[session.0];
            ended_sessions(terminals, reports).contains(session) <==> terminals.contains_key(
                session.0,
            ) && !(before.lifecycle is Exited) && before.refreshed(
                reports[index],
            ).lifecycle is Exited
        }),
    decreases reports.len(),
{
    let session = reports[index].session;
    let shorter = reports.drop_last();
    let ended = ended_sessions(terminals, shorter);
    let longer = ended_sessions(terminals, reports);
    lemma_ended_are_reported(terminals, shorter);
    assert forall|i: int| 0 <= i < shorter.len() implies (#[trigger] shorter[i]) == reports[i] by {
    }
    if index < shorter.len() {
        law_ended_sessions_have_just_exited(terminals, shorter, index);
        assert(reports[index].session != reports[reports.len() - 1].session);
        if ended.contains(session) {
            let i = ended.index_of(session);
            assert(longer[i] == session);
        }
        if longer.contains(session) {
            let i = longer.index_of(session);
            assert(ended[i] == session);
        }
    } else {
        assert forall|i: int| 0 <= i < shorter.len() implies (#[trigger] shorter[i]).session.0
            != session.0 by {
            assert(reports[i].session != reports[index].session);
        }
        lemma_unreported(terminals, shorter, session.0);
        if ended.contains(session) {
            let i = ended.index_of(session);
            let j = choose|j: int|
                0 <= j < shorter.len() && (#[trigger] shorter[j]).session == ended[i];
            assert(shorter[j].session.0 != session.0);
        }
        if longer.len() > ended.len() {
            assert(longer[ended.len() as int] == session);
        } else {
            assert(longer == ended);
        }
    }
}

/// A terminal without a process stays as it is, whatever is reported of it.
pub proof fn law_dead_terminals_stay_as_they_are(terminal: RuntimeView, report: ReportView)
    requires
        !terminal.live,
    ensures
        terminal.refreshed(report) == terminal,
{
}

/// Where nothing is reported of a process, a terminal takes its output and what
/// runs in it; what cannot be told counts as running in the foreground.
pub proof fn law_what_cannot_be_told_counts_as_work(
    terminal: RuntimeView,
    drained: Result<bool, Seq<char>>,
    agent: Option<AgentProgram>,
    session: TerminalSessionId,
)
    requires
        terminal.live,
    ensures
        ({
            let quiet = ReportView { session, drained, reported: Seq::empty(), processes: None };
            let unknown = ReportView {
                processes: Some(ProcessReport { foreground: None, agent }),
                ..quiet
            };
            &&& terminal.refreshed(quiet) == terminal.drained(drained)
            &&& terminal.refreshed(unknown).active_work
            &&& terminal.refreshed(unknown).agent_program == agent
        }),
{
}

/// A process that reports its end, and nothing else, ends its terminal.
pub proof fn law_reported_endings_end_terminals(
    terminal: RuntimeView,
    session: TerminalSessionId,
    output: Result<bool, Seq<char>>,
    reap: Result<(), Seq<char>>,
    error: Seq<char>,
)
    requires
        terminal.live,
    ensures
        ({
            let report = |reported: ReportedView|
                ReportView {
                    session,
                    drained: Ok(false),
                    reported: seq![reported],
                    processes: None,
                };
            &&& terminal.refreshed(report(ReportedView::Exited { output, reap })) == terminal.ended(
                output,
                reap,
            )
            &&& terminal.refreshed(report(ReportedView::Failed(error))) == terminal.broken(error)
            &&& terminal.refreshed(report(ReportedView::Changed)) == terminal
        }),
{
    reveal_with_fuel(RuntimeView::after_all_reported, 3);
    assert(seq![ReportedView::Exited { output, reap }].drop_last() =~= Seq::empty());
    assert(seq![ReportedView::Failed(error)].drop_last() =~= Seq::empty());
    assert(seq![ReportedView::Changed].drop_last() =~= Seq::empty());
}

/// Later reports come to bear on what earlier ones left.
pub proof fn law_reports_are_taken_in_order(
    terminal: RuntimeView,
    first: Seq<ReportedView>,
    second: Seq<ReportedView>,
)
    ensures
        terminal.after_all_reported(first + second) == terminal.after_all_reported(
            first,
        ).after_all_reported(second),
    decreases second.len(),
{
    if second.len() == 0 {
        assert(first + second =~= first);
    } else {
        assert((first + second).drop_last() =~= first + second.drop_last());
        assert((first + second).last() == second.last());
        law_reports_are_taken_in_order(terminal, first, second.drop_last());
    }
}

/// The hierarchy without the sessions that have ended lists the others, and those
/// alone; it stays well formed.
pub proof fn law_ended_sessions_leave_the_hierarchy(
    model: ModelView,
    ended: Seq<TerminalSessionId>,
)
    requires
        model.well_formed(),
        ended.no_duplicates(),
        forall|i: int|
            0 <= i < ended.len() ==> session_set(model.snapshot.sessions).contains(
                (#[trigger] ended[i]).0,
            ),
    ensures
        closed_hierarchy(model, ended).well_formed(),
        forall|id: u64| #[trigger]
            session_set(closed_hierarchy(model, ended).snapshot.sessions).contains(id)
                <==> session_set(model.snapshot.sessions).contains(id) && !ended.contains(
                TerminalSessionId(id),
            ),
    decreases ended.len(),
{
    if ended.len() > 0 {
        let shorter = ended.drop_last();
        let session = ended.last();
        let earlier = closed_hierarchy(model, shorter);
        assert forall|i: int| 0 <= i < shorter.len() implies session_set(
            model.snapshot.sessions,
        ).contains((#[trigger] shorter[i]).0) by {
            assert(session_set(model.snapshot.sessions).contains(ended[i].0));
        }
        law_ended_sessions_leave_the_hierarchy(model, shorter);
        assert(ended =~= shorter.push(session));
        assert(session_set(model.snapshot.sessions).contains(ended[ended.len() - 1].0));
        assert(TerminalSessionId(session.0) == session);
        if shorter.contains(session) {
            let i = shorter.index_of(session);
            assert(ended[i] == ended[ended.len() - 1]);
        }
        let sessions = earlier.snapshot.sessions;
        assert(session_set(sessions).contains(session.0));
        let index = choose|i: int|
            0 <= i < sessions.len() && (#[trigger] sessions[i]).id.0 == session.0;
        law_exited_terminals_close_their_panes(earlier, session, index);
        let pane = pane_in_spaces(earlier.snapshot.spaces, session)->0;
        let command = CommandView::ClosePane { pane_id: pane.id };
        law_effects_keep_the_registry(earlier, command);
        crate::core_model::laws::law_effects(earlier, command);
        let effects = earlier.change(command)->Ok_0.effects;
        assert(effects =~= seq![EffectView::StopTerminal { terminal_session_id: session }]);
        reveal_with_fuel(after_effects, 2);
        assert(effects.drop_last() =~= Seq::empty());
        crate::core_model::laws::law_well_formed_kept(
            earlier,
            earlier.snapshot.revision,
            command,
        );
        assert forall|id: u64| #[trigger]
            session_set(closed_hierarchy(model, ended).snapshot.sessions).contains(id)
                <==> session_set(model.snapshot.sessions).contains(id) && !ended.contains(
                TerminalSessionId(id),
            ) by {
            assert(session_set(sessions).contains(id) <==> session_set(
                model.snapshot.sessions,
            ).contains(id) && !shorter.contains(TerminalSessionId(id)));
            if shorter.contains(TerminalSessionId(id)) {
                let i = shorter.index_of(TerminalSessionId(id));
                assert(ended[i] == TerminalSessionId(id));
            }
            if id == session.0 {
                assert(ended[ended.len() - 1] == TerminalSessionId(id));
            }
            if ended.contains(TerminalSessionId(id)) && id != session.0 {
                let i = ended.index_of(TerminalSessionId(id));
                assert(shorter[i] == TerminalSessionId(id));
            }
        }
    }
}

/// Of each terminal that is reported all are told what is new of it.
pub proof fn law_reported_news_is_told(
    terminals: Map<u64, RuntimeView>,
    reports: Seq<ReportView>,
    index: int,
    event: RuntimeEventView,
)
    requires
        reported_once(reports),
        0 <= index < reports.len(),
        terminals.contains_key(reports[index].session.0),
        refresh_events(
            reports[index].session,
            terminals[reports[index].session.0],
            terminals[reports[index].session.0].refreshed(reports[index]),
        ).contains(event),
    ensures
        told_of_terminals(terminals, reports).contains(event),
    decreases reports.len(),
{
    let shorter = reports.drop_last();
    let told = told_of_terminals(terminals, shorter);
    let session = reports[index].session;
    let all = told_of_terminals(terminals, reports);
    lemma_ended_are_reported(terminals, shorter);
    assert forall|i: int| 0 <= i < shorter.len() implies (#[trigger] shorter[i]) == reports[i] by {
    }
    if index < shorter.len() {
        law_reported_news_is_told(terminals, shorter, index, event);
        let i = told.index_of(event);
        assert(all[i] == event);
    } else {
        assert forall|i: int| 0 <= i < shorter.len() implies (#[trigger] shorter[i]).session.0
            != session.0 by {
            assert(reports[i].session != reports[index].session);
        }
        lemma_unreported(terminals, shorter, session.0);
        let news = refresh_events(
            session,
            terminals[session.0],
            terminals[session.0].refreshed(reports[index]),
        );
        assert(refreshed_terminals(terminals, shorter).contains_key(session.0));
        assert(all == told + news);
        let i = news.index_of(event);
        assert(all[told.len() + i] == event);
    }
}

/// Nothing is told but what is new of a terminal that is reported.
pub proof fn law_only_reported_news_is_told(
    terminals: Map<u64, RuntimeView>,
    reports: Seq<ReportView>,
    event: RuntimeEventView,
) -> (index: int)
    requires
        reported_once(reports),
        told_of_terminals(terminals, reports).contains(event),
    ensures
        0 <= index < reports.len(),
        terminals.contains_key(reports[index].session.0),
        refresh_events(
            reports[index].session,
            terminals[reports[index].session.0],
            terminals[reports[index].session.0].refreshed(reports[index]),
        ).contains(event),
    decreases reports.len(),
{
    let shorter = reports.drop_last();
    let told = told_of_terminals(terminals, shorter);
    let last = reports.len() - 1;
    let session = reports[last].session;
    lemma_ended_are_reported(terminals, shorter);
    assert forall|i: int| 0 <= i < shorter.len() implies (#[trigger] shorter[i]) == reports[i] by {
    }
    if told.contains(event) {
        law_only_reported_news_is_told(terminals, shorter, event)
    } else {
        assert forall|i: int| 0 <= i < shorter.len() implies (#[trigger] shorter[i]).session.0
            != session.0 by {
            assert(reports[i].session != reports[last].session);
        }
        lemma_unreported(terminals, shorter, session.0);
        let all = told_of_terminals(terminals, reports);
        let i = all.index_of(event);
        if i < told.len() {
            assert(told[i] == event);
        }
        let news = refresh_events(
            session,
            terminals[session.0],
            terminals[session.0].refreshed(reports[last]),
        );
        assert(news[i - told.len()] == event);
        last
    }
}

/// Of each session that has ended all are told that its Pane closed, in turn, each
/// under the next revision of the hierarchy.
pub proof fn law_closed_panes_are_told(model: ModelView, ended: Seq<TerminalSessionId>, index: int)
    requires
        model.well_formed(),
        ended.no_duplicates(),
        forall|i: int|
            0 <= i < ended.len() ==> session_set(model.snapshot.sessions).contains(
                (#[trigger] ended[i]).0,
            ),
        0 <= index < ended.len(),
        model.snapshot.revision + ended.len() < u64::MAX,
    ensures
        told_of_closed(model, ended).len() == ended.len(),
        told_of_closed(model, ended)[index] == (RuntimeEventView::PaneClosed {
            terminal_session_id: ended[index],
            revision: (model.snapshot.revision + index + 1) as u64,
        }),
{
    let part = ended.take(index + 1);
    assert forall|i: int, j: int| 0 <= i < part.len() && 0 <= j < part.len() && i != j implies part[i]
        != part[j] by {
        assert(ended[i] != ended[j]);
    }
    assert forall|i: int| 0 <= i < part.len() implies session_set(
        model.snapshot.sessions,
    ).contains((#[trigger] part[i]).0) by {
        assert(session_set(model.snapshot.sessions).contains(ended[i].0));
    }
    lemma_closed_revision(model, part);
}

proof fn lemma_closed_revision(model: ModelView, ended: Seq<TerminalSessionId>)
    requires
        model.well_formed(),
        ended.no_duplicates(),
        forall|i: int|
            0 <= i < ended.len() ==> session_set(model.snapshot.sessions).contains(
                (#[trigger] ended[i]).0,
            ),
        model.snapshot.revision + ended.len() < u64::MAX,
    ensures
        closed_hierarchy(model, ended).snapshot.revision == model.snapshot.revision + ended.len(),
    decreases ended.len(),
{
    if ended.len() > 0 {
        let shorter = ended.drop_last();
        let session = ended.last();
        let earlier = closed_hierarchy(model, shorter);
        assert forall|i: int| 0 <= i < shorter.len() implies session_set(
            model.snapshot.sessions,
        ).contains((#[trigger] shorter[i]).0) by {
            assert(session_set(model.snapshot.sessions).contains(ended[i].0));
        }
        law_ended_sessions_leave_the_hierarchy(model, shorter);
        lemma_closed_revision(model, shorter);
        assert(session_set(model.snapshot.sessions).contains(ended[ended.len() - 1].0));
        assert(TerminalSessionId(session.0) == session);
        if shorter.contains(session) {
            let i = shorter.index_of(session);
            assert(ended[i] == ended[ended.len() - 1]);
        }
        let sessions = earlier.snapshot.sessions;
        assert(session_set(sessions).contains(session.0));
        let index = choose|i: int|
            0 <= i < sessions.len() && (#[trigger] sessions[i]).id.0 == session.0;
        law_exited_terminals_close_their_panes(earlier, session, index);
    }
}

/// A terminal whose session has ended is gone, and every other is as it was.
pub proof fn law_terminals_go_with_their_sessions(
    terminals: Map<u64, RuntimeView>,
    ended: Seq<TerminalSessionId>,
    id: u64,
)
    ensures
        without_sessions(terminals, ended).contains_key(id) <==> terminals.contains_key(id)
            && !ended.contains(TerminalSessionId(id)),
        without_sessions(terminals, ended).contains_key(id) ==> without_sessions(
            terminals,
            ended,
        )[id] == terminals[id],
{
}

} // verus!
