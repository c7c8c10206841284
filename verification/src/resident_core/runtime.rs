//! The terminals of the Resident Core, beside their processes and screens.

use super::protocol::{blank_screen, TerminalUpdate, UpdateView};
use crate::application_core::refresh::{Reported, ReportedView};
use crate::application_core::runtime::{error_view, lifecycle_error, next_revision, unavailable_text};
use crate::core_model::TerminalSessionId;
use crate::ghostty::{shown_cells, Snapshot};
use crate::sequences::{reversed, views};
use crate::terminal::{LifecycleView, TerminalLifecycle, TerminalSize};
use vstd::prelude::*;
use vstd::string::*;

verus! {

/// What is known of a terminal.
pub struct ResidentTerminal {
    /// Whether there is a process, or was until it ended.
    live: bool,
    revision: u64,
    lifecycle: TerminalLifecycle,
    last_snapshot_revision: Option<u64>,
}

#[verifier::ext_equal]
pub struct ResidentView {
    pub live: bool,
    pub revision: u64,
    pub lifecycle: LifecycleView,
    pub last_snapshot_revision: Option<u64>,
}

impl View for ResidentTerminal {
    type V = ResidentView;

    closed spec fn view(&self) -> ResidentView {
        ResidentView {
            live: self.live,
            revision: self.revision,
            lifecycle: self.lifecycle@,
            last_snapshot_revision: self.last_snapshot_revision,
        }
    }
}

impl Clone for ResidentTerminal {
    fn clone(&self) -> (copy: Self)
        ensures
            copy@ == self@,
    {
        ResidentTerminal {
            live: self.live,
            revision: self.revision,
            lifecycle: self.lifecycle.clone(),
            last_snapshot_revision: self.last_snapshot_revision,
        }
    }
}

/// A terminal as it starts.
pub open spec fn resident_start(live: bool, revision: u64, lifecycle: LifecycleView) -> ResidentView {
    ResidentView { live, revision, lifecycle, last_snapshot_revision: None }
}

impl ResidentView {
    pub open spec fn bumped(self) -> ResidentView {
        ResidentView { revision: next_revision(self.revision), ..self }
    }

    pub open spec fn broken(self, error: Seq<char>) -> ResidentView {
        ResidentView { lifecycle: LifecycleView::Failed(error), ..self.bumped() }
    }

    /// After output was taken.
    pub open spec fn drained(self, result: Result<bool, Seq<char>>) -> ResidentView {
        match result {
            Ok(true) => self.bumped(),
            Ok(false) => self,
            Err(error) => self.broken(error),
        }
    }

    /// After the process has ended.
    pub open spec fn ended(self, reaped: Result<(), Seq<char>>) -> ResidentView {
        match reaped {
            Ok(()) => ResidentView { lifecycle: LifecycleView::Exited, ..self.bumped() },
            Err(error) => self.broken(error),
        }
    }

    /// After all that a process has reported.
    pub open spec fn after_reported(self, reported: Seq<ReportedView>) -> ResidentView
        decreases reported.len(),
    {
        if reported.len() == 0 {
            self
        } else {
            let earlier = self.after_reported(reported.drop_last());
            match reported.last() {
                ReportedView::Changed => earlier,
                ReportedView::Exited { reap, .. } => earlier.ended(reap),
                ReportedView::Failed(error) => earlier.broken(error),
            }
        }
    }

    /// After what is new of the terminal; one without a process stays as it is.
    pub open spec fn refreshed(
        self,
        drained: Result<bool, Seq<char>>,
        reported: Seq<ReportedView>,
    ) -> ResidentView {
        if self.live {
            self.drained(drained).after_reported(reported)
        } else {
            self
        }
    }
}

/// How a request for a snapshot is answered.
pub enum ResidentSnapshotPlan {
    /// There is nothing new.
    Unchanged,
    /// There is no screen: a blank one is shown.
    Blank(TerminalUpdate),
    Render { force_full: bool },
}

impl ResidentTerminal {
    /// A terminal whose process has started.
    pub fn spawned() -> (terminal: Self)
        ensures
            terminal@ == resident_start(true, 0, LifecycleView::Running),
    {
        ResidentTerminal {
            live: true,
            revision: 0,
            lifecycle: TerminalLifecycle::Running,
            last_snapshot_revision: None,
        }
    }

    /// A terminal whose process could not start.
    pub fn failed(error: String) -> (terminal: Self)
        ensures
            terminal@ == resident_start(false, 1, LifecycleView::Failed(error@)),
    {
        ResidentTerminal {
            live: false,
            revision: 1,
            lifecycle: TerminalLifecycle::Failed(error),
            last_snapshot_revision: None,
        }
    }

    /// A terminal that is restored without its process.
    pub fn ended() -> (terminal: Self)
        ensures
            terminal@ == resident_start(false, 0, LifecycleView::Exited),
    {
        ResidentTerminal {
            live: false,
            revision: 0,
            lifecycle: TerminalLifecycle::Exited,
            last_snapshot_revision: None,
        }
    }

    pub fn revision(&self) -> (revision: u64)
        ensures
            revision == self@.revision,
    {
        self.revision
    }

    pub fn lifecycle(&self) -> (lifecycle: TerminalLifecycle)
        ensures
            lifecycle@ == self@.lifecycle,
    {
        self.lifecycle.clone()
    }

    /// Why nothing can be written, if so.
    pub fn check_live(&self) -> (result: Result<(), String>)
        ensures
            match result {
                Ok(()) => self@.live,
                Err(error) => !self@.live && error@ == unavailable_text(self@.lifecycle),
            },
    {
        if self.live {
            Ok(())
        } else {
            Err(lifecycle_error(&self.lifecycle))
        }
    }

    fn bump(&mut self)
        ensures
            final(self)@ == old(self)@.bumped(),
    {
        self.revision = self.revision.saturating_add(1);
    }

    /// Notes what came of taking output.
    pub fn note_drained(&mut self, result: Result<bool, String>)
        ensures
            final(self)@ == old(self)@.drained(error_view(result)),
    {
        match result {
            Ok(true) => self.bump(),
            Ok(false) => {},
            Err(error) => {
                self.lifecycle = TerminalLifecycle::Failed(error);
                self.bump();
            },
        }
    }

    /// Notes that the process has ended, and what came of waiting for it.
    pub fn note_exit(&mut self, reaped: Result<(), String>)
        ensures
            final(self)@ == old(self)@.ended(error_view(reaped)),
    {
        self.lifecycle = match reaped {
            Ok(()) => TerminalLifecycle::Exited,
            Err(error) => TerminalLifecycle::Failed(error),
        };
        self.bump();
    }

    /// Notes that the terminal has failed.
    pub fn note_failure(&mut self, error: String)
        ensures
            final(self)@ == old(self)@.broken(error@),
    {
        self.lifecycle = TerminalLifecycle::Failed(error);
        self.bump();
    }

    /// Notes what is new of the terminal.
    pub fn refresh(&mut self, drained: Result<bool, String>, reported: Vec<Reported>)
        ensures
            final(self)@ == old(self)@.refreshed(error_view(drained), views(reported@)),
    {
        if !self.live {
            return ;
        }
        let ghost whole = views(reported@);
        let ghost all = reported@;
        self.note_drained(drained);
        let ghost taken = self@;
        let mut ordered = reversed(reported);
        let ghost mut done: nat = 0;
        proof {
            assert(whole.take(0) =~= Seq::empty());
        }
        while ordered.len() > 0
            invariant
                ordered@.len() + done == all.len(),
                whole == views(all),
                forall|i: int|
                    0 <= i < ordered@.len() ==> #[trigger] ordered@[i] == all[all.len() - 1 - i],
                self@ == taken.after_reported(whole.take(done as int)),
            decreases ordered@.len(),
        {
            proof {
                assert(ordered@[ordered@.len() - 1] == all[done as int]);
                let longer = whole.take(done as int + 1);
                assert(longer.drop_last() =~= whole.take(done as int));
                assert(longer.last() == all[done as int]@);
            }
            match ordered.pop() {
                None => {},
                Some(Reported::Changed) => {},
                Some(Reported::Exited { output: _, reap }) => self.note_exit(reap),
                Some(Reported::Failed(error)) => self.note_failure(error),
            }
            proof {
                done = done + 1;
            }
        }
        proof {
            assert(whole.take(done as int) =~= whole);
        }
    }

    /// Notes what came of a paste: of taking the output before it, and, where
    /// that went well, of the paste itself.
    pub fn note_paste(&mut self, drained: Result<bool, String>, pasted: Result<(), String>) -> (
    outcome: Result<bool, String>)
        ensures
            match error_view(drained) {
                Err(error) => final(self)@ == old(self)@ && outcome is Err && outcome->Err_0@
                    == error,
                Ok(changed) => {
                    &&& final(self)@ == if changed {
                        old(self)@.bumped()
                    } else {
                        old(self)@
                    }
                    &&& match error_view(pasted) {
                        Ok(()) => outcome == Ok::<bool, String>(changed),
                        Err(error) => outcome is Err && outcome->Err_0@ == error,
                    }
                },
            },
    {
        let changed = match drained {
            Ok(changed) => changed,
            Err(error) => return Err(error),
        };
        if changed {
            self.bump();
        }
        match pasted {
            Ok(()) => Ok(changed),
            Err(error) => Err(error),
        }
    }

    /// Whether a size has to be applied: it is not the one the terminal has.
    pub fn needs_resize(&self, current: TerminalSize, requested: TerminalSize) -> (needs: bool)
        ensures
            needs == (current != requested),
    {
        current != requested
    }

    /// Notes what came of applying a size. Whatever it was, the output before
    /// it has been taken.
    pub fn note_resize(&mut self, result: Result<(), String>) -> (outcome: Result<bool, String>)
        ensures
            final(self)@ == old(self)@.bumped(),
            match error_view(result) {
                Ok(()) => outcome == Ok::<bool, String>(true),
                Err(error) => outcome is Err && outcome->Err_0@ == error,
            },
    {
        self.bump();
        match result {
            Ok(()) => Ok(true),
            Err(error) => Err(error),
        }
    }

    /// How to answer one who knows the revision `since`.
    pub fn plan_snapshot(&mut self, since: Option<u64>) -> (plan: ResidentSnapshotPlan)
        ensures
            if since == Some(old(self)@.revision) {
                plan is Unchanged && final(self)@ == old(self)@
            } else if !old(self)@.live {
                &&& plan matches ResidentSnapshotPlan::Blank(update)
                &&& update@ == blank_screen(old(self)@.revision, old(self)@.lifecycle)
                &&& final(self)@ == (ResidentView {
                    last_snapshot_revision: Some(old(self)@.revision),
                    ..old(self)@
                })
            } else {
                plan == (ResidentSnapshotPlan::Render {
                    force_full: since is None || since != old(self)@.last_snapshot_revision,
                }) && final(self)@ == old(self)@
            },
    {
        let current = match since {
            Some(revision) => revision == self.revision,
            None => false,
        };
        if current {
            return ResidentSnapshotPlan::Unchanged;
        }
        if !self.live {
            self.last_snapshot_revision = Some(self.revision);
            return ResidentSnapshotPlan::Blank(
                TerminalUpdate::empty(self.revision, self.lifecycle.clone()),
            );
        }
        let force_full = match (since, self.last_snapshot_revision) {
            (Some(since), Some(last)) => since != last,
            _ => true,
        };
        ResidentSnapshotPlan::Render { force_full }
    }

    /// The update that a rendered screen gives.
    pub fn finish_snapshot(&mut self, snapshot: Snapshot) -> (update: TerminalUpdate)
        ensures
            final(self)@ == (ResidentView {
                last_snapshot_revision: Some(old(self)@.revision),
                ..old(self)@
            }),
            update@ == (UpdateView {
                base_revision: if snapshot.full {
                    None
                } else {
                    old(self)@.last_snapshot_revision
                },
                revision: old(self)@.revision,
                lifecycle: old(self)@.lifecycle,
                cols: snapshot.cols,
                rows: snapshot.rows,
                cursor: snapshot.cursor,
                default_fg: snapshot.default_fg@,
                default_bg: snapshot.default_bg@,
                dirty_rows: snapshot.dirty_rows@,
                cells: shown_cells(snapshot.cells@),
            }),
    {
        let update = TerminalUpdate::from_terminal(
            snapshot,
            self.last_snapshot_revision,
            self.revision,
            self.lifecycle.clone(),
        );
        self.last_snapshot_revision = Some(self.revision);
        update
    }
}

/// What is told of a terminal.
#[derive(Debug, PartialEq, Eq)]
pub enum ResidentEvent {
    TerminalChanged { terminal_session_id: TerminalSessionId, terminal_revision: u64 },
    TerminalLifecycleChanged {
        terminal_session_id: TerminalSessionId,
        lifecycle: TerminalLifecycle,
        terminal_revision: u64,
    },
}

#[verifier::ext_equal]
pub enum ResidentEventView {
    TerminalChanged { terminal_session_id: TerminalSessionId, terminal_revision: u64 },
    TerminalLifecycleChanged {
        terminal_session_id: TerminalSessionId,
        lifecycle: LifecycleView,
        terminal_revision: u64,
    },
}

impl View for ResidentEvent {
    type V = ResidentEventView;

    open spec fn view(&self) -> ResidentEventView {
        match *self {
            ResidentEvent::TerminalChanged { terminal_session_id, terminal_revision } => {
                ResidentEventView::TerminalChanged { terminal_session_id, terminal_revision }
            },
            ResidentEvent::TerminalLifecycleChanged {
                terminal_session_id,
                lifecycle,
                terminal_revision,
            } => ResidentEventView::TerminalLifecycleChanged {
                terminal_session_id,
                lifecycle: lifecycle@,
                terminal_revision,
            },
        }
    }
}

/// What is told of a terminal that went from one state to another.
pub open spec fn resident_events(
    session: TerminalSessionId,
    before: ResidentView,
    after: ResidentView,
) -> Seq<ResidentEventView> {
    (if after.lifecycle != before.lifecycle {
        seq![
            ResidentEventView::TerminalLifecycleChanged {
                terminal_session_id: session,
                lifecycle: after.lifecycle,
                terminal_revision: after.revision,
            },
        ]
    } else {
        Seq::empty()
    }) + (if after.revision != before.revision {
        seq![
            ResidentEventView::TerminalChanged {
                terminal_session_id: session,
                terminal_revision: after.revision,
            },
        ]
    } else {
        Seq::empty()
    })
}

/// What is told of a terminal since it was `before`, and whether it has ended
/// since.
pub fn tell_resident(
    session: TerminalSessionId,
    before: &ResidentTerminal,
    after: &ResidentTerminal,
) -> (told: (Vec<ResidentEvent>, bool))
    ensures
        views(told.0@) == resident_events(session, before@, after@),
        told.1 == (after@.lifecycle != before@.lifecycle && !(after@.lifecycle is Running)),
{
    let mut events: Vec<ResidentEvent> = Vec::new();
    let changed = !after.lifecycle.same(&before.lifecycle);
    let running = match after.lifecycle {
        TerminalLifecycle::Running => true,
        _ => false,
    };
    if changed {
        events.push(
            ResidentEvent::TerminalLifecycleChanged {
                terminal_session_id: session,
                lifecycle: after.lifecycle.clone(),
                terminal_revision: after.revision,
            },
        );
    }
    if after.revision != before.revision {
        events.push(
            ResidentEvent::TerminalChanged {
                terminal_session_id: session,
                terminal_revision: after.revision,
            },
        );
    }
    proof {
        assert(views(events@) =~= resident_events(session, before@, after@));
    }
    (events, changed && !running)
}

/// Output that was taken raises the revision, and so does whatever ends a terminal:
/// that its output could not be taken, that its process ended, or that it failed.
/// Where there was no output nothing changes.
pub proof fn law_endings_raise_the_revision(terminal: ResidentView, error: Seq<char>)
    requires
        terminal.revision < u64::MAX,
    ensures
        ({
            let failed = ResidentView {
                revision: (terminal.revision + 1) as u64,
                lifecycle: LifecycleView::Failed(error),
                ..terminal
            };
            let exited = ResidentView {
                revision: (terminal.revision + 1) as u64,
                lifecycle: LifecycleView::Exited,
                ..terminal
            };
            &&& terminal.drained(Ok(true)) == (ResidentView {
                revision: (terminal.revision + 1) as u64,
                ..terminal
            })
            &&& terminal.drained(Ok(false)) == terminal
            &&& terminal.drained(Err(error)) == failed
            &&& terminal.broken(error) == failed
            &&& terminal.ended(Ok(())) == exited
            &&& terminal.ended(Err(error)) == failed
        }),
{
}

/// A terminal takes its output, and then what its process reported, one after the
/// other; one without a process stays as it is.
pub proof fn law_reports_are_taken_in_order(
    terminal: ResidentView,
    drained: Result<bool, Seq<char>>,
    first: Seq<ReportedView>,
    last: ReportedView,
)
    ensures
        !terminal.live ==> terminal.refreshed(drained, first.push(last)) == terminal,
        terminal.live ==> terminal.refreshed(drained, Seq::empty()) == terminal.drained(drained),
        terminal.live ==> terminal.refreshed(drained, first.push(last)) == ({
            let earlier = terminal.refreshed(drained, first);
            match last {
                ReportedView::Changed => earlier,
                ReportedView::Exited { reap, .. } => earlier.ended(reap),
                ReportedView::Failed(error) => earlier.broken(error),
            }
        }),
{
    assert(first.push(last).drop_last() =~= first);
}

/// All are told of a terminal that changed, and of what became of it, and of nothing
/// else.
pub proof fn law_changes_of_terminals_are_told(
    session: TerminalSessionId,
    before: ResidentView,
    after: ResidentView,
)
    ensures
        ({
            let events = resident_events(session, before, after);
            let changed = ResidentEventView::TerminalChanged {
                terminal_session_id: session,
                terminal_revision: after.revision,
            };
            let turned = ResidentEventView::TerminalLifecycleChanged {
                terminal_session_id: session,
                lifecycle: after.lifecycle,
                terminal_revision: after.revision,
            };
            &&& events.contains(changed) <==> after.revision != before.revision
            &&& events.contains(turned) <==> after.lifecycle != before.lifecycle
            &&& forall|i: int|
                0 <= i < events.len() ==> #[trigger] events[i] == changed || events[i] == turned
            &&& events.no_duplicates()
        }),
{
    let events = resident_events(session, before, after);
    let changed = ResidentEventView::TerminalChanged {
        terminal_session_id: session,
        terminal_revision: after.revision,
    };
    let turned = ResidentEventView::TerminalLifecycleChanged {
        terminal_session_id: session,
        lifecycle: after.lifecycle,
        terminal_revision: after.revision,
    };
    if after.lifecycle != before.lifecycle {
        assert(events[0] == turned);
        if after.revision != before.revision {
            assert(events[1] == changed);
        }
    } else if after.revision != before.revision {
        assert(events[0] == changed);
    }
}

} // verus!
