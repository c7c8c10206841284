//! The terminals that run, and what becomes of them.

use super::exits::{close_pane_of, pane_in_spaces};
use super::{blank_update, rendered_update, TerminalUpdate};
use crate::agent_integration::AgentProgram;
use crate::core_model::hierarchy::going_on;
use crate::core_model::laws::{law_well_formed_at_start, law_well_formed_kept, stopped_by};
use crate::core_model::model::{empty_model, CoreModel, ModelView};
use crate::core_model::{
    CommandView, CoreCommand, CoreCommit, CoreEffect, CoreModelError, CoreSnapshot, DirectoryPath,
    EffectView, SessionView, TerminalSessionId,
};
use crate::ghostty::Snapshot;
use crate::resident_core::control::{missing_session, missing_session_message, session_set};
use crate::sequences::views;
use crate::table::Table;
use crate::terminal::{LifecycleView, TerminalLifecycle, TerminalSize};
use vstd::prelude::*;
use vstd::string::*;

verus! {

/// Whether closing a terminal may lose work: where something runs in the
/// foreground, fills the screen, or has taken the prompt away.
pub fn close_confirmation_required(
    interactive_prompt_seen: bool,
    bracketed_paste: bool,
    alternate_screen: bool,
    foreground_process: bool,
) -> (required: bool)
    ensures
        required == (foreground_process || alternate_screen || (interactive_prompt_seen
            && !bracketed_paste)),
{
    foreground_process || alternate_screen || (interactive_prompt_seen && !bracketed_paste)
}

/// A terminal without a process, in words.
pub open spec fn unavailable_text(lifecycle: LifecycleView) -> Seq<char> {
    match lifecycle {
        LifecycleView::Running => "Terminal Session runtime is unavailable"@,
        LifecycleView::Exited => "Terminal Session has exited"@,
        LifecycleView::Failed(error) => "Terminal Session failed: "@ + error,
    }
}

pub fn lifecycle_error(lifecycle: &TerminalLifecycle) -> (message: String)
    ensures
        message@ == unavailable_text(lifecycle@),
{
    match lifecycle {
        TerminalLifecycle::Running => "Terminal Session runtime is unavailable".to_owned(),
        TerminalLifecycle::Exited => "Terminal Session has exited".to_owned(),
        TerminalLifecycle::Failed(error) => {
            let mut message = "Terminal Session failed: ".to_owned();
            message.append(error.as_str());
            message
        },
    }
}

/// What is known of a terminal beside its process and its screen.
pub struct RuntimeTerminal {
    /// Whether there is a process, or was until it ended.
    pub live: bool,
    pub revision: u64,
    pub lifecycle: TerminalLifecycle,
    pub last_snapshot_revision: Option<u64>,
    pub interactive_prompt_seen: bool,
    pub bracketed_paste: bool,
    pub alternate_screen: bool,
    pub active_work: bool,
    pub agent_program: Option<AgentProgram>,
}

#[verifier::ext_equal]
pub struct RuntimeView {
    pub live: bool,
    pub revision: u64,
    pub lifecycle: LifecycleView,
    pub last_snapshot_revision: Option<u64>,
    pub interactive_prompt_seen: bool,
    pub bracketed_paste: bool,
    pub alternate_screen: bool,
    pub active_work: bool,
    pub agent_program: Option<AgentProgram>,
}

impl View for RuntimeTerminal {
    type V = RuntimeView;

    open spec fn view(&self) -> RuntimeView {
        RuntimeView {
            live: self.live,
            revision: self.revision,
            lifecycle: self.lifecycle@,
            last_snapshot_revision: self.last_snapshot_revision,
            interactive_prompt_seen: self.interactive_prompt_seen,
            bracketed_paste: self.bracketed_paste,
            alternate_screen: self.alternate_screen,
            active_work: self.active_work,
            agent_program: self.agent_program,
        }
    }
}

/// The revision after `revision`.
pub open spec fn next_revision(revision: u64) -> u64 {
    if revision < u64::MAX {
        (revision + 1) as u64
    } else {
        revision
    }
}

/// A terminal as it starts, with or without a process.
pub open spec fn fresh_terminal(live: bool, revision: u64, lifecycle: LifecycleView) -> RuntimeView {
    RuntimeView {
        live,
        revision,
        lifecycle,
        last_snapshot_revision: None,
        interactive_prompt_seen: false,
        bracketed_paste: false,
        alternate_screen: false,
        active_work: false,
        agent_program: None,
    }
}

/// A result by what it says of an error.
pub open spec fn error_view<T>(result: Result<T, String>) -> Result<T, Seq<char>> {
    match result {
        Ok(value) => Ok(value),
        Err(error) => Err(error@),
    }
}

/// What becomes of a terminal whose process has ended, by what taking its last
/// output and the process itself came to.
pub open spec fn ended_as(output: Option<Seq<char>>, reap: Option<Seq<char>>) -> LifecycleView {
    match (output, reap) {
        (None, None) => LifecycleView::Exited,
        (Some(error), None) => LifecycleView::Failed(error),
        (None, Some(error)) => LifecycleView::Failed(error),
        (Some(output), Some(reap)) => LifecycleView::Failed(
            output + "; also failed to reap terminal process: "@ + reap,
        ),
    }
}

pub open spec fn error_of<T>(result: Result<T, Seq<char>>) -> Option<Seq<char>> {
    match result {
        Ok(_) => None,
        Err(error) => Some(error),
    }
}

impl RuntimeView {
    pub open spec fn bumped(self) -> RuntimeView {
        RuntimeView { revision: next_revision(self.revision), ..self }
    }

    /// After output was taken.
    pub open spec fn drained(self, result: Result<bool, Seq<char>>) -> RuntimeView {
        match result {
            Ok(true) => self.bumped(),
            Ok(false) => self,
            Err(error) => RuntimeView { lifecycle: LifecycleView::Failed(error), ..self.bumped() },
        }
    }

    /// After the process has ended.
    pub open spec fn ended(
        self,
        output: Result<bool, Seq<char>>,
        reap: Result<(), Seq<char>>,
    ) -> RuntimeView {
        let taken = if output == Ok::<bool, Seq<char>>(true) {
            self.bumped()
        } else {
            self
        };
        RuntimeView { lifecycle: ended_as(error_of(output), error_of(reap)), ..taken.bumped() }
    }

    /// After the terminal has failed.
    pub open spec fn broken(self, error: Seq<char>) -> RuntimeView {
        RuntimeView { lifecycle: LifecycleView::Failed(error), ..self.bumped() }
    }

    /// Whether closing the terminal may lose work.
    pub open spec fn at_work(self, foreground: bool) -> bool {
        foreground || self.alternate_screen || (self.interactive_prompt_seen
            && !self.bracketed_paste)
    }

    /// After the processes were looked at.
    pub open spec fn polled(self, foreground: bool, agent: Option<AgentProgram>) -> RuntimeView {
        let worked = if self.at_work(foreground) != self.active_work {
            RuntimeView { active_work: self.at_work(foreground), ..self.bumped() }
        } else {
            self
        };
        if agent != worked.agent_program {
            RuntimeView { agent_program: agent, ..worked.bumped() }
        } else {
            worked
        }
    }

    /// After the screen was rendered.
    pub open spec fn rendered(
        self,
        snapshot: Snapshot,
        foreground: bool,
        agent: Option<AgentProgram>,
    ) -> RuntimeView {
        let shown = RuntimeView {
            interactive_prompt_seen: self.interactive_prompt_seen || snapshot.bracketed_paste,
            bracketed_paste: snapshot.bracketed_paste,
            alternate_screen: snapshot.alternate_screen,
            agent_program: agent,
            ..self
        };
        RuntimeView {
            active_work: shown.at_work(foreground),
            last_snapshot_revision: Some(self.revision),
            ..shown
        }
    }
}

fn same_agent(left: Option<AgentProgram>, right: Option<AgentProgram>) -> (same: bool)
    ensures
        same == (left == right),
{
    match (left, right) {
        (Some(left), Some(right)) => left == right,
        (None, None) => true,
        _ => false,
    }
}

/// How to answer a question for a terminal.
pub enum SnapshotPlan {
    Unchanged,
    /// There is no process: the terminal is blank.
    Blank(TerminalUpdate),
    Render { force_full: bool },
}

/// How to answer a request for a size.
#[derive(Clone, Copy, Debug, PartialEq, Eq, Structural)]
pub enum ResizePlan {
    /// The terminal has that size: say so once more.
    Repeat,
    Resize,
}

impl RuntimeTerminal {
    /// A terminal whose process was started.
    pub fn spawned() -> (terminal: Self)
        ensures
            terminal@ == fresh_terminal(true, 0, LifecycleView::Running),
    {
        RuntimeTerminal {
            live: true,
            revision: 0,
            lifecycle: TerminalLifecycle::Running,
            last_snapshot_revision: None,
            interactive_prompt_seen: false,
            bracketed_paste: false,
            alternate_screen: false,
            active_work: false,
            agent_program: None,
        }
    }

    /// A terminal whose process could not be started.
    pub fn failed(error: String) -> (terminal: Self)
        ensures
            terminal@ == fresh_terminal(false, 1, LifecycleView::Failed(error@)),
    {
        RuntimeTerminal {
            live: false,
            revision: 1,
            lifecycle: TerminalLifecycle::Failed(error),
            last_snapshot_revision: None,
            interactive_prompt_seen: false,
            bracketed_paste: false,
            alternate_screen: false,
            active_work: false,
            agent_program: None,
        }
    }

    /// Counts a change.
    pub fn bump(&mut self)
        ensures
            final(self)@ == old(self)@.bumped(),
    {
        self.revision = self.revision.saturating_add(1);
    }

    /// Notes what taking output came to: whether there was any.
    pub fn note_drained(&mut self, result: Result<bool, String>)
        ensures
            final(self)@ == old(self)@.drained(error_view(result)),
    {
        match result {
            Ok(true) => self.bump(),
            Ok(false) => {},
            Err(error) => {
                self.lifecycle = TerminalLifecycle::Failed(error);
                self.bump();
            },
        }
    }

    /// Notes that the process has ended, with what taking its last output and
    /// the process itself came to.
    pub fn note_exit(&mut self, output: Result<bool, String>, reap: Result<(), String>)
        ensures
            final(self)@ == old(self)@.ended(error_view(output), error_view(reap)),
    {
        let output_error = match output {
            Ok(true) => {
                self.bump();
                None
            },
            Ok(false) => None,
            Err(error) => Some(error),
        };
        let reap_error = match reap {
            Ok(()) => None,
            Err(error) => Some(error),
        };
        self.lifecycle =
        match (output_error, reap_error) {
            (None, None) => TerminalLifecycle::Exited,
            (Some(error), None) => TerminalLifecycle::Failed(error),
            (None, Some(error)) => TerminalLifecycle::Failed(error),
            (Some(output_error), Some(reap_error)) => {
                let mut message = output_error;
                message.append("; also failed to reap terminal process: ");
                message.append(reap_error.as_str());
                TerminalLifecycle::Failed(message)
            },
        };
        self.bump();
    }

    /// Notes that the terminal has failed.
    pub fn note_failure(&mut self, error: String)
        ensures
            final(self)@ == old(self)@.broken(error@),
    {
        self.lifecycle = TerminalLifecycle::Failed(error);
        self.bump();
    }

    /// Notes what runs in the terminal; what cannot be told counts as running
    /// in the foreground.
    pub fn note_processes(&mut self, foreground: Option<bool>, agent: Option<AgentProgram>)
        ensures
            final(self)@ == old(self)@.polled(
                match foreground {
                    Some(foreground) => foreground,
                    None => true,
                },
                agent,
            ),
    {
        let active_work = close_confirmation_required(
            self.interactive_prompt_seen,
            self.bracketed_paste,
            self.alternate_screen,
            foreground.unwrap_or(true),
        );
        if active_work != self.active_work {
            self.active_work = active_work;
            self.bump();
        }
        if !same_agent(agent, self.agent_program) {
            self.agent_program = agent;
            self.bump();
        }
    }

    /// How to answer one who knows the terminal at revision `since`.
    pub fn plan_snapshot(&mut self, since: Option<u64>) -> (plan: SnapshotPlan)
        ensures
            if since == Some(old(self)@.revision) {
                plan is Unchanged && final(self)@ == old(self)@
            } else if !old(self)@.live {
                plan is Blank && plan->Blank_0@ == blank_update(
                    old(self)@.revision,
                    old(self)@.lifecycle,
                ) && final(self)@ == (RuntimeView {
                    last_snapshot_revision: Some(old(self)@.revision),
                    ..old(self)@
                })
            } else {
                plan == (SnapshotPlan::Render {
                    force_full: since is None || since != old(self)@.last_snapshot_revision,
                }) && final(self)@ == old(self)@
            },
    {
        let current = match since {
            Some(revision) => revision == self.revision,
            None => false,
        };
        if current {
            return SnapshotPlan::Unchanged;
        }
        if !self.live {
            self.last_snapshot_revision = Some(self.revision);
            return SnapshotPlan::Blank(
                TerminalUpdate::empty(self.revision, self.lifecycle.clone()),
            );
        }
        let force_full = match (since, self.last_snapshot_revision) {
            (Some(since), Some(last)) => since != last,
            _ => true,
        };
        SnapshotPlan::Render { force_full }
    }

    /// The update that a rendered screen gives.
    pub fn finish_snapshot(
        &mut self,
        snapshot: Snapshot,
        foreground: Option<bool>,
        agent: Option<AgentProgram>,
    ) -> (update: TerminalUpdate)
        ensures
            final(self)@ == old(self)@.rendered(
                snapshot,
                match foreground {
                    Some(foreground) => foreground,
                    None => true,
                },
                agent,
            ),
            update@ == rendered_update(
                snapshot,
                old(self)@.last_snapshot_revision,
                old(self)@.revision,
                old(self)@.lifecycle,
                final(self)@.active_work,
                agent,
            ),
    {
        self.interactive_prompt_seen = self.interactive_prompt_seen || snapshot.bracketed_paste;
        self.bracketed_paste = snapshot.bracketed_paste;
        self.alternate_screen = snapshot.alternate_screen;
        self.agent_program = agent;
        self.active_work = close_confirmation_required(
            self.interactive_prompt_seen,
            self.bracketed_paste,
            self.alternate_screen,
            foreground.unwrap_or(true),
        );
        let update = TerminalUpdate::from_terminal(
            snapshot,
            self.last_snapshot_revision,
            self.revision,
            self.lifecycle.clone(),
            self.active_work,
            agent,
        );
        self.last_snapshot_revision = Some(self.revision);
        update
    }

    /// Notes what a paste came to: whether output was taken before it. A paste
    /// that failed may have taken some as well.
    pub fn note_paste(&mut self, result: Result<bool, String>) -> (outcome: Result<bool, String>)
        ensures
            final(self)@ == if error_view(result) == Ok::<bool, Seq<char>>(false) {
                old(self)@
            } else {
                old(self)@.bumped()
            },
            outcome == result,
    {
        match result {
            Ok(changed) => {
                if changed {
                    self.bump();
                }
                Ok(changed)
            },
            Err(error) => {
                self.bump();
                Err(error)
            },
        }
    }

    /// How to answer a request for a size. Whatever comes of it, the terminal
    /// counts as changed.
    pub fn plan_resize(&mut self, current: TerminalSize, requested: TerminalSize) -> (plan:
        ResizePlan)
        ensures
            plan == if current == requested {
                ResizePlan::Repeat
            } else {
                ResizePlan::Resize
            },
            final(self)@ == old(self)@.bumped(),
    {
        self.bump();
        if current == requested {
            ResizePlan::Repeat
        } else {
            ResizePlan::Resize
        }
    }
}

/// What is told of the terminals.
#[derive(Debug, PartialEq, Eq)]
pub enum RuntimeEvent {
    TerminalChanged { terminal_session_id: TerminalSessionId, terminal_revision: u64 },
    TerminalLifecycleChanged {
        terminal_session_id: TerminalSessionId,
        lifecycle: TerminalLifecycle,
        terminal_revision: u64,
    },
    PaneClosed { terminal_session_id: TerminalSessionId, revision: u64 },
}

#[verifier::ext_equal]
pub enum RuntimeEventView {
    TerminalChanged { terminal_session_id: TerminalSessionId, terminal_revision: u64 },
    TerminalLifecycleChanged {
        terminal_session_id: TerminalSessionId,
        lifecycle: LifecycleView,
        terminal_revision: u64,
    },
    PaneClosed { terminal_session_id: TerminalSessionId, revision: u64 },
}

impl View for RuntimeEvent {
    type V = RuntimeEventView;

    open spec fn view(&self) -> RuntimeEventView {
        match *self {
            RuntimeEvent::TerminalChanged { terminal_session_id, terminal_revision } => {
                RuntimeEventView::TerminalChanged { terminal_session_id, terminal_revision }
            },
            RuntimeEvent::TerminalLifecycleChanged {
                terminal_session_id,
                lifecycle,
                terminal_revision,
            } => RuntimeEventView::TerminalLifecycleChanged {
                terminal_session_id,
                lifecycle: lifecycle@,
                terminal_revision,
            },
            RuntimeEvent::PaneClosed { terminal_session_id, revision } => {
                RuntimeEventView::PaneClosed { terminal_session_id, revision }
            },
        }
    }
}

/// Whether a terminal has just ended by itself.
pub open spec fn exited_since(before: RuntimeView, after: RuntimeView) -> bool {
    after.lifecycle != before.lifecycle && after.lifecycle is Exited
}

/// What is told of a terminal that went from one state to another: nothing but
/// that its Pane closes, where it has ended by itself.
pub open spec fn refresh_events(
    session: TerminalSessionId,
    before: RuntimeView,
    after: RuntimeView,
) -> Seq<RuntimeEventView> {
    if exited_since(before, after) {
        Seq::empty()
    } else {
        (if after.lifecycle != before.lifecycle {
            seq![
                RuntimeEventView::TerminalLifecycleChanged {
                    terminal_session_id: session,
                    lifecycle: after.lifecycle,
                    terminal_revision: after.revision,
                },
            ]
        } else {
            Seq::empty()
        }) + (if after.revision != before.revision {
            seq![
                RuntimeEventView::TerminalChanged {
                    terminal_session_id: session,
                    terminal_revision: after.revision,
                },
            ]
        } else {
            Seq::empty()
        })
    }
}

/// Appends what is told of a terminal since it had the given revision and
/// lifecycle; says whether it has ended by itself.
pub fn tell_refresh(
    updates: &mut Vec<RuntimeEvent>,
    session: TerminalSessionId,
    revision_before: u64,
    lifecycle_before: &TerminalLifecycle,
    terminal: &RuntimeTerminal,
) -> (exited: bool)
    ensures
        ({
            let before = RuntimeView {
                revision: revision_before,
                lifecycle: lifecycle_before@,
                ..terminal@
            };
            &&& exited == exited_since(before, terminal@)
            &&& views(final(updates)@) == views(old(updates)@) + refresh_events(
                session,
                before,
                terminal@,
            )
        }),
{
    let changed = !terminal.lifecycle.same(lifecycle_before);
    let ended = match terminal.lifecycle {
        TerminalLifecycle::Exited => true,
        _ => false,
    };
    let exited = changed && ended;
    if changed && !exited {
        updates.push(
            RuntimeEvent::TerminalLifecycleChanged {
                terminal_session_id: session,
                lifecycle: terminal.lifecycle.clone(),
                terminal_revision: terminal.revision,
            },
        );
    }
    if terminal.revision != revision_before && !exited {
        updates.push(
            RuntimeEvent::TerminalChanged {
                terminal_session_id: session,
                terminal_revision: terminal.revision,
            },
        );
    }
    proof {
        let before = RuntimeView {
            revision: revision_before,
            lifecycle: lifecycle_before@,
            ..terminal@
        };
        assert(views(updates@) =~= views(old(updates)@) + refresh_events(
            session,
            before,
            terminal@,
        ));
    }
    exited
}

/// The hierarchy and the terminals of its sessions.
pub struct CoreRuntime {
    model: CoreModel,
    terminals: Table<RuntimeTerminal>,
}

#[verifier::ext_equal]
pub struct CoreRuntimeView {
    pub model: ModelView,
    pub terminals: Map<u64, RuntimeView>,
}

impl View for CoreRuntime {
    type V = CoreRuntimeView;

    closed spec fn view(&self) -> CoreRuntimeView {
        CoreRuntimeView {
            model: self.model@,
            terminals: runtime_views(self.terminals@),
        }
    }
}

spec fn runtime_views(terminals: Map<u64, RuntimeTerminal>) -> Map<u64, RuntimeView> {
    terminals.map_values(|terminal: RuntimeTerminal| terminal@)
}

/// The sessions that have a terminal after an effect.
pub open spec fn after_effect(sessions: Set<u64>, effect: EffectView) -> Set<u64> {
    match effect {
        EffectView::LaunchTerminal { terminal_session_id, .. } => sessions.insert(
            terminal_session_id.0,
        ),
        EffectView::StopTerminal { terminal_session_id } => sessions.remove(terminal_session_id.0),
    }
}

/// The sessions that have a terminal after all effects.
pub open spec fn after_effects(sessions: Set<u64>, effects: Seq<EffectView>) -> Set<u64>
    decreases effects.len(),
{
    if effects.len() == 0 {
        sessions
    } else {
        after_effect(after_effects(sessions, effects.drop_last()), effects.last())
    }
}

impl CoreRuntimeView {
    /// Whether exactly the sessions of the hierarchy have terminals.
    pub open spec fn registered(self) -> bool {
        self.terminals.dom() == session_set(self.model.snapshot.sessions)
    }

    /// After an effect, where starting the process came to `failure`.
    pub open spec fn with_effect(
        self,
        effect: EffectView,
        failure: Option<Seq<char>>,
    ) -> CoreRuntimeView {
        CoreRuntimeView {
            terminals: match effect {
                EffectView::LaunchTerminal { terminal_session_id, .. } => self.terminals.insert(
                    terminal_session_id.0,
                    match failure {
                        None => fresh_terminal(true, 0, LifecycleView::Running),
                        Some(error) => fresh_terminal(false, 1, LifecycleView::Failed(error)),
                    },
                ),
                EffectView::StopTerminal { terminal_session_id } => self.terminals.remove(
                    terminal_session_id.0,
                ),
            },
            ..self
        }
    }
}

pub open spec fn failure_view(failure: Option<String>) -> Option<Seq<char>> {
    match failure {
        Some(error) => Some(error@),
        None => None,
    }
}

/// Why a runtime does not start.
#[derive(Clone, Copy, Debug, PartialEq, Eq, Structural)]
pub struct StartError(pub CoreModelError);

impl StartError {
    pub fn message(self) -> (message: String)
        ensures
            message@ == "create initial Space: "@ + self.0.spec_message(),
    {
        let mut message = "create initial Space: ".to_owned();
        message.append(self.0.message().as_str());
        message
    }
}

impl CoreRuntime {
    /// A hierarchy of one Space, and what has to be done for it.
    pub fn start(name: String, directory: DirectoryPath, first_resource_id: u64) -> (result: Result<
        (Self, CoreCommit),
        StartError,
    >)
        requires
            0 < first_resource_id <= u64::MAX - 4,
        ensures
            match empty_model(first_resource_id).applied(
                0,
                CommandView::CreateSpace { name: name@, directory: directory@ },
            ) {
                Ok((model, commit)) => match result {
                    Ok((runtime, actual)) => runtime@ == (CoreRuntimeView {
                        model,
                        terminals: Map::empty(),
                    }) && actual@ == commit && runtime@.model.well_formed(),
                    Err(_) => false,
                },
                Err(error) => result is Err && result->Err_0 == StartError(error),
            },
    {
        let mut model = CoreModel::with_id_namespace(first_resource_id);
        let command = CoreCommand::CreateSpace { name, directory };
        let ghost before = model@;
        let ghost asked = command@;
        match model.apply(0, command) {
            Err(error) => Err(StartError(error)),
            Ok(commit) => {
                let runtime = CoreRuntime { model, terminals: Table::new() };
                proof {
                    law_well_formed_at_start(first_resource_id);
                    law_well_formed_kept(before, 0, asked);
                    assert(runtime@.terminals =~= Map::empty());
                }
                Ok((runtime, commit))
            },
        }
    }

    pub fn model_snapshot(&self) -> (snapshot: CoreSnapshot)
        ensures
            snapshot@ == self@.model.snapshot,
    {
        self.model.snapshot()
    }

    /// Whether identities are left for what `command` would create.
    pub fn has_ids_for(&self, expected_revision: u64, command: &CoreCommand) -> (left: bool)
        ensures
            left == (expected_revision == self@.model.snapshot.revision ==> self@.model.has_ids_for(
                command@,
            )),
    {
        self.model.has_ids_for(expected_revision, command)
    }

    pub fn contains_terminal(&self, session: TerminalSessionId) -> (found: bool)
        ensures
            found == self@.terminals.contains_key(session.0),
    {
        self.terminals.contains(session.0)
    }

    pub fn terminal(&self, session: TerminalSessionId) -> (terminal: Option<&RuntimeTerminal>)
        ensures
            match terminal {
                Some(terminal) => self@.terminals.contains_key(session.0) && terminal@
                    == self@.terminals[session.0],
                None => !self@.terminals.contains_key(session.0),
            },
    {
        self.terminals.get(session.0)
    }

    pub fn terminal_revision(&self, session: TerminalSessionId) -> (revision: Result<u64, String>)
        ensures
            match revision {
                Ok(revision) => self@.terminals.contains_key(session.0) && revision
                    == self@.terminals[session.0].revision,
                Err(error) => !self@.terminals.contains_key(session.0) && error@
                    == missing_session(session),
            },
    {
        match self.terminals.get(session.0) {
            Some(terminal) => Ok(terminal.revision),
            None => Err(missing_session_message(session)),
        }
    }

    /// Takes a terminal out, to be put back changed.
    pub fn take_terminal(&mut self, session: TerminalSessionId) -> (terminal: Result<
        RuntimeTerminal,
        String,
    >)
        ensures
            match terminal {
                Ok(terminal) => old(self)@.terminals.contains_key(session.0) && terminal@ == old(
                    self,
                )@.terminals[session.0],
                Err(error) => !old(self)@.terminals.contains_key(session.0) && error@
                    == missing_session(session),
            },
            final(self)@ == (CoreRuntimeView {
                terminals: old(self)@.terminals.remove(session.0),
                ..old(self)@
            }),
    {
        let ghost before = self@;
        let taken = self.terminals.remove(session.0);
        proof {
            assert(self@.terminals =~= before.terminals.remove(session.0));
        }
        match taken {
            Some(terminal) => Ok(terminal),
            None => Err(missing_session_message(session)),
        }
    }

    pub fn put_terminal(&mut self, session: TerminalSessionId, terminal: RuntimeTerminal)
        ensures
            final(self)@ == (CoreRuntimeView {
                terminals: old(self)@.terminals.insert(session.0, terminal@),
                ..old(self)@
            }),
    {
        let ghost before = self@;
        self.terminals.insert(session.0, terminal);
        proof {
            assert(self@.terminals =~= before.terminals.insert(session.0, terminal@));
        }
    }

    /// The sessions that have terminals, in order.
    pub fn sessions(&self) -> (sessions: Vec<TerminalSessionId>)
        ensures
            forall|id: u64| #[trigger]
                self@.terminals.contains_key(id) <==> sessions@.contains(TerminalSessionId(id)),
            forall|i: int, j: int|
                0 <= i < j < sessions@.len() ==> (#[trigger] sessions@[i]).0 < (
                #[trigger] sessions@[j]).0,
    {
        let count = self.terminals.len();
        let ghost keys = self.terminals.keys();
        let mut sessions: Vec<TerminalSessionId> = Vec::new();
        let mut index: usize = 0;
        while index < count
            invariant
                index <= count == keys.len(),
                keys == self.terminals.keys(),
                sessions@.len() == index,
                forall|i: int| 0 <= i < index ==> #[trigger] sessions@[i] == TerminalSessionId(
                    keys[i],
                ),
            decreases count - index,
        {
            sessions.push(TerminalSessionId(self.terminals.key_at(index)));
            index += 1;
        }
        proof {
            assert forall|id: u64| #[trigger]
                self@.terminals.contains_key(id) <==> sessions@.contains(TerminalSessionId(id)) by {
                assert(self@.terminals.contains_key(id) == self.terminals@.contains_key(id));
                if self.terminals@.contains_key(id) {
                    let i = keys.index_of(id);
                    assert(sessions@[i] == TerminalSessionId(id));
                }
                if sessions@.contains(TerminalSessionId(id)) {
                    let i = sessions@.index_of(TerminalSessionId(id));
                    assert(keys[i] == id);
                }
            }
        }
        sessions
    }

    /// Applies a command to the hierarchy; its effects are still to be done.
    pub fn apply(&mut self, expected_revision: u64, command: CoreCommand) -> (result: Result<
        CoreCommit,
        CoreModelError,
    >)
        requires
            expected_revision == old(self)@.model.snapshot.revision ==> old(
                self,
            )@.model.has_ids_for(command@),
        ensures
            match old(self)@.model.applied(expected_revision, command@) {
                Ok((after, commit)) => {
                    &&& result matches Ok(actual) && actual@ == commit
                    &&& final(self)@ == (CoreRuntimeView { model: after, ..old(self)@ })
                },
                Err(error) => {
                    &&& result matches Err(actual) && actual == error
                    &&& final(self)@ == old(self)@
                },
            },
            old(self)@.model.well_formed() ==> final(self)@.model.well_formed(),
    {
        let ghost before = self@.model;
        let ghost asked = command@;
        let result = self.model.apply(expected_revision, command);
        proof {
            if before.well_formed() && result is Ok {
                law_well_formed_kept(before, expected_revision, asked);
            }
        }
        result
    }

    /// Notes that an effect was done, with what starting a process came to.
    pub fn note_effect(&mut self, effect: &CoreEffect, failure: Option<String>)
        ensures
            final(self)@ == old(self)@.with_effect(effect@, failure_view(failure)),
    {
        match effect {
            CoreEffect::LaunchTerminal { terminal_session_id, .. } => {
                let terminal = match failure {
                    None => RuntimeTerminal::spawned(),
                    Some(error) => RuntimeTerminal::failed(error),
                };
                self.put_terminal(*terminal_session_id, terminal);
            },
            CoreEffect::StopTerminal { terminal_session_id } => {
                let _ = self.take_terminal(*terminal_session_id);
            },
        }
    }

    /// Closes the Pane of a session that has ended by itself.
    pub fn close_exited(&mut self, session: TerminalSessionId) -> (result: (
        RuntimeEvent,
        CoreCommit,
    ))
        requires
            old(self)@.model.well_formed(),
            session_set(old(self)@.model.snapshot.sessions).contains(session.0),
        ensures
            ({
                let before = old(self)@.model;
                let pane = pane_in_spaces(before.snapshot.spaces, session)->0;
                let command = CommandView::ClosePane { pane_id: pane.id };
                let (after, commit) = before.applied(before.snapshot.revision, command)->Ok_0;
                &&& before.applied(before.snapshot.revision, command) is Ok
                &&& final(self)@ == (CoreRuntimeView { model: after, ..old(self)@ })
                &&& result.1@ == commit
                &&& commit.effects == seq![
                    EffectView::StopTerminal { terminal_session_id: session },
                ]
                &&& result.0@ == (RuntimeEventView::PaneClosed {
                    terminal_session_id: session,
                    revision: commit.revision,
                })
                &&& final(self)@.model.well_formed()
            }),
    {
        let commit = close_pane_of(&mut self.model, session);
        let event = RuntimeEvent::PaneClosed {
            terminal_session_id: session,
            revision: commit.revision,
        };
        (event, commit)
    }
}

proof fn lemma_set_of_pushed(sessions: Seq<SessionView>, session: SessionView)
    ensures
        session_set(sessions.push(session)) == session_set(sessions).insert(session.id.0),
{
    let longer = sessions.push(session);
    assert forall|id: u64| session_set(longer).contains(id) <==> session_set(sessions).insert(
        session.id.0,
    ).contains(id) by {
        if session_set(sessions).contains(id) {
            let i = choose|i: int| 0 <= i < sessions.len() && (#[trigger] sessions[i]).id.0 == id;
            assert(longer[i].id.0 == id);
        }
        if id == session.id.0 {
            assert(longer[sessions.len() as int].id.0 == id);
        }
        if session_set(longer).contains(id) && id != session.id.0 {
            let i = choose|i: int| 0 <= i < longer.len() && (#[trigger] longer[i]).id.0 == id;
            assert(sessions[i].id.0 == id);
        }
    }
    assert(session_set(longer) =~= session_set(sessions).insert(session.id.0));
}

proof fn lemma_set_of_going_on(sessions: Seq<SessionView>, stopped: Seq<TerminalSessionId>)
    ensures
        forall|id: u64| #[trigger]
            session_set(going_on(sessions, stopped)).contains(id) <==> session_set(
                sessions,
            ).contains(id) && !stopped.contains(TerminalSessionId(id)),
    decreases sessions.len(),
{
    let goes_on = |session: SessionView| !stopped.contains(session.id);
    reveal(Seq::filter);
    if sessions.len() == 0 {
        assert(going_on(sessions, stopped) =~= Seq::empty());
    } else {
        let rest = sessions.drop_last();
        let last = sessions.last();
        lemma_set_of_going_on(rest, stopped);
        lemma_set_of_pushed(rest, last);
        assert(rest.push(last) =~= sessions);
        if goes_on(last) {
            lemma_set_of_pushed(going_on(rest, stopped), last);
            assert(going_on(sessions, stopped) =~= going_on(rest, stopped).push(last));
        } else {
            assert(going_on(sessions, stopped) =~= going_on(rest, stopped));
        }
    }
}

proof fn lemma_after_stops(sessions: Set<u64>, stopped: Seq<TerminalSessionId>)
    ensures
        forall|id: u64| #[trigger]
            after_effects(
                sessions,
                crate::core_model::model::stop_effects(stopped),
            ).contains(id) <==> sessions.contains(id) && !stopped.contains(TerminalSessionId(id)),
    decreases stopped.len(),
{
    let effects = crate::core_model::model::stop_effects(stopped);
    if stopped.len() > 0 {
        let rest = stopped.drop_last();
        lemma_after_stops(sessions, rest);
        let last = stopped.last();
        assert(effects.drop_last() =~= crate::core_model::model::stop_effects(rest));
        assert(effects.last() == EffectView::StopTerminal { terminal_session_id: last });
        assert(stopped[stopped.len() - 1] == last);
        assert forall|id: u64| #[trigger]
            after_effects(sessions, effects).contains(id) <==> sessions.contains(id)
                && !stopped.contains(TerminalSessionId(id)) by {
            assert(after_effects(sessions, effects.drop_last()).contains(id) <==> sessions.contains(
                id,
            ) && !rest.contains(TerminalSessionId(id)));
            if rest.contains(TerminalSessionId(id)) {
                let i = rest.index_of(TerminalSessionId(id));
                assert(stopped[i] == TerminalSessionId(id));
            }
            if id == last.0 {
                assert(TerminalSessionId(id) == last);
            }
            if stopped.contains(TerminalSessionId(id)) && id != stopped.last().0 {
                let i = stopped.index_of(TerminalSessionId(id));
                assert(rest[i] == TerminalSessionId(id));
            }
        }
    }
}

/// Doing the effects of a command keeps a terminal for each session of the
/// hierarchy and for no other.
pub proof fn law_effects_keep_the_registry(model: ModelView, command: CommandView)
    requires
        model.change(command) is Ok,
    ensures
        after_effects(
            session_set(model.snapshot.sessions),
            model.change(command)->Ok_0.effects,
        ) == session_set(model.change(command)->Ok_0.sessions),
{
    let sessions = model.snapshot.sessions;
    let change = model.change(command)->Ok_0;
    crate::core_model::laws::law_effects(model, command);
    match crate::core_model::laws::started_by(model, command) {
        Some(id) => {
            let new = change.sessions.last();
            assert(change.sessions =~= sessions.push(new));
            lemma_set_of_pushed(sessions, new);
            reveal_with_fuel(after_effects, 2);
            assert(change.effects.drop_last() =~= Seq::empty());
        },
        None => {
            let stopped = stopped_by(model, command);
            lemma_after_stops(session_set(sessions), stopped);
            lemma_set_of_going_on(sessions, stopped);
            if change.sessions == sessions {
                assert(stopped =~= Seq::empty() || change.sessions == going_on(sessions, stopped));
            }
            assert(after_effects(session_set(sessions), change.effects) =~= session_set(
                change.sessions,
            ));
        },
    }
}

/// An effect gives a session a terminal or takes it away, as its registry
/// says.
pub proof fn law_effects_are_registered(
    runtime: CoreRuntimeView,
    effect: EffectView,
    failure: Option<Seq<char>>,
)
    ensures
        runtime.with_effect(effect, failure).terminals.dom() == after_effect(
            runtime.terminals.dom(),
            effect,
        ),
{
    assert(runtime.with_effect(effect, failure).terminals.dom() =~= after_effect(
        runtime.terminals.dom(),
        effect,
    ));
}

/// Looking at the processes of a terminal tells whether something runs in the
/// foreground, fills the screen or has taken the prompt away, and which program it
/// is. The revision goes up exactly where one of both is new.
pub proof fn law_work_is_noticed(
    terminal: RuntimeView,
    foreground: bool,
    agent: Option<AgentProgram>,
)
    requires
        terminal.revision < u64::MAX - 2,
    ensures
        ({
            let after = terminal.polled(foreground, agent);
            &&& foreground ==> after.active_work
            &&& terminal.alternate_screen ==> after.active_work
            &&& terminal.interactive_prompt_seen && !terminal.bracketed_paste ==> after.active_work
            &&& !foreground && !terminal.alternate_screen && (terminal.bracketed_paste
                || !terminal.interactive_prompt_seen) ==> !after.active_work
            &&& after.agent_program == agent
            &&& after.revision >= terminal.revision
            &&& after.revision == terminal.revision <==> after.active_work == terminal.active_work
                && agent == terminal.agent_program
            &&& RuntimeView {
                active_work: terminal.active_work,
                agent_program: terminal.agent_program,
                revision: terminal.revision,
                ..after
            } == terminal
        }),
{
}

/// After the screen was rendered the terminal knows what is on it, and that a
/// prompt was seen where one takes pastes in brackets; what has been rendered is
/// the revision that it had.
pub proof fn law_rendering_shows_what_is_there(
    terminal: RuntimeView,
    snapshot: Snapshot,
    foreground: bool,
    agent: Option<AgentProgram>,
)
    ensures
        ({
            let after = terminal.rendered(snapshot, foreground, agent);
            &&& after.last_snapshot_revision == Some(terminal.revision)
            &&& after.revision == terminal.revision
            &&& after.bracketed_paste == snapshot.bracketed_paste
            &&& after.alternate_screen == snapshot.alternate_screen
            &&& after.agent_program == agent
            &&& snapshot.bracketed_paste ==> after.interactive_prompt_seen
            &&& terminal.interactive_prompt_seen ==> after.interactive_prompt_seen
            &&& after.interactive_prompt_seen ==> terminal.interactive_prompt_seen
                || snapshot.bracketed_paste
            &&& after.active_work <==> foreground || snapshot.alternate_screen || (
            terminal.interactive_prompt_seen && !snapshot.bracketed_paste)
            &&& after.lifecycle == terminal.lifecycle
            &&& after.live == terminal.live
        }),
{
}

/// Output that was taken raises the revision, and so does a failure to take it,
/// which the terminal does not survive; where there was none nothing changes.
pub proof fn law_output_raises_the_revision(terminal: RuntimeView, error: Seq<char>)
    requires
        terminal.revision < u64::MAX,
    ensures
        terminal.drained(Ok(true)).revision == terminal.revision + 1,
        terminal.drained(Ok(true)).lifecycle == terminal.lifecycle,
        terminal.drained(Ok(false)) == terminal,
        terminal.drained(Err(error)).revision == terminal.revision + 1,
        terminal.drained(Err(error)).lifecycle == LifecycleView::Failed(error),
        terminal.broken(error).revision == terminal.revision + 1,
        terminal.broken(error).lifecycle == LifecycleView::Failed(error),
{
}

/// A terminal whose process has ended has exited where its last output was taken
/// and the process let go, and else has failed for what went wrong; either way its
/// revision goes up.
pub proof fn law_endings_tell_what_went_wrong(
    terminal: RuntimeView,
    output: Result<bool, Seq<char>>,
    reap: Result<(), Seq<char>>,
)
    requires
        terminal.revision < u64::MAX - 2,
    ensures
        ({
            let after = terminal.ended(output, reap);
            &&& after.revision > terminal.revision
            &&& after.lifecycle is Exited <==> output is Ok && reap is Ok
            &&& !(after.lifecycle is Running)
            &&& output is Err && reap is Ok ==> after.lifecycle == LifecycleView::Failed(
                output->Err_0,
            )
            &&& output is Ok && reap is Err ==> after.lifecycle == LifecycleView::Failed(
                reap->Err_0,
            )
            &&& output is Err && reap is Err ==> after.lifecycle == LifecycleView::Failed(
                output->Err_0 + "; also failed to reap terminal process: "@ + reap->Err_0,
            )
            &&& RuntimeView {
                revision: terminal.revision,
                lifecycle: terminal.lifecycle,
                ..after
            } == terminal
        }),
{
}

/// All are told of a terminal that changed, and of what became of one that did not
/// just end by itself: of that one nothing is told but that its Pane closes.
pub proof fn law_changes_of_terminals_are_told(
    session: TerminalSessionId,
    before: RuntimeView,
    after: RuntimeView,
)
    ensures
        ({
            let events = refresh_events(session, before, after);
            let exited = after.lifecycle is Exited && !(before.lifecycle is Exited);
            let changed = RuntimeEventView::TerminalChanged {
                terminal_session_id: session,
                terminal_revision: after.revision,
            };
            let turned = RuntimeEventView::TerminalLifecycleChanged {
                terminal_session_id: session,
                lifecycle: after.lifecycle,
                terminal_revision: after.revision,
            };
            &&& events.contains(changed) <==> !exited && after.revision != before.revision
            &&& events.contains(turned) <==> !exited && after.lifecycle != before.lifecycle
            &&& forall|i: int|
                0 <= i < events.len() ==> #[trigger] events[i] == changed || events[i] == turned
            &&& events.no_duplicates()
        }),
{
    let events = refresh_events(session, before, after);
    let changed = RuntimeEventView::TerminalChanged {
        terminal_session_id: session,
        terminal_revision: after.revision,
    };
    let turned = RuntimeEventView::TerminalLifecycleChanged {
        terminal_session_id: session,
        lifecycle: after.lifecycle,
        terminal_revision: after.revision,
    };
    if !exited_since(before, after) {
        if after.lifecycle != before.lifecycle {
            assert(events[0] == turned);
            if after.revision != before.revision {
                assert(events[1] == changed);
            }
        } else if after.revision != before.revision {
            assert(events[0] == changed);
        }
    }
}

/// A session that was launched has a running terminal, or one that failed for why
/// it could not start; a session that was stopped has none. No other is touched.
pub proof fn law_launched_sessions_have_terminals(
    runtime: CoreRuntimeView,
    effect: EffectView,
    failure: Option<Seq<char>>,
    other: u64,
)
    ensures
        ({
            let after = runtime.with_effect(effect, failure);
            let (session, launched) = match effect {
                EffectView::LaunchTerminal { terminal_session_id, .. } => (
                    terminal_session_id.0,
                    true,
                ),
                EffectView::StopTerminal { terminal_session_id } => (terminal_session_id.0, false),
            };
            let terminal = after.terminals[session];
            &&& after.model == runtime.model
            &&& after.terminals.contains_key(session) == launched
            &&& launched && failure is None ==> terminal.live && terminal.lifecycle
                == LifecycleView::Running && terminal.revision == 0
            &&& launched && failure is Some ==> !terminal.live && terminal.lifecycle
                == LifecycleView::Failed(failure->0) && terminal.revision == 1
            &&& launched ==> !terminal.active_work && terminal.agent_program is None
                && terminal.last_snapshot_revision is None && !terminal.interactive_prompt_seen
            &&& other != session ==> {
                &&& after.terminals.contains_key(other) == runtime.terminals.contains_key(other)
                &&& after.terminals[other] == runtime.terminals[other]
            }
        }),
{
}

} // verus!
