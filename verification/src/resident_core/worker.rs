//! The hierarchy and the terminals of the Resident Core, and how the thread
//! that runs them serves a request: at once, or with outside work in between.

use super::control::{missing_session, missing_session_message, session_set};
use super::protocol::{blank_screen, CoreCommandOutcome, UpdateView};
use super::runtime::{
    resident_events, resident_start, tell_resident, ResidentEvent, ResidentSnapshotPlan,
    ResidentTerminal, ResidentView,
};
use super::server::{WorkerRequest, WorkerResponse};
use crate::application_core::exits::{close_pane_of, pane_in_spaces};
use crate::application_core::refresh::Reported;
use crate::application_core::runtime::{error_view, failure_view, unavailable_text, StartError};
use crate::core_model::laws::{law_well_formed_at_start, law_well_formed_kept};
use crate::core_model::model::{empty_model, CoreModel, ModelView};
use crate::core_model::{
    CommandView, CoreCommand, CoreCommit, CoreEffect, CoreSnapshot, DirectoryPath, EffectView,
    TerminalSessionId,
};
use crate::ghostty::{shown_cells, Snapshot};
use crate::sequences::views;
use crate::table::Table;
use crate::terminal::{LifecycleView, TerminalLifecycle, TerminalSize};
use vstd::prelude::*;
use vstd::string::*;

verus! {

/// The hierarchy and what is known of its terminals.
pub struct ResidentRuntime {
    model: CoreModel,
    terminals: Table<ResidentTerminal>,
}

#[verifier::ext_equal]
pub struct ResidentRuntimeView {
    pub model: ModelView,
    pub terminals: Map<u64, ResidentView>,
}

spec fn resident_views(terminals: Map<u64, ResidentTerminal>) -> Map<u64, ResidentView> {
    terminals.map_values(|terminal: ResidentTerminal| terminal@)
}

impl View for ResidentRuntime {
    type V = ResidentRuntimeView;

    closed spec fn view(&self) -> ResidentRuntimeView {
        ResidentRuntimeView { model: self.model@, terminals: resident_views(self.terminals@) }
    }
}

impl ResidentRuntimeView {
    pub open spec fn with_terminal(
        self,
        session: TerminalSessionId,
        terminal: ResidentView,
    ) -> ResidentRuntimeView {
        ResidentRuntimeView { terminals: self.terminals.insert(session.0, terminal), ..self }
    }

    /// After an effect, where starting the process came to `failure`.
    pub open spec fn with_effect(
        self,
        effect: EffectView,
        failure: Option<Seq<char>>,
    ) -> ResidentRuntimeView {
        match effect {
            EffectView::LaunchTerminal { terminal_session_id, .. } => self.with_terminal(
                terminal_session_id,
                match failure {
                    None => resident_start(true, 0, LifecycleView::Running),
                    Some(error) => resident_start(false, 1, LifecycleView::Failed(error)),
                },
            ),
            EffectView::StopTerminal { terminal_session_id } => ResidentRuntimeView {
                terminals: self.terminals.remove(terminal_session_id.0),
                ..self
            },
        }
    }
}

impl ResidentRuntime {
    /// A hierarchy of one Space, and what has to be done for it.
    pub fn start(name: String, directory: DirectoryPath, first_resource_id: u64) -> (result: Result<
        (Self, CoreCommit),
        StartError,
    >)
        requires
            0 < first_resource_id <= u64::MAX - 4,
        ensures
            match empty_model(first_resource_id).applied(
                0,
                CommandView::CreateSpace { name: name@, directory: directory@ },
            ) {
                Ok((model, commit)) => match result {
                    Ok((runtime, actual)) => runtime@ == (ResidentRuntimeView {
                        model,
                        terminals: Map::empty(),
                    }) && actual@ == commit && runtime@.model.well_formed(),
                    Err(_) => false,
                },
                Err(error) => result is Err && result->Err_0 == StartError(error),
            },
    {
        let mut model = CoreModel::with_id_namespace(first_resource_id);
        let command = CoreCommand::CreateSpace { name, directory };
        let ghost before = model@;
        let ghost asked = command@;
        match model.apply(0, command) {
            Err(error) => Err(StartError(error)),
            Ok(commit) => {
                let runtime = ResidentRuntime { model, terminals: Table::new() };
                proof {
                    law_well_formed_at_start(first_resource_id);
                    law_well_formed_kept(before, 0, asked);
                    assert(runtime@.terminals =~= Map::empty());
                }
                Ok((runtime, commit))
            },
        }
    }

    pub fn model_snapshot(&self) -> (snapshot: CoreSnapshot)
        ensures
            snapshot@ == self@.model.snapshot,
    {
        self.model.snapshot()
    }

    /// Whether identities are left for what `command` would create.
    pub fn has_ids_for(&self, expected_revision: u64, command: &CoreCommand) -> (left: bool)
        ensures
            left == (expected_revision == self@.model.snapshot.revision ==> self@.model.has_ids_for(
                command@,
            )),
    {
        self.model.has_ids_for(expected_revision, command)
    }

    pub fn terminal(&self, session: TerminalSessionId) -> (terminal: Option<&ResidentTerminal>)
        ensures
            match terminal {
                Some(terminal) => self@.terminals.contains_key(session.0) && terminal@
                    == self@.terminals[session.0],
                None => !self@.terminals.contains_key(session.0),
            },
    {
        self.terminals.get(session.0)
    }

    /// Takes a terminal out, to be put back changed.
    pub fn take_terminal(&mut self, session: TerminalSessionId) -> (terminal: Option<
        ResidentTerminal,
    >)
        ensures
            match terminal {
                Some(terminal) => old(self)@.terminals.contains_key(session.0) && terminal@ == old(
                    self,
                )@.terminals[session.0],
                None => !old(self)@.terminals.contains_key(session.0),
            },
            final(self)@ == (ResidentRuntimeView {
                terminals: old(self)@.terminals.remove(session.0),
                ..old(self)@
            }),
    {
        let ghost before = self@;
        let taken = self.terminals.remove(session.0);
        proof {
            assert(self@.terminals =~= before.terminals.remove(session.0));
        }
        taken
    }

    pub fn put_terminal(&mut self, session: TerminalSessionId, terminal: ResidentTerminal)
        ensures
            final(self)@ == old(self)@.with_terminal(session, terminal@),
    {
        let ghost before = self@;
        self.terminals.insert(session.0, terminal);
        proof {
            assert(self@.terminals =~= before.terminals.insert(session.0, terminal@));
        }
    }

    /// Notes that an effect was done, with what starting a process came to.
    pub fn note_effect(&mut self, effect: &CoreEffect, failure: Option<String>)
        ensures
            final(self)@ == old(self)@.with_effect(effect@, failure_view(failure)),
    {
        match effect {
            CoreEffect::LaunchTerminal { terminal_session_id, .. } => {
                let terminal = match failure {
                    None => ResidentTerminal::spawned(),
                    Some(error) => ResidentTerminal::failed(error),
                };
                self.put_terminal(*terminal_session_id, terminal);
            },
            CoreEffect::StopTerminal { terminal_session_id } => {
                let _ = self.take_terminal(*terminal_session_id);
            },
        }
    }

    /// Closes the Pane of a session that has ended by itself. Its terminal is
    /// still to be stopped.
    pub fn close_exited(&mut self, session: TerminalSessionId) -> (commit: CoreCommit)
        requires
            old(self)@.model.well_formed(),
            session_set(old(self)@.model.snapshot.sessions).contains(session.0),
        ensures
            ({
                let before = old(self)@.model;
                let pane = pane_in_spaces(before.snapshot.spaces, session)->0;
                let command = CommandView::ClosePane { pane_id: pane.id };
                let (after, expected) = before.applied(before.snapshot.revision, command)->Ok_0;
                &&& before.applied(before.snapshot.revision, command) is Ok
                &&& final(self)@ == (ResidentRuntimeView { model: after, ..old(self)@ })
                &&& commit@ == expected
                &&& expected.effects == seq![
                    EffectView::StopTerminal { terminal_session_id: session },
                ]
                &&& final(self)@.model.well_formed()
            }),
    {
        close_pane_of(&mut self.model, session)
    }
}

/// Notes what is new of a terminal: what taking its output came to, and what
/// its process has reported. Says what is told, and whether the session has
/// ended by itself, so that its Pane is to be closed.
pub fn refresh(
    runtime: &mut ResidentRuntime,
    session: TerminalSessionId,
    drained: Result<bool, String>,
    reported: Vec<Reported>,
) -> (told: (Vec<ResidentEvent>, bool))
    ensures
        final(runtime)@.model == old(runtime)@.model,
        if old(runtime)@.terminals.contains_key(session.0) {
            let before = old(runtime)@.terminals[session.0];
            let after = before.refreshed(error_view(drained), views(reported@));
            &&& final(runtime)@ == old(runtime)@.with_terminal(session, after)
            &&& views(told.0@) == resident_events(session, before, after)
            &&& told.1 == (after.lifecycle != before.lifecycle && after.lifecycle is Exited)
        } else {
            final(runtime)@ == old(runtime)@ && told.0@.len() == 0 && !told.1
        },
{
    let ghost before = runtime@;
    match runtime.take_terminal(session) {
        None => {
            proof {
                assert(before.terminals.remove(session.0) =~= before.terminals);
            }
            (Vec::new(), false)
        },
        Some(mut terminal) => {
            let known = terminal.clone();
            terminal.refresh(drained, reported);
            let (events, ended) = tell_resident(session, &known, &terminal);
            let exited = match terminal.lifecycle() {
                TerminalLifecycle::Exited => true,
                _ => false,
            };
            let ghost after = terminal@;
            runtime.put_terminal(session, terminal);
            proof {
                lemma_put_back(before, session, after);
            }
            (events, ended && exited)
        },
    }
}

/// An answer, and what is told beside it.
pub struct ResidentAnswer {
    pub response: Result<WorkerResponse, String>,
    /// The terminal that has changed, with its revision.
    pub changed: Option<(TerminalSessionId, u64)>,
    /// Whether the thread ends.
    pub stop: bool,
}

/// What a request leads to.
pub enum ResidentServe {
    Reply(ResidentAnswer),
    Input { terminal_session_id: TerminalSessionId, bytes: Vec<u8> },
    Paste { terminal_session_id: TerminalSessionId, bytes: Vec<u8> },
    Resize { terminal_session_id: TerminalSessionId, size: TerminalSize },
    /// The screen is to be rendered.
    Render { terminal_session_id: TerminalSessionId, force_full: bool },
    /// The effects of a command are to be done.
    Effects(CoreCommit),
}

/// Whether a request is answered at once with the given response.
pub open spec fn replies(
    serve: ResidentServe,
    response: Result<WorkerResponse, String>,
    stop: bool,
) -> bool {
    serve == ResidentServe::Reply(ResidentAnswer { response, changed: None, stop })
}

/// Whether a request is refused at once.
pub open spec fn refuses(serve: ResidentServe, error: Seq<char>) -> bool {
    match serve {
        ResidentServe::Reply(answer) => answer.response is Err && answer.response->Err_0@ == error
            && answer.changed is None && !answer.stop,
        _ => false,
    }
}

/// Whether a request that needs the process of a terminal leads to `work`: one
/// to a terminal that is gone is acknowledged without more, and one to a
/// terminal without a process refused.
pub open spec fn serves_live(
    serve: ResidentServe,
    terminals: Map<u64, ResidentView>,
    session: TerminalSessionId,
    work: ResidentServe,
) -> bool {
    if !terminals.contains_key(session.0) {
        replies(serve, Ok(WorkerResponse::Ack), false)
    } else if !terminals[session.0].live {
        refuses(serve, unavailable_text(terminals[session.0].lifecycle))
    } else {
        serve == work
    }
}

/// Whether a question for a terminal is served: with nothing where nothing is
/// new, or the terminal is gone that was known; with a blank screen where there
/// is none; and else after rendering.
pub open spec fn serves_snapshot(
    serve: ResidentServe,
    before: ResidentRuntimeView,
    after: ResidentRuntimeView,
    session: TerminalSessionId,
    since: Option<u64>,
) -> bool {
    if !before.terminals.contains_key(session.0) {
        &&& after == before
        &&& if since is Some {
            replies(serve, Ok(WorkerResponse::Snapshot(None)), false)
        } else {
            refuses(serve, missing_session(session))
        }
    } else {
        let terminal = before.terminals[session.0];
        if since == Some(terminal.revision) {
            replies(serve, Ok(WorkerResponse::Snapshot(None)), false) && after == before
        } else if !terminal.live {
            &&& after == before.with_terminal(
                session,
                ResidentView { last_snapshot_revision: Some(terminal.revision), ..terminal },
            )
            &&& match serve {
                ResidentServe::Reply(answer) => match answer.response {
                    Ok(WorkerResponse::Snapshot(Some(update))) => update@ == blank_screen(
                        terminal.revision,
                        terminal.lifecycle,
                    ) && answer.changed is None && !answer.stop,
                    _ => false,
                },
                _ => false,
            }
        } else {
            &&& after == before
            &&& serve == (ResidentServe::Render {
                terminal_session_id: session,
                force_full: since is None || since != terminal.last_snapshot_revision,
            })
        }
    }
}

/// Whether a request leads to `serve`.
pub open spec fn serves(
    serve: ResidentServe,
    before: ResidentRuntimeView,
    after: ResidentRuntimeView,
    request: WorkerRequest,
) -> bool {
    match request {
        WorkerRequest::Input { terminal_session_id, bytes } => after == before && serves_live(
            serve,
            before.terminals,
            terminal_session_id,
            ResidentServe::Input { terminal_session_id, bytes },
        ),
        WorkerRequest::Paste { terminal_session_id, bytes } => after == before && serves_live(
            serve,
            before.terminals,
            terminal_session_id,
            ResidentServe::Paste { terminal_session_id, bytes },
        ),
        WorkerRequest::Resize { terminal_session_id, size } => after == before && serves_live(
            serve,
            before.terminals,
            terminal_session_id,
            ResidentServe::Resize { terminal_session_id, size },
        ),
        WorkerRequest::Snapshot { terminal_session_id, since } => serves_snapshot(
            serve,
            before,
            after,
            terminal_session_id,
            since,
        ),
        WorkerRequest::CoreSnapshot => {
            &&& after == before
            &&& match serve {
                ResidentServe::Reply(answer) => match answer.response {
                    Ok(WorkerResponse::CoreSnapshot(snapshot)) => snapshot@
                        == before.model.snapshot && answer.changed is None && !answer.stop,
                    _ => false,
                },
                _ => false,
            }
        },
        WorkerRequest::ApplyCoreCommand { expected_revision, command } => {
            match before.model.applied(expected_revision, command@) {
                Ok((model, commit)) => {
                    &&& serve matches ResidentServe::Effects(actual) && actual@ == commit
                    &&& after == (ResidentRuntimeView { model, ..before })
                },
                Err(error) => {
                    &&& replies(serve, Ok(WorkerResponse::CoreCommandRejected(error)), false)
                    &&& after == before
                },
            }
        },
        WorkerRequest::Stop => replies(serve, Ok(WorkerResponse::Ack), true) && after == before,
    }
}

/// Whether there are identities left for what a request creates.
pub open spec fn has_ids(model: ModelView, request: WorkerRequest) -> bool {
    match request {
        WorkerRequest::ApplyCoreCommand { expected_revision, command } => expected_revision
            == model.snapshot.revision ==> model.has_ids_for(command@),
        _ => true,
    }
}

fn reply(response: Result<WorkerResponse, String>) -> (serve: ResidentServe)
    ensures
        replies(serve, response, false),
{
    ResidentServe::Reply(ResidentAnswer { response, changed: None, stop: false })
}

/// Why a request that needs the process of a terminal is answered at once, if
/// so.
fn refuse(runtime: &ResidentRuntime, session: TerminalSessionId) -> (refusal: Option<
    ResidentServe,
>)
    ensures
        match refusal {
            Some(serve) => forall|work: ResidentServe|
                serves_live(serve, runtime@.terminals, session, work),
            None => runtime@.terminals.contains_key(session.0)
                && runtime@.terminals[session.0].live,
        },
{
    match runtime.terminal(session) {
        None => Some(reply(Ok(WorkerResponse::Ack))),
        Some(terminal) => match terminal.check_live() {
            Ok(()) => None,
            Err(error) => Some(reply(Err(error))),
        },
    }
}

fn begin_snapshot(
    runtime: &mut ResidentRuntime,
    session: TerminalSessionId,
    since: Option<u64>,
) -> (serve: ResidentServe)
    ensures
        serves_snapshot(serve, old(runtime)@, final(runtime)@, session, since),
{
    let ghost before = runtime@;
    match runtime.take_terminal(session) {
        None => {
            proof {
                assert(before.terminals.remove(session.0) =~= before.terminals);
            }
            if since.is_some() {
                reply(Ok(WorkerResponse::Snapshot(None)))
            } else {
                reply(Err(missing_session_message(session)))
            }
        },
        Some(mut terminal) => {
            let plan = terminal.plan_snapshot(since);
            let ghost planned = terminal@;
            runtime.put_terminal(session, terminal);
            proof {
                lemma_put_back(before, session, planned);
            }
            match plan {
                ResidentSnapshotPlan::Unchanged => reply(Ok(WorkerResponse::Snapshot(None))),
                ResidentSnapshotPlan::Blank(update) => reply(
                    Ok(WorkerResponse::Snapshot(Some(update))),
                ),
                ResidentSnapshotPlan::Render { force_full } => ResidentServe::Render {
                    terminal_session_id: session,
                    force_full,
                },
            }
        },
    }
}

proof fn lemma_put_back(
    runtime: ResidentRuntimeView,
    session: TerminalSessionId,
    terminal: ResidentView,
)
    requires
        runtime.terminals.contains_key(session.0),
    ensures
        runtime.terminals.remove(session.0).insert(session.0, terminal)
            == runtime.terminals.insert(session.0, terminal),
        terminal == runtime.terminals[session.0] ==> runtime.terminals.insert(session.0, terminal)
            == runtime.terminals,
{
    assert(runtime.terminals.remove(session.0).insert(session.0, terminal)
        =~= runtime.terminals.insert(session.0, terminal));
    if terminal == runtime.terminals[session.0] {
        assert(runtime.terminals.insert(session.0, terminal) =~= runtime.terminals);
    }
}

/// Begins to serve a request.
pub fn begin(runtime: &mut ResidentRuntime, request: WorkerRequest) -> (serve: ResidentServe)
    requires
        has_ids(old(runtime)@.model, request),
    ensures
        serves(serve, old(runtime)@, final(runtime)@, request),
        old(runtime)@.model.well_formed() ==> final(runtime)@.model.well_formed(),
{
    match request {
        WorkerRequest::Input { terminal_session_id, bytes } => match refuse(
            runtime,
            terminal_session_id,
        ) {
            Some(serve) => serve,
            None => ResidentServe::Input { terminal_session_id, bytes },
        },
        WorkerRequest::Paste { terminal_session_id, bytes } => match refuse(
            runtime,
            terminal_session_id,
        ) {
            Some(serve) => serve,
            None => ResidentServe::Paste { terminal_session_id, bytes },
        },
        WorkerRequest::Resize { terminal_session_id, size } => match refuse(
            runtime,
            terminal_session_id,
        ) {
            Some(serve) => serve,
            None => ResidentServe::Resize { terminal_session_id, size },
        },
        WorkerRequest::Snapshot { terminal_session_id, since } => begin_snapshot(
            runtime,
            terminal_session_id,
            since,
        ),
        WorkerRequest::CoreSnapshot => reply(
            Ok(WorkerResponse::CoreSnapshot(runtime.model_snapshot())),
        ),
        WorkerRequest::ApplyCoreCommand { expected_revision, command } => {
            let ghost before = runtime@.model;
            let ghost asked = command@;
            match runtime.model.apply(expected_revision, command) {
                Ok(commit) => {
                    proof {
                        if before.well_formed() {
                            law_well_formed_kept(before, expected_revision, asked);
                        }
                    }
                    ResidentServe::Effects(commit)
                },
                Err(error) => reply(Ok(WorkerResponse::CoreCommandRejected(error))),
            }
        },
        WorkerRequest::Stop => ResidentServe::Reply(
            ResidentAnswer { response: Ok(WorkerResponse::Ack), changed: None, stop: true },
        ),
    }
}

/// The answer after input was handed over.
pub fn finish_input(result: Result<(), String>) -> (answer: ResidentAnswer)
    ensures
        answer.changed is None && !answer.stop,
        match result {
            Ok(()) => answer.response == Ok::<WorkerResponse, String>(WorkerResponse::Ack),
            Err(error) => answer.response == Err::<WorkerResponse, String>(error),
        },
{
    let response = match result {
        Ok(()) => Ok(WorkerResponse::Ack),
        Err(error) => Err(error),
    };
    ResidentAnswer { response, changed: None, stop: false }
}

/// Whether `answer` acknowledges a change of a terminal and tells of it, or
/// reports the error.
pub open spec fn answers_change(
    answer: ResidentAnswer,
    session: TerminalSessionId,
    revision: u64,
    result: Result<bool, Seq<char>>,
) -> bool {
    &&& !answer.stop
    &&& match result {
        Ok(changed) => {
            &&& answer.response == Ok::<WorkerResponse, String>(WorkerResponse::Ack)
            &&& answer.changed == if changed {
                Some((session, revision))
            } else {
                None
            }
        },
        Err(error) => answer.changed is None && answer.response is Err && answer.response->Err_0@
            == error,
    }
}

fn answer_change(
    session: TerminalSessionId,
    revision: u64,
    result: Result<bool, String>,
) -> (answer: ResidentAnswer)
    ensures
        answers_change(answer, session, revision, error_view(result)),
{
    match result {
        Ok(changed) => ResidentAnswer {
            response: Ok(WorkerResponse::Ack),
            changed: if changed {
                Some((session, revision))
            } else {
                None
            },
            stop: false,
        },
        Err(error) => ResidentAnswer { response: Err(error), changed: None, stop: false },
    }
}

/// The answer after a paste: what came of taking the output before it, and of
/// the paste itself where that went well.
pub fn finish_paste(
    runtime: &mut ResidentRuntime,
    session: TerminalSessionId,
    drained: Result<bool, String>,
    pasted: Result<(), String>,
) -> (answer: ResidentAnswer)
    ensures
        if old(runtime)@.terminals.contains_key(session.0) {
            let before = old(runtime)@.terminals[session.0];
            let after = if error_view(drained) == Ok::<bool, Seq<char>>(true) {
                before.bumped()
            } else {
                before
            };
            &&& final(runtime)@ == old(runtime)@.with_terminal(session, after)
            &&& answers_change(
                answer,
                session,
                after.revision,
                match (error_view(drained), error_view(pasted)) {
                    (Err(error), _) => Err(error),
                    (Ok(_), Err(error)) => Err(error),
                    (Ok(changed), Ok(())) => Ok(changed),
                },
            )
        } else {
            final(runtime)@ == old(runtime)@ && answers_change(
                answer,
                session,
                0,
                Err(missing_session(session)),
            )
        },
{
    let ghost before = runtime@;
    match runtime.take_terminal(session) {
        None => {
            proof {
                assert(before.terminals.remove(session.0) =~= before.terminals);
            }
            answer_change(session, 0, Err(missing_session_message(session)))
        },
        Some(mut terminal) => {
            let outcome = terminal.note_paste(drained, pasted);
            let revision = terminal.revision();
            let ghost after = terminal@;
            runtime.put_terminal(session, terminal);
            proof {
                lemma_put_back(before, session, after);
            }
            answer_change(session, revision, outcome)
        },
    }
}

/// The answer after a size was asked for: it was applied with the given result,
/// or is the one that the terminal had.
pub fn finish_resize(
    runtime: &mut ResidentRuntime,
    session: TerminalSessionId,
    applied: Option<Result<(), String>>,
) -> (answer: ResidentAnswer)
    ensures
        if old(runtime)@.terminals.contains_key(session.0) {
            let before = old(runtime)@.terminals[session.0];
            match applied {
                None => final(runtime)@ == old(runtime)@ && answers_change(
                    answer,
                    session,
                    before.revision,
                    Ok(false),
                ),
                Some(result) => final(runtime)@ == old(runtime)@.with_terminal(
                    session,
                    before.bumped(),
                ) && answers_change(
                    answer,
                    session,
                    before.bumped().revision,
                    match error_view(result) {
                        Ok(()) => Ok(true),
                        Err(error) => Err(error),
                    },
                ),
            }
        } else {
            final(runtime)@ == old(runtime)@ && answers_change(
                answer,
                session,
                0,
                Err(missing_session(session)),
            )
        },
{
    let ghost before = runtime@;
    match runtime.take_terminal(session) {
        None => {
            proof {
                assert(before.terminals.remove(session.0) =~= before.terminals);
            }
            answer_change(session, 0, Err(missing_session_message(session)))
        },
        Some(mut terminal) => {
            let outcome = match applied {
                None => Ok(false),
                Some(result) => terminal.note_resize(result),
            };
            let revision = terminal.revision();
            let ghost after = terminal@;
            runtime.put_terminal(session, terminal);
            proof {
                lemma_put_back(before, session, after);
            }
            answer_change(session, revision, outcome)
        },
    }
}

/// The answer after the screen was rendered.
pub fn finish_render(
    runtime: &mut ResidentRuntime,
    session: TerminalSessionId,
    result: Result<Snapshot, String>,
) -> (answer: ResidentAnswer)
    ensures
        answer.changed is None && !answer.stop,
        if !old(runtime)@.terminals.contains_key(session.0) {
            final(runtime)@ == old(runtime)@ && answer.response is Err && answer.response->Err_0@
                == missing_session(session)
        } else {
            let before = old(runtime)@.terminals[session.0];
            match result {
                Err(error) => final(runtime)@ == old(runtime)@ && answer.response == Err::<
                    WorkerResponse,
                    String,
                >(error),
                Ok(snapshot) => {
                    &&& final(runtime)@ == old(runtime)@.with_terminal(
                        session,
                        ResidentView { last_snapshot_revision: Some(before.revision), ..before },
                    )
                    &&& match answer.response {
                        Ok(WorkerResponse::Snapshot(Some(update))) => update@ == (UpdateView {
                            base_revision: if snapshot.full {
                                None
                            } else {
                                before.last_snapshot_revision
                            },
                            revision: before.revision,
                            lifecycle: before.lifecycle,
                            cols: snapshot.cols,
                            rows: snapshot.rows,
                            cursor: snapshot.cursor,
                            default_fg: snapshot.default_fg@,
                            default_bg: snapshot.default_bg@,
                            dirty_rows: snapshot.dirty_rows@,
                            cells: shown_cells(snapshot.cells@),
                        }),
                        _ => false,
                    }
                },
            }
        },
{
    let ghost before = runtime@;
    match runtime.take_terminal(session) {
        None => {
            proof {
                assert(before.terminals.remove(session.0) =~= before.terminals);
            }
            ResidentAnswer {
                response: Err(missing_session_message(session)),
                changed: None,
                stop: false,
            }
        },
        Some(mut terminal) => {
            let response = match result {
                Err(error) => Err(error),
                Ok(snapshot) => Ok(
                    WorkerResponse::Snapshot(Some(terminal.finish_snapshot(snapshot))),
                ),
            };
            let ghost after = terminal@;
            runtime.put_terminal(session, terminal);
            proof {
                lemma_put_back(before, session, after);
            }
            ResidentAnswer { response, changed: None, stop: false }
        },
    }
}

/// The answer after the effects of a command were done. The leases are filled
/// in by those who keep them.
pub fn finish_effects(commit: CoreCommit) -> (answer: ResidentAnswer)
    ensures
        answer.changed is None && !answer.stop,
        match answer.response {
            Ok(WorkerResponse::CoreCommandAccepted(outcome)) => outcome.revision
                == commit.revision && outcome.snapshot == commit.snapshot && outcome.created
                == commit.created && outcome.control_leases@.len() == 0,
            _ => false,
        },
{
    ResidentAnswer {
        response: Ok(
            WorkerResponse::CoreCommandAccepted(
                CoreCommandOutcome {
                    revision: commit.revision,
                    snapshot: commit.snapshot,
                    created: commit.created,
                    control_leases: Vec::new(),
                },
            ),
        ),
        changed: None,
        stop: false,
    }
}

/// A terminal that is gone is no error: what was still on its way to it is
/// acknowledged, and whoever knew it learns that there is nothing new.
pub proof fn law_gone_terminals_are_no_error(
    serve: ResidentServe,
    before: ResidentRuntimeView,
    after: ResidentRuntimeView,
    request: WorkerRequest,
)
    requires
        serves(serve, before, after, request),
        match request {
            WorkerRequest::Input { terminal_session_id, .. } => !before.terminals.contains_key(
                terminal_session_id.0,
            ),
            WorkerRequest::Paste { terminal_session_id, .. } => !before.terminals.contains_key(
                terminal_session_id.0,
            ),
            WorkerRequest::Resize { terminal_session_id, .. } => !before.terminals.contains_key(
                terminal_session_id.0,
            ),
            WorkerRequest::Snapshot { terminal_session_id, since } => since is Some
                && !before.terminals.contains_key(terminal_session_id.0),
            _ => false,
        },
    ensures
        serve is Reply && serve->Reply_0.response is Ok,
        after == before,
{
}

/// Input, pastes and sizes reach a terminal that has a process as they were sent,
/// and one without a process refuses them for what became of it.
pub proof fn law_live_terminals_get_what_is_sent(
    serve: ResidentServe,
    before: ResidentRuntimeView,
    after: ResidentRuntimeView,
    request: WorkerRequest,
)
    requires
        serves(serve, before, after, request),
        request is Input || request is Paste || request is Resize,
    ensures
        ({
            let (session, work) = match request {
                WorkerRequest::Input { terminal_session_id, bytes } => (
                    terminal_session_id,
                    ResidentServe::Input { terminal_session_id, bytes },
                ),
                WorkerRequest::Paste { terminal_session_id, bytes } => (
                    terminal_session_id,
                    ResidentServe::Paste { terminal_session_id, bytes },
                ),
                WorkerRequest::Resize { terminal_session_id, size } => (
                    terminal_session_id,
                    ResidentServe::Resize { terminal_session_id, size },
                ),
                _ => (TerminalSessionId(0), serve),
            };
            let known = before.terminals.contains_key(session.0);
            let terminal = before.terminals[session.0];
            let refused = known && !terminal.live;
            &&& after == before
            &&& known && terminal.live ==> serve == work
            &&& !(known && terminal.live) ==> serve is Reply && !serve->Reply_0.stop
                && serve->Reply_0.changed is None
            &&& refused ==> serve->Reply_0.response is Err
            &&& refused && terminal.lifecycle is Exited ==> serve->Reply_0.response->Err_0@
                == "Terminal Session has exited"@
            &&& refused && terminal.lifecycle is Failed ==> serve->Reply_0.response->Err_0@
                == "Terminal Session failed: "@ + terminal.lifecycle->Failed_0
        }),
{
}

/// Who knows the revision of a terminal is told that nothing is new. Else a screen
/// is rendered where there is a process: all of it for who has not seen the one
/// that was rendered last.
pub proof fn law_only_what_is_new_is_rendered(
    serve: ResidentServe,
    before: ResidentRuntimeView,
    after: ResidentRuntimeView,
    session: TerminalSessionId,
    since: Option<u64>,
)
    requires
        serves(
            serve,
            before,
            after,
            WorkerRequest::Snapshot { terminal_session_id: session, since },
        ),
        before.terminals.contains_key(session.0),
        before.terminals[session.0].live,
    ensures
        ({
            let terminal = before.terminals[session.0];
            &&& after == before
            &&& since == Some(terminal.revision) ==> serve is Reply
                && serve->Reply_0.response == Ok::<WorkerResponse, String>(
                WorkerResponse::Snapshot(None),
            )
            &&& since != Some(terminal.revision) ==> {
                &&& serve matches ResidentServe::Render { terminal_session_id, force_full }
                &&& terminal_session_id == session
                &&& !force_full <==> since is Some && since == terminal.last_snapshot_revision
            }
        }),
{
}

/// A command on the hierarchy is applied, and its effects are done, or it is
/// rejected with the error and changes nothing; no terminal changes before its
/// effects are done.
pub proof fn law_commands_are_applied_or_rejected(
    serve: ResidentServe,
    before: ResidentRuntimeView,
    after: ResidentRuntimeView,
    expected_revision: u64,
    command: CoreCommand,
)
    requires
        serves(
            serve,
            before,
            after,
            WorkerRequest::ApplyCoreCommand { expected_revision, command },
        ),
    ensures
        after.terminals == before.terminals,
        expected_revision != before.model.snapshot.revision ==> serve is Reply && after == before,
        match before.model.applied(expected_revision, command@) {
            Ok((model, commit)) => {
                &&& after.model == model
                &&& serve matches ResidentServe::Effects(told)
                &&& told@ == commit
            },
            Err(error) => {
                &&& after.model == before.model
                &&& serve matches ResidentServe::Reply(answer)
                &&& answer.response == Ok::<WorkerResponse, String>(
                    WorkerResponse::CoreCommandRejected(error),
                )
            },
        },
{
}

/// Only a request to stop ends the thread, and it is acknowledged.
pub proof fn law_only_stopping_stops(
    serve: ResidentServe,
    before: ResidentRuntimeView,
    after: ResidentRuntimeView,
    request: WorkerRequest,
)
    requires
        serves(serve, before, after, request),
    ensures
        serve is Reply && serve->Reply_0.stop <==> request is Stop,
        request is Stop ==> serve->Reply_0.response == Ok::<WorkerResponse, String>(
            WorkerResponse::Ack,
        ) && after == before,
{
}

/// A session that was launched has a running terminal, or one that failed for why
/// it could not start; a session that was stopped has none. No other is touched.
pub proof fn law_launched_sessions_have_terminals(
    runtime: ResidentRuntimeView,
    effect: EffectView,
    failure: Option<Seq<char>>,
    other: u64,
)
    ensures
        ({
            let after = runtime.with_effect(effect, failure);
            let (session, launched) = match effect {
                EffectView::LaunchTerminal { terminal_session_id, .. } => (
                    terminal_session_id.0,
                    true,
                ),
                EffectView::StopTerminal { terminal_session_id } => (terminal_session_id.0, false),
            };
            let terminal = after.terminals[session];
            &&& after.model == runtime.model
            &&& after.terminals.contains_key(session) == launched
            &&& launched && failure is None ==> terminal.live && terminal.lifecycle
                == LifecycleView::Running && terminal.revision == 0
            &&& launched && failure is Some ==> !terminal.live && terminal.lifecycle
                == LifecycleView::Failed(failure->0) && terminal.revision == 1
            &&& launched ==> terminal.last_snapshot_revision is None
            &&& other != session ==> {
                &&& after.terminals.contains_key(other) == runtime.terminals.contains_key(other)
                &&& after.terminals[other] == runtime.terminals[other]
            }
        }),
{
}

} // verus!
