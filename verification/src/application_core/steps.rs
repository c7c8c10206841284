//! How the thread that runs the terminals serves a request: at once, or with
//! outside work in between.

use super::runtime::{
    error_view, lifecycle_error, unavailable_text, CoreRuntime, CoreRuntimeView, RuntimeView,
    SnapshotPlan,
};
use super::worker::{change_after, command_reply, WorkerRequest, WorkerResponse};
use super::{blank_update, rendered_update, TerminalChange};
use crate::agent_integration::AgentProgram;
use crate::core_model::model::ModelView;
use crate::core_model::{CoreCommand, CoreCommit, TerminalSessionId};
use crate::ghostty::Snapshot;
use crate::resident_core::control::{missing_session, missing_session_message};
use crate::terminal::{TerminalSize, TerminalTheme};
use vstd::prelude::*;
use vstd::string::*;

verus! {

/// An answer, and what is told beside it.
pub struct Answer {
    pub response: Result<WorkerResponse, String>,
    pub change: Option<TerminalChange>,
    /// Whether the thread ends.
    pub stop: bool,
}

/// What a request leads to.
pub enum Serve {
    Reply(Answer),
    Input { terminal_session_id: TerminalSessionId, bytes: Vec<u8> },
    Paste { terminal_session_id: TerminalSessionId, bytes: Vec<u8> },
    Resize { terminal_session_id: TerminalSessionId, size: TerminalSize },
    /// The colors of these terminals are to be set, one after the other.
    Theme { theme: TerminalTheme, sessions: Vec<TerminalSessionId> },
    /// The screen is to be rendered.
    Render { terminal_session_id: TerminalSessionId, force_full: bool },
    /// The effects of a command are to be done.
    Effects(CoreCommit),
}

/// Whether a request is answered at once with the given response.
pub open spec fn replies(serve: Serve, response: Result<WorkerResponse, String>, stop: bool) -> bool {
    serve == Serve::Reply(Answer { response, change: None, stop })
}

/// Whether a request is refused at once.
pub open spec fn refuses(serve: Serve, error: Seq<char>) -> bool {
    match serve {
        Serve::Reply(answer) => {
            &&& answer.response is Err && answer.response->Err_0@ == error
            &&& answer.change is None
            &&& !answer.stop
        },
        _ => false,
    }
}

/// Whether a request that needs the process of a terminal leads to `work`: one
/// to a terminal that is gone is acknowledged without more, and one to a
/// terminal without a process refused.
pub open spec fn serves_live(
    serve: Serve,
    terminals: Map<u64, RuntimeView>,
    session: TerminalSessionId,
    work: Serve,
) -> bool {
    if !terminals.contains_key(session.0) {
        replies(serve, Ok(WorkerResponse::Ack), false)
    } else if !terminals[session.0].live {
        refuses(serve, unavailable_text(terminals[session.0].lifecycle))
    } else {
        serve == work
    }
}

/// Whether a question for a terminal is served: with nothing where nothing is
/// new, or the terminal is gone that was known; with a blank screen where there
/// is none; and else after rendering.
pub open spec fn serves_snapshot(
    serve: Serve,
    before: CoreRuntimeView,
    after: CoreRuntimeView,
    session: TerminalSessionId,
    since: Option<u64>,
) -> bool {
    if !before.terminals.contains_key(session.0) {
        &&& after == before
        &&& if since is Some {
            replies(serve, Ok(WorkerResponse::Snapshot(None)), false)
        } else {
            refuses(serve, missing_session(session))
        }
    } else {
        let terminal = before.terminals[session.0];
        if since == Some(terminal.revision) {
            replies(serve, Ok(WorkerResponse::Snapshot(None)), false) && after == before
        } else if !terminal.live {
            &&& after == (CoreRuntimeView {
                terminals: before.terminals.insert(
                    session.0,
                    RuntimeView { last_snapshot_revision: Some(terminal.revision), ..terminal },
                ),
                ..before
            })
            &&& match serve {
                Serve::Reply(answer) => match answer.response {
                    Ok(WorkerResponse::Snapshot(Some(update))) => update@ == blank_update(
                        terminal.revision,
                        terminal.lifecycle,
                    ) && answer.change is None && !answer.stop,
                    _ => false,
                },
                _ => false,
            }
        } else {
            &&& after == before
            &&& serve == (Serve::Render {
                terminal_session_id: session,
                force_full: since is None || since != terminal.last_snapshot_revision,
            })
        }
    }
}

/// Whether `sessions` are those that have processes, in order.
pub open spec fn lists_live(
    sessions: Seq<TerminalSessionId>,
    terminals: Map<u64, RuntimeView>,
) -> bool {
    &&& forall|id: u64|
        sessions.contains(TerminalSessionId(id)) <==> #[trigger] terminals.contains_key(id)
            && terminals[id].live
    &&& forall|i: int, j: int|
        0 <= i < j < sessions.len() ==> (#[trigger] sessions[i]).0 < (#[trigger] sessions[j]).0
}

/// Whether a request leads to `serve`.
pub open spec fn serves(
    serve: Serve,
    before: CoreRuntimeView,
    after: CoreRuntimeView,
    request: WorkerRequest,
) -> bool {
    match request {
        WorkerRequest::Input { terminal_session_id, bytes } => after == before && serves_live(
            serve,
            before.terminals,
            terminal_session_id,
            Serve::Input { terminal_session_id, bytes },
        ),
        WorkerRequest::Paste { terminal_session_id, bytes } => after == before && serves_live(
            serve,
            before.terminals,
            terminal_session_id,
            Serve::Paste { terminal_session_id, bytes },
        ),
        WorkerRequest::Resize { terminal_session_id, size } => after == before && serves_live(
            serve,
            before.terminals,
            terminal_session_id,
            Serve::Resize { terminal_session_id, size },
        ),
        WorkerRequest::SetTerminalTheme { theme } => {
            &&& after == before
            &&& match serve {
                Serve::Theme { theme: asked, sessions } => asked == theme && lists_live(
                    sessions@,
                    before.terminals,
                ),
                _ => false,
            }
        },
        WorkerRequest::Snapshot { terminal_session_id, since } => serves_snapshot(
            serve,
            before,
            after,
            terminal_session_id,
            since,
        ),
        WorkerRequest::CoreSnapshot => {
            &&& after == before
            &&& match serve {
                Serve::Reply(answer) => match answer.response {
                    Ok(WorkerResponse::CoreSnapshot(snapshot)) => snapshot@
                        == before.model.snapshot && answer.change is None && !answer.stop,
                    _ => false,
                },
                _ => false,
            }
        },
        WorkerRequest::ApplyCoreCommand { expected_revision, command } => {
            match before.model.applied(expected_revision, command@) {
                Ok((model, commit)) => {
                    &&& serve matches Serve::Effects(actual) && actual@ == commit
                    &&& after == (CoreRuntimeView { model, ..before })
                },
                Err(error) => {
                    &&& replies(serve, Ok(WorkerResponse::CoreCommandRejected(error)), false)
                    &&& after == before
                },
            }
        },
        WorkerRequest::Stop => replies(serve, Ok(WorkerResponse::Ack), true) && after == before,
    }
}

fn reply(response: Result<WorkerResponse, String>) -> (serve: Serve)
    ensures
        replies(serve, response, false),
{
    Serve::Reply(Answer { response, change: None, stop: false })
}

/// Why a request that needs the process of a terminal is answered at once, if
/// so.
fn refuse(runtime: &CoreRuntime, session: TerminalSessionId) -> (refusal: Option<Serve>)
    ensures
        match refusal {
            Some(serve) => forall|work: Serve|
                serves_live(serve, runtime@.terminals, session, work),
            None => runtime@.terminals.contains_key(session.0)
                && runtime@.terminals[session.0].live,
        },
{
    match runtime.terminal(session) {
        None => Some(reply(Ok(WorkerResponse::Ack))),
        Some(terminal) => if terminal.live {
            None
        } else {
            Some(reply(Err(lifecycle_error(&terminal.lifecycle))))
        },
    }
}

fn live_sessions(runtime: &CoreRuntime) -> (live: Vec<TerminalSessionId>)
    ensures
        lists_live(live@, runtime@.terminals),
{
    let sessions = runtime.sessions();
    let mut live: Vec<TerminalSessionId> = Vec::new();
    let mut index: usize = 0;
    while index < sessions.len()
        invariant
            index <= sessions@.len(),
            forall|i: int, j: int|
                0 <= i < j < sessions@.len() ==> (#[trigger] sessions@[i]).0 < (
                #[trigger] sessions@[j]).0,
            forall|i: int, j: int|
                0 <= i < j < live@.len() ==> (#[trigger] live@[i]).0 < (#[trigger] live@[j]).0,
            forall|i: int, j: int|
                0 <= i < live@.len() && index <= j < sessions@.len() ==> (#[trigger] live@[i]).0
                    < (#[trigger] sessions@[j]).0,
            forall|i: int|
                0 <= i < live@.len() ==> runtime@.terminals.contains_key((#[trigger] live@[i]).0)
                    && runtime@.terminals[live@[i].0].live,
            forall|i: int|
                0 <= i < index && runtime@.terminals.contains_key((#[trigger] sessions@[i]).0)
                    && runtime@.terminals[sessions@[i].0].live ==> live@.contains(sessions@[i]),
        decreases sessions@.len() - index,
    {
        let session = sessions[index];
        let ghost before = live@;
        if let Some(terminal) = runtime.terminal(session) {
            if terminal.live {
                live.push(session);
            }
        }
        proof {
            assert forall|i: int|
                0 <= i < index + 1 && runtime@.terminals.contains_key((#[trigger] sessions@[i]).0)
                    && runtime@.terminals[sessions@[i].0].live implies live@.contains(
                sessions@[i],
            ) by {
                if i < index {
                    let j = before.index_of(sessions@[i]);
                    assert(live@[j] == sessions@[i]);
                } else {
                    assert(live@[live@.len() - 1] == sessions@[i]);
                }
            }
        }
        index += 1;
    }
    proof {
        assert forall|id: u64|
            live@.contains(TerminalSessionId(id)) <==> #[trigger] runtime@.terminals.contains_key(
                id,
            ) && runtime@.terminals[id].live by {
            if live@.contains(TerminalSessionId(id)) {
                let i = live@.index_of(TerminalSessionId(id));
                assert(live@[i].0 == id);
            }
            if runtime@.terminals.contains_key(id) {
                assert(sessions@.contains(TerminalSessionId(id)));
                let i = sessions@.index_of(TerminalSessionId(id));
                assert(sessions@[i].0 == id);
            }
        }
    }
    live
}

fn begin_snapshot(runtime: &mut CoreRuntime, session: TerminalSessionId, since: Option<u64>) -> (
serve: Serve)
    ensures
        serves_snapshot(serve, old(runtime)@, final(runtime)@, session, since),
{
    let ghost before = runtime@;
    match runtime.take_terminal(session) {
        Err(_) => {
            proof {
                assert(before.terminals.remove(session.0) =~= before.terminals);
            }
            if since.is_some() {
                reply(Ok(WorkerResponse::Snapshot(None)))
            } else {
                reply(Err(missing_session_message(session)))
            }
        },
        Ok(mut terminal) => {
            let plan = terminal.plan_snapshot(since);
            let ghost planned = terminal@;
            runtime.put_terminal(session, terminal);
            proof {
                assert(before.terminals.remove(session.0).insert(session.0, planned)
                    =~= before.terminals.insert(session.0, planned));
                if planned == before.terminals[session.0] {
                    assert(before.terminals.insert(session.0, planned) =~= before.terminals);
                }
            }
            match plan {
                SnapshotPlan::Unchanged => reply(Ok(WorkerResponse::Snapshot(None))),
                SnapshotPlan::Blank(update) => reply(Ok(WorkerResponse::Snapshot(Some(update)))),
                SnapshotPlan::Render { force_full } => Serve::Render {
                    terminal_session_id: session,
                    force_full,
                },
            }
        },
    }
}

/// Whether there are identities left for what a request creates.
pub open spec fn has_ids(model: ModelView, request: WorkerRequest) -> bool {
    match request {
        WorkerRequest::ApplyCoreCommand { expected_revision, command } => expected_revision
            == model.snapshot.revision ==> model.has_ids_for(command@),
        _ => true,
    }
}

/// Begins to serve a request.
pub fn begin(runtime: &mut CoreRuntime, request: WorkerRequest) -> (serve: Serve)
    requires
        has_ids(old(runtime)@.model, request),
    ensures
        serves(serve, old(runtime)@, final(runtime)@, request),
        old(runtime)@.model.well_formed() ==> final(runtime)@.model.well_formed(),
{
    match request {
        WorkerRequest::Input { terminal_session_id, bytes } => match refuse(
            runtime,
            terminal_session_id,
        ) {
            Some(serve) => serve,
            None => Serve::Input { terminal_session_id, bytes },
        },
        WorkerRequest::Paste { terminal_session_id, bytes } => match refuse(
            runtime,
            terminal_session_id,
        ) {
            Some(serve) => serve,
            None => Serve::Paste { terminal_session_id, bytes },
        },
        WorkerRequest::Resize { terminal_session_id, size } => match refuse(
            runtime,
            terminal_session_id,
        ) {
            Some(serve) => serve,
            None => Serve::Resize { terminal_session_id, size },
        },
        WorkerRequest::SetTerminalTheme { theme } => Serve::Theme {
            theme,
            sessions: live_sessions(runtime),
        },
        WorkerRequest::Snapshot { terminal_session_id, since } => begin_snapshot(
            runtime,
            terminal_session_id,
            since,
        ),
        WorkerRequest::CoreSnapshot => reply(
            Ok(WorkerResponse::CoreSnapshot(runtime.model_snapshot())),
        ),
        WorkerRequest::ApplyCoreCommand { expected_revision, command } => {
            match runtime.apply(expected_revision, command) {
                Ok(commit) => Serve::Effects(commit),
                Err(error) => reply(Ok(WorkerResponse::CoreCommandRejected(error))),
            }
        },
        WorkerRequest::Stop => Serve::Reply(
            Answer { response: Ok(WorkerResponse::Ack), change: None, stop: true },
        ),
    }
}

/// The answer after input was handed over.
pub fn finish_input(result: Result<(), String>) -> (answer: Answer)
    ensures
        answer.change is None && !answer.stop,
        match result {
            Ok(()) => answer.response == Ok::<WorkerResponse, String>(WorkerResponse::Ack),
            Err(error) => answer.response == Err::<WorkerResponse, String>(error),
        },
{
    let response = match result {
        Ok(()) => Ok(WorkerResponse::Ack),
        Err(error) => Err(error),
    };
    Answer { response, change: None, stop: false }
}

/// Whether `answer` acknowledges a change of a terminal and tells of it, or
/// reports the error.
pub open spec fn answers_change(
    answer: Answer,
    after: CoreRuntimeView,
    session: TerminalSessionId,
    result: Result<bool, Seq<char>>,
) -> bool {
    &&& !answer.stop
    &&& match result {
        Ok(changed) => {
            &&& answer.response == Ok::<WorkerResponse, String>(WorkerResponse::Ack)
            &&& answer.change == if changed {
                Some(
                    TerminalChange {
                        terminal_session_id: session,
                        terminal_revision: after.terminals[session.0].revision,
                    },
                )
            } else {
                None
            }
        },
        Err(error) => answer.change is None && answer.response is Err && answer.response->Err_0@
            == error,
    }
}

fn answer_change(
    runtime: &CoreRuntime,
    session: TerminalSessionId,
    result: Result<bool, String>,
) -> (answer: Answer)
    requires
        runtime@.terminals.contains_key(session.0),
    ensures
        answers_change(answer, runtime@, session, error_view(result)),
{
    let change = change_after(runtime, session, &result);
    Answer { response: super::worker::change_reply(result), change, stop: false }
}

/// The answer after a paste: whether output was taken before it.
pub fn finish_paste(
    runtime: &mut CoreRuntime,
    session: TerminalSessionId,
    result: Result<bool, String>,
) -> (answer: Answer)
    ensures
        if old(runtime)@.terminals.contains_key(session.0) {
            let before = old(runtime)@.terminals[session.0];
            let pasted = if error_view(result) == Ok::<bool, Seq<char>>(false) {
                before
            } else {
                before.bumped()
            };
            &&& final(runtime)@ == (CoreRuntimeView {
                terminals: old(runtime)@.terminals.insert(session.0, pasted),
                ..old(runtime)@
            })
            &&& answers_change(answer, final(runtime)@, session, error_view(result))
        } else {
            final(runtime)@ == old(runtime)@ && answers_change(
                answer,
                old(runtime)@,
                session,
                Err(missing_session(session)),
            )
        },
{
    let ghost before = runtime@;
    match runtime.take_terminal(session) {
        Err(error) => {
            proof {
                assert(before.terminals.remove(session.0) =~= before.terminals);
            }
            Answer { response: Err(error), change: None, stop: false }
        },
        Ok(mut terminal) => {
            let outcome = terminal.note_paste(result);
            let ghost pasted = terminal@;
            runtime.put_terminal(session, terminal);
            proof {
                assert(before.terminals.remove(session.0).insert(session.0, pasted)
                    =~= before.terminals.insert(session.0, pasted));
            }
            answer_change(runtime, session, outcome)
        },
    }
}

/// The answer after a size was applied, or asked for again: the terminal counts
/// as changed.
pub fn finish_resize(
    runtime: &mut CoreRuntime,
    session: TerminalSessionId,
    result: Result<(), String>,
) -> (answer: Answer)
    ensures
        if old(runtime)@.terminals.contains_key(session.0) {
            &&& final(runtime)@ == (CoreRuntimeView {
                terminals: old(runtime)@.terminals.insert(
                    session.0,
                    old(runtime)@.terminals[session.0].bumped(),
                ),
                ..old(runtime)@
            })
            &&& answers_change(
                answer,
                final(runtime)@,
                session,
                match error_view(result) {
                    Ok(()) => Ok(true),
                    Err(error) => Err(error),
                },
            )
        } else {
            final(runtime)@ == old(runtime)@ && answers_change(
                answer,
                old(runtime)@,
                session,
                Err(missing_session(session)),
            )
        },
{
    let ghost before = runtime@;
    match runtime.take_terminal(session) {
        Err(error) => {
            proof {
                assert(before.terminals.remove(session.0) =~= before.terminals);
            }
            Answer { response: Err(error), change: None, stop: false }
        },
        Ok(mut terminal) => {
            terminal.bump();
            let ghost resized = terminal@;
            runtime.put_terminal(session, terminal);
            proof {
                assert(before.terminals.remove(session.0).insert(session.0, resized)
                    =~= before.terminals.insert(session.0, resized));
            }
            let outcome = match result {
                Ok(()) => Ok(true),
                Err(error) => Err(error),
            };
            answer_change(runtime, session, outcome)
        },
    }
}

/// The terminals after some of them have changed.
pub open spec fn bumped_terminals(
    terminals: Map<u64, RuntimeView>,
    sessions: Seq<TerminalSessionId>,
) -> Map<u64, RuntimeView>
    decreases sessions.len(),
{
    if sessions.len() == 0 {
        terminals
    } else {
        let earlier = bumped_terminals(terminals, sessions.drop_last());
        earlier.insert(sessions.last().0, earlier[sessions.last().0].bumped())
    }
}

/// What is told of them.
pub open spec fn told_of_bumped(
    terminals: Map<u64, RuntimeView>,
    sessions: Seq<TerminalSessionId>,
) -> Seq<TerminalChange> {
    Seq::new(
        sessions.len(),
        |i: int|
            TerminalChange {
                terminal_session_id: sessions[i],
                terminal_revision: bumped_terminals(
                    terminals,
                    sessions.take(i + 1),
                )[sessions[i].0].revision,
            },
    )
}

/// An answer that may tell of several terminals.
pub struct ThemeAnswer {
    pub response: Result<WorkerResponse, String>,
    pub changes: Vec<TerminalChange>,
    /// Whether terminals that start later get the colors too.
    pub keep: bool,
}

/// The answer after colors were set in the terminals `themed`, up to the first
/// that failed.
pub fn finish_theme(
    runtime: &mut CoreRuntime,
    themed: &Vec<TerminalSessionId>,
    result: Result<(), String>,
) -> (answer: ThemeAnswer)
    requires
        forall|i: int|
            0 <= i < themed@.len() ==> old(runtime)@.terminals.contains_key(
                (#[trigger] themed@[i]).0,
            ),
    ensures
        final(runtime)@ == (CoreRuntimeView {
            terminals: bumped_terminals(old(runtime)@.terminals, themed@),
            ..old(runtime)@
        }),
        match result {
            Ok(()) => answer.response == Ok::<WorkerResponse, String>(WorkerResponse::Ack)
                && answer.changes@ == told_of_bumped(old(runtime)@.terminals, themed@)
                && answer.keep,
            Err(error) => answer.response == Err::<WorkerResponse, String>(error)
                && answer.changes@.len() == 0 && !answer.keep,
        },
{
    let ghost start = runtime@;
    let mut changes: Vec<TerminalChange> = Vec::new();
    let mut index: usize = 0;
    proof {
        assert(themed@.take(0) =~= Seq::empty());
        assert(told_of_bumped(start.terminals, Seq::empty()) =~= Seq::empty());
    }
    while index < themed.len()
        invariant
            index <= themed@.len(),
            runtime@ == (CoreRuntimeView {
                terminals: bumped_terminals(start.terminals, themed@.take(index as int)),
                ..start
            }),
            runtime@.terminals.dom() == start.terminals.dom(),
            changes@ == told_of_bumped(start.terminals, themed@.take(index as int)),
            forall|i: int|
                0 <= i < themed@.len() ==> start.terminals.contains_key((#[trigger] themed@[i]).0),
        decreases themed@.len() - index,
    {
        let session = themed[index];
        let ghost before = runtime@;
        let ghost shorter = themed@.take(index as int);
        let ghost longer = themed@.take(index + 1);
        proof {
            assert(longer.drop_last() =~= shorter);
            assert(before.terminals.dom().contains(session.0));
        }
        if let Ok(mut terminal) = runtime.take_terminal(session) {
            terminal.bump();
            let ghost bumped = terminal@;
            changes.push(
                TerminalChange {
                    terminal_session_id: session,
                    terminal_revision: terminal.revision,
                },
            );
            runtime.put_terminal(session, terminal);
            proof {
                assert(before.terminals.remove(session.0).insert(session.0, bumped)
                    =~= before.terminals.insert(session.0, bumped));
                assert(runtime@.terminals.dom() =~= start.terminals.dom());
                assert(changes@ =~= told_of_bumped(start.terminals, longer)) by {
                    assert forall|i: int| 0 <= i < shorter.len() implies shorter.take(i + 1)
                        == #[trigger] longer.take(i + 1) by {
                        assert(shorter.take(i + 1) =~= longer.take(i + 1));
                    }
                    assert(longer.take(index + 1) =~= longer);
                }
            }
        }
        index += 1;
    }
    proof {
        assert(themed@.take(index as int) =~= themed@);
    }
    match result {
        Ok(()) => ThemeAnswer { response: Ok(WorkerResponse::Ack), changes, keep: true },
        Err(error) => ThemeAnswer { response: Err(error), changes: Vec::new(), keep: false },
    }
}

/// Whether `answer` holds an update.
pub open spec fn answers_update(
    answer: Answer,
    expected: super::TerminalUpdateView,
) -> bool {
    &&& answer.change is None && !answer.stop
    &&& match answer.response {
        Ok(WorkerResponse::Snapshot(Some(update))) => update@ == expected,
        _ => false,
    }
}

/// The answer after the screen was rendered and the processes were looked at.
pub fn finish_render(
    runtime: &mut CoreRuntime,
    session: TerminalSessionId,
    result: Result<Snapshot, String>,
    foreground: Option<bool>,
    agent: Option<AgentProgram>,
) -> (answer: Answer)
    ensures
        if !old(runtime)@.terminals.contains_key(session.0) {
            final(runtime)@ == old(runtime)@ && answer.response is Err
                && answer.response->Err_0@ == missing_session(session)
        } else {
            let before = old(runtime)@.terminals[session.0];
            match result {
                Err(error) => {
                    &&& final(runtime)@ == old(runtime)@
                    &&& answer.response == Err::<WorkerResponse, String>(error)
                },
                Ok(snapshot) => {
                    let busy = match foreground {
                        Some(foreground) => foreground,
                        None => true,
                    };
                    let after = before.rendered(snapshot, busy, agent);
                    &&& final(runtime)@ == (CoreRuntimeView {
                        terminals: old(runtime)@.terminals.insert(session.0, after),
                        ..old(runtime)@
                    })
                    &&& answers_update(
                        answer,
                        rendered_update(
                            snapshot,
                            before.last_snapshot_revision,
                            before.revision,
                            before.lifecycle,
                            after.active_work,
                            agent,
                        ),
                    )
                },
            }
        },
        answer.change is None && !answer.stop,
{
    let ghost before = runtime@;
    match runtime.take_terminal(session) {
        Err(error) => {
            proof {
                assert(before.terminals.remove(session.0) =~= before.terminals);
            }
            Answer { response: Err(error), change: None, stop: false }
        },
        Ok(mut terminal) => {
            let response = match result {
                Err(error) => Err(error),
                Ok(snapshot) => Ok(
                    WorkerResponse::Snapshot(
                        Some(terminal.finish_snapshot(snapshot, foreground, agent)),
                    ),
                ),
            };
            let ghost rendered = terminal@;
            runtime.put_terminal(session, terminal);
            proof {
                assert(before.terminals.remove(session.0).insert(session.0, rendered)
                    =~= before.terminals.insert(session.0, rendered));
                if rendered == before.terminals[session.0] {
                    assert(before.terminals.insert(session.0, rendered) =~= before.terminals);
                }
            }
            Answer { response, change: None, stop: false }
        },
    }
}

/// The answer after the effects of a command were done.
pub fn finish_effects(commit: CoreCommit) -> (answer: Answer)
    ensures
        answer.change is None && !answer.stop,
        match answer.response {
            Ok(WorkerResponse::CoreCommandAccepted(outcome)) => outcome.revision
                == commit.revision && outcome.snapshot == commit.snapshot && outcome.created
                == commit.created,
            _ => false,
        },
{
    Answer { response: Ok(command_reply(Ok(commit))), change: None, stop: false }
}

/// How long what is known of the processes stays good, in milliseconds.
pub const ACTIVE_WORK_POLL_MILLIS: u64 = 100;

/// When the processes are next to be looked at, if they are to be looked at
/// now.
pub fn next_poll(now: u64, due: u64) -> (next: Option<u64>)
    requires
        now <= u64::MAX - ACTIVE_WORK_POLL_MILLIS,
    ensures
        next == if now >= due {
            Some((now + ACTIVE_WORK_POLL_MILLIS) as u64)
        } else {
            None
        },
        next is Some <==> due <= now,
        next matches Some(next) ==> next - now == 100,
{
    if now >= due {
        Some(now + ACTIVE_WORK_POLL_MILLIS)
    } else {
        None
    }
}

/// What a terminal gets, it gets only while it has a process; the others are
/// answered without touching any terminal.
pub proof fn law_only_live_terminals_are_written(
    serve: Serve,
    terminals: Map<u64, RuntimeView>,
    session: TerminalSessionId,
    work: Serve,
)
    requires
        serves_live(serve, terminals, session, work),
        !(serve is Reply),
    ensures
        terminals.contains_key(session.0),
        terminals[session.0].live,
        serve == work,
{
}

/// Input, pastes and sizes reach a terminal that has a process as they were sent.
/// Those to a terminal that is gone are acknowledged, and those to one without a
/// process refused for what became of it.
pub proof fn law_live_terminals_get_what_is_sent(
    serve: Serve,
    before: CoreRuntimeView,
    after: CoreRuntimeView,
    request: WorkerRequest,
)
    requires
        serves(serve, before, after, request),
        request is Input || request is Paste || request is Resize,
    ensures
        ({
            let (session, work) = match request {
                WorkerRequest::Input { terminal_session_id, bytes } => (
                    terminal_session_id,
                    Serve::Input { terminal_session_id, bytes },
                ),
                WorkerRequest::Paste { terminal_session_id, bytes } => (
                    terminal_session_id,
                    Serve::Paste { terminal_session_id, bytes },
                ),
                WorkerRequest::Resize { terminal_session_id, size } => (
                    terminal_session_id,
                    Serve::Resize { terminal_session_id, size },
                ),
                _ => (TerminalSessionId(0), serve),
            };
            let known = before.terminals.contains_key(session.0);
            let terminal = before.terminals[session.0];
            let refused = known && !terminal.live;
            &&& after == before
            &&& known && terminal.live ==> serve == work
            &&& !(known && terminal.live) ==> serve is Reply && !serve->Reply_0.stop
                && serve->Reply_0.change is None
            &&& !known ==> serve->Reply_0.response == Ok::<WorkerResponse, String>(
                WorkerResponse::Ack,
            )
            &&& refused ==> serve->Reply_0.response is Err
            &&& refused && terminal.lifecycle is Running ==> serve->Reply_0.response->Err_0@
                == "Terminal Session runtime is unavailable"@
            &&& refused && terminal.lifecycle is Exited ==> serve->Reply_0.response->Err_0@
                == "Terminal Session has exited"@
            &&& refused && terminal.lifecycle is Failed ==> serve->Reply_0.response->Err_0@
                == "Terminal Session failed: "@ + terminal.lifecycle->Failed_0
        }),
{
}

/// Who knows the revision of a terminal is told that nothing is new. Else a screen
/// is rendered where there is a process: all of it for who has not seen the one
/// that was rendered last.
pub proof fn law_only_what_is_new_is_rendered(
    serve: Serve,
    before: CoreRuntimeView,
    after: CoreRuntimeView,
    session: TerminalSessionId,
    since: Option<u64>,
)
    requires
        serves(
            serve,
            before,
            after,
            WorkerRequest::Snapshot { terminal_session_id: session, since },
        ),
        before.terminals.contains_key(session.0),
        before.terminals[session.0].live,
    ensures
        ({
            let terminal = before.terminals[session.0];
            &&& after == before
            &&& since == Some(terminal.revision) ==> serve is Reply
                && serve->Reply_0.response == Ok::<WorkerResponse, String>(
                WorkerResponse::Snapshot(None),
            )
            &&& since != Some(terminal.revision) ==> {
                &&& serve matches Serve::Render { terminal_session_id, force_full }
                &&& terminal_session_id == session
                &&& !force_full <==> since is Some && since == terminal.last_snapshot_revision
            }
        }),
{
}

/// A command on the hierarchy is applied, and its effects are done, or it is
/// rejected with the error and changes nothing.
pub proof fn law_commands_are_applied_or_rejected(
    serve: Serve,
    before: CoreRuntimeView,
    after: CoreRuntimeView,
    expected_revision: u64,
    command: CoreCommand,
)
    requires
        serves(
            serve,
            before,
            after,
            WorkerRequest::ApplyCoreCommand { expected_revision, command },
        ),
    ensures
        after.terminals == before.terminals,
        expected_revision != before.model.snapshot.revision ==> serve is Reply && after == before,
        match before.model.applied(expected_revision, command@) {
            Ok((model, commit)) => {
                &&& after.model == model
                &&& serve matches Serve::Effects(told)
                &&& told@ == commit
            },
            Err(error) => {
                &&& after.model == before.model
                &&& serve matches Serve::Reply(answer)
                &&& answer.response == Ok::<WorkerResponse, String>(
                    WorkerResponse::CoreCommandRejected(error),
                )
            },
        },
{
}

/// Only a request to stop ends the thread, and it is acknowledged.
pub proof fn law_only_stopping_stops(
    serve: Serve,
    before: CoreRuntimeView,
    after: CoreRuntimeView,
    request: WorkerRequest,
)
    requires
        serves(serve, before, after, request),
    ensures
        serve is Reply && serve->Reply_0.stop <==> request is Stop,
        request is Stop ==> serve->Reply_0.response == Ok::<WorkerResponse, String>(
            WorkerResponse::Ack,
        ) && after == before,
{
}

/// Colors that were set raise the revision of each terminal that got them, and of
/// no other.
pub proof fn law_new_colors_raise_revisions(
    terminals: Map<u64, RuntimeView>,
    sessions: Seq<TerminalSessionId>,
    id: u64,
)
    requires
        sessions.no_duplicates(),
    ensures
        ({
            let after = bumped_terminals(terminals, sessions);
            &&& sessions.contains(TerminalSessionId(id)) && terminals[id].revision < u64::MAX
                ==> after[id].revision == terminals[id].revision + 1
            &&& sessions.contains(TerminalSessionId(id)) ==> RuntimeView {
                revision: terminals[id].revision,
                ..after[id]
            } == terminals[id]
            &&& !sessions.contains(TerminalSessionId(id)) ==> after[id] == terminals[id]
        }),
    decreases sessions.len(),
{
    if sessions.len() > 0 {
        let shorter = sessions.drop_last();
        let last = sessions.last();
        law_new_colors_raise_revisions(terminals, shorter, id);
        assert(sessions =~= shorter.push(last));
        if shorter.contains(TerminalSessionId(id)) {
            let i = shorter.index_of(TerminalSessionId(id));
            assert(sessions[i] == TerminalSessionId(id));
            assert(sessions[i] != sessions[sessions.len() - 1]);
        }
        if sessions.contains(TerminalSessionId(id)) && last != TerminalSessionId(id) {
            let i = sessions.index_of(TerminalSessionId(id));
            assert(shorter[i] == TerminalSessionId(id));
        }
        if last == TerminalSessionId(id) {
            assert(sessions[sessions.len() - 1] == TerminalSessionId(id));
            assert(last.0 == id);
        } else {
            assert(last.0 != id) by {
                if last.0 == id {
                    assert(last == TerminalSessionId(id));
                }
            }
        }
    }
}

/// Who asks for something that changes a terminal is told that it is done, and all
/// are told of the revision that the terminal has then; what went wrong is told to
/// who asked alone.
pub proof fn law_changes_are_told_with_their_revision(
    answer: Answer,
    after: CoreRuntimeView,
    session: TerminalSessionId,
    result: Result<bool, Seq<char>>,
)
    requires
        answers_change(answer, after, session, result),
    ensures
        !answer.stop,
        answer.response is Ok <==> result is Ok,
        answer.change is Some <==> result == Ok::<bool, Seq<char>>(true),
        answer.change matches Some(change) ==> change.terminal_session_id == session
            && change.terminal_revision == after.terminals[session.0].revision,
        result matches Err(error) ==> answer.response->Err_0@ == error,
{
}

/// All are told of each terminal that got new colors, with the revision that it has
/// then.
pub proof fn law_new_colors_are_told(
    terminals: Map<u64, RuntimeView>,
    sessions: Seq<TerminalSessionId>,
    index: int,
)
    requires
        sessions.no_duplicates(),
        0 <= index < sessions.len(),
        terminals[sessions[index].0].revision < u64::MAX,
    ensures
        told_of_bumped(terminals, sessions).len() == sessions.len(),
        told_of_bumped(terminals, sessions)[index].terminal_session_id == sessions[index],
        told_of_bumped(terminals, sessions)[index].terminal_revision
            == terminals[sessions[index].0].revision + 1,
{
    let part = sessions.take(index + 1);
    assert(part[index] == sessions[index]);
    assert(TerminalSessionId(sessions[index].0) == sessions[index]);
    assert(part.contains(TerminalSessionId(sessions[index].0)));
    assert forall|i: int, j: int| 0 <= i < part.len() && 0 <= j < part.len() && i != j implies part[i]
        != part[j] by {
        assert(sessions[i] != sessions[j]);
    }
    law_new_colors_raise_revisions(terminals, part, sessions[index].0);
}

/// The question for a terminal without a process is answered with a blank screen of
/// its revision.
pub proof fn law_dead_terminals_are_blank(
    serve: Serve,
    before: CoreRuntimeView,
    after: CoreRuntimeView,
    session: TerminalSessionId,
    since: Option<u64>,
)
    requires
        serves(
            serve,
            before,
            after,
            WorkerRequest::Snapshot { terminal_session_id: session, since },
        ),
    ensures
        ({
            let terminal = before.terminals[session.0];
            let known = before.terminals.contains_key(session.0);
            &&& after.model == before.model
            &&& known && !terminal.live && since != Some(terminal.revision) ==> {
                &&& serve is Reply
                &&& serve->Reply_0.response matches Ok(WorkerResponse::Snapshot(Some(update)))
                &&& update.revision == terminal.revision
                &&& update.lifecycle@ == terminal.lifecycle
                &&& update.base_revision is None
                &&& update.cells@.len() == 0
                &&& after.terminals[session.0].last_snapshot_revision == Some(terminal.revision)
            }
            &&& !known ==> after == before && serve is Reply
            &&& !known && since is None ==> serve->Reply_0.response is Err
                && serve->Reply_0.response->Err_0@ == missing_session(session)
            &&& !known && since is Some ==> serve->Reply_0.response == Ok::<WorkerResponse, String>(
                WorkerResponse::Snapshot(None),
            )
        }),
{
    if let Serve::Reply(answer) = serve {
        if let Ok(WorkerResponse::Snapshot(Some(update))) = answer.response {
            assert(update@.cells.len() == update.cells@.len());
        }
    }
}

} // verus!
