//! What stands between a window and the hierarchy with its terminals: commands
//! that wait, updates that wait, and what the window has been told.

use crate::application_core::{
    CoreCommandOutcome, SemanticEventKind, TerminalChange, TerminalSnapshot,
};
use crate::core_model::{CoreCommand, CoreSnapshot, HierarchyView, TerminalSessionId};
use crate::pty::{hand_over, Handover};
use crate::resident_core::control::{session_keys, session_set};
use crate::table::{ascending, Table};
use crate::terminal::{TerminalSize, TerminalTheme};
use crate::text::{decimal, decimal_chars};
use vstd::prelude::*;
use vstd::string::*;

pub mod steps;

verus! {

/// How many commands may wait for the driver.
pub const COMMAND_CAPACITY: usize = 256;

/// How often a hierarchy that keeps changing is read anew.
pub const MAX_HIERARCHY_REFRESH_ATTEMPTS: usize = 8;

/// What a window asks of its driver.
pub enum Command {
    Apply { command_id: u64, command: CoreCommand },
    Input { terminal_session_id: TerminalSessionId, bytes: Vec<u8> },
    Paste { terminal_session_id: TerminalSessionId, bytes: Vec<u8> },
    SetTerminalTheme { theme: TerminalTheme },
    ResizeBatch { batch_id: u64 },
}

/// The sizes that wait to be applied: batches of them, of which the last may
/// still grow.
pub struct ResizeBatchState {
    next_batch_id: u64,
    trailing_batch: Option<u64>,
    batches: Table<Table<TerminalSize>>,
}

#[verifier::ext_equal]
pub struct ResizeBatchView {
    pub next_batch_id: u64,
    pub trailing_batch: Option<u64>,
    pub batches: Map<u64, Map<u64, TerminalSize>>,
}

impl View for ResizeBatchState {
    type V = ResizeBatchView;

    closed spec fn view(&self) -> ResizeBatchView {
        ResizeBatchView {
            next_batch_id: self.next_batch_id,
            trailing_batch: self.trailing_batch,
            batches: batch_views(self.batches@),
        }
    }
}

spec fn batch_views(batches: Map<u64, Table<TerminalSize>>) -> Map<u64, Map<u64, TerminalSize>> {
    batches.map_values(|batch: Table<TerminalSize>| batch@)
}

impl ResizeBatchView {
    /// The batch that may still grow.
    pub open spec fn growing(self) -> Option<u64> {
        match self.trailing_batch {
            Some(batch_id) if self.batches.contains_key(batch_id) => Some(batch_id),
            _ => None,
        }
    }

    /// After a size was added to a batch.
    pub open spec fn with_size(
        self,
        batch_id: u64,
        session: TerminalSessionId,
        size: TerminalSize,
    ) -> ResizeBatchView {
        ResizeBatchView {
            batches: self.batches.insert(batch_id, self.batches[batch_id].insert(session.0, size)),
            ..self
        }
    }

    /// After a batch of one size was begun.
    pub open spec fn with_batch(
        self,
        session: TerminalSessionId,
        size: TerminalSize,
    ) -> ResizeBatchView {
        ResizeBatchView {
            next_batch_id: (self.next_batch_id + 1) as u64,
            trailing_batch: Some(self.next_batch_id),
            batches: self.batches.insert(
                self.next_batch_id,
                Map::empty().insert(session.0, size),
            ),
        }
    }

    /// After something else was sent.
    pub open spec fn behind_barrier(self) -> ResizeBatchView {
        ResizeBatchView { trailing_batch: None, ..self }
    }
}

/// Whether `sizes` lists what `batch` holds, in the order of the sessions.
pub open spec fn lists_sizes(
    sizes: Seq<(TerminalSessionId, TerminalSize)>,
    batch: Map<u64, TerminalSize>,
) -> bool {
    &&& forall|i: int, j: int|
        0 <= i < j < sizes.len() ==> (#[trigger] sizes[i]).0.0 < (#[trigger] sizes[j]).0.0
    &&& forall|session: u64| #[trigger]
        batch.contains_key(session) ==> sizes.contains(
            (TerminalSessionId(session), batch[session]),
        )
    &&& forall|i: int|
        0 <= i < sizes.len() ==> batch.contains_key((#[trigger] sizes[i]).0.0)
            && batch[sizes[i].0.0] == sizes[i].1
}

impl ResizeBatchState {
    pub fn new() -> (state: Self)
        ensures
            state@ == (ResizeBatchView {
                next_batch_id: 0,
                trailing_batch: None,
                batches: Map::empty(),
            }),
    {
        let state = ResizeBatchState {
            next_batch_id: 0,
            trailing_batch: None,
            batches: Table::new(),
        };
        proof {
            assert(state@.batches =~= Map::empty());
        }
        state
    }

    /// Adds a size to the batch that may still grow, if there is one.
    fn coalesce(&mut self, session: TerminalSessionId, size: TerminalSize) -> (done: bool)
        ensures
            match old(self)@.growing() {
                Some(batch_id) => done && final(self)@ == old(self)@.with_size(
                    batch_id,
                    session,
                    size,
                ),
                None => !done && final(self)@ == old(self)@,
            },
    {
        let ghost before = self@;
        let batch_id = match self.trailing_batch {
            Some(batch_id) => batch_id,
            None => return false,
        };
        match self.batches.remove(batch_id) {
            Some(mut batch) => {
                batch.insert(session.0, size);
                self.batches.insert(batch_id, batch);
                proof {
                    assert(self@.batches =~= before.with_size(batch_id, session, size).batches);
                }
                true
            },
            None => {
                proof {
                    assert(self@.batches =~= before.batches);
                }
                false
            },
        }
    }

    /// Takes a batch out.
    pub fn take_batch(&mut self, batch_id: u64) -> (batch: Result<
        Vec<(TerminalSessionId, TerminalSize)>,
        String,
    >)
        ensures
            match batch {
                Ok(sizes) => {
                    &&& old(self)@.batches.contains_key(batch_id)
                    &&& lists_sizes(sizes@, old(self)@.batches[batch_id])
                    &&& final(self)@ == (ResizeBatchView {
                        trailing_batch: if old(self)@.trailing_batch == Some(batch_id) {
                            None
                        } else {
                            old(self)@.trailing_batch
                        },
                        batches: old(self)@.batches.remove(batch_id),
                        ..old(self)@
                    })
                },
                Err(error) => {
                    &&& !old(self)@.batches.contains_key(batch_id)
                    &&& error@ == "window driver resize batch "@ + decimal_chars(batch_id as nat)
                        + " is missing"@
                    &&& final(self)@ == old(self)@
                },
            },
    {
        let ghost before = self@;
        match self.batches.remove(batch_id) {
            None => {
                proof {
                    assert(self@.batches =~= before.batches);
                }
                let mut message = "window driver resize batch ".to_owned();
                message.append(decimal(batch_id).as_str());
                message.append(" is missing");
                Err(message)
            },
            Some(batch) => {
                let trailing = match self.trailing_batch {
                    Some(trailing) => trailing == batch_id,
                    None => false,
                };
                if trailing {
                    self.trailing_batch = None;
                }
                proof {
                    assert(self@.batches =~= before.batches.remove(batch_id));
                }
                Ok(list_sizes(&batch))
            },
        }
    }
}

fn list_sizes(batch: &Table<TerminalSize>) -> (sizes: Vec<(TerminalSessionId, TerminalSize)>)
    ensures
        lists_sizes(sizes@, batch@),
{
    let count = batch.len();
    let ghost keys = batch.keys();
    let mut sizes: Vec<(TerminalSessionId, TerminalSize)> = Vec::new();
    let mut index: usize = 0;
    while index < count
        invariant
            index <= count == keys.len(),
            keys == batch.keys(),
            sizes@.len() == index,
            forall|i: int|
                0 <= i < index ==> #[trigger] sizes@[i] == (
                    TerminalSessionId(keys[i]),
                    batch@[keys[i]],
                ) && batch@.contains_key(keys[i]),
        decreases count - index,
    {
        let key = batch.key_at(index);
        sizes.push((TerminalSessionId(key), *batch.value_at(index)));
        index += 1;
    }
    proof {
        assert forall|i: int, j: int| 0 <= i < j < sizes@.len() implies (
        #[trigger] sizes@[i]).0.0 < (#[trigger] sizes@[j]).0.0 by {
            assert(keys[i] < keys[j]);
        }
        assert forall|session: u64| #[trigger] batch@.contains_key(session) implies sizes@.contains(
            (TerminalSessionId(session), batch@[session]),
        ) by {
            let i = keys.index_of(session);
            assert(sizes@[i] == (TerminalSessionId(session), batch@[session]));
        }
    }
    sizes
}

/// Why a command is not taken.
pub open spec fn send_error(handover: Handover) -> Option<Seq<char>> {
    match handover {
        Handover::Queued => None,
        Handover::Full => Some("window driver command queue is busy"@),
        Handover::Stopped => Some("window driver stopped"@),
    }
}

/// What became of a command that was handed over.
pub fn send_status(handover: Handover) -> (status: Result<(), String>)
    ensures
        match send_error(handover) {
            None => status is Ok,
            Some(error) => status is Err && status->Err_0@ == error,
        },
{
    match handover {
        Handover::Queued => Ok(()),
        Handover::Full => Err("window driver command queue is busy".to_owned()),
        Handover::Stopped => Err("window driver stopped".to_owned()),
    }
}

/// The sending side of a driver's commands.
pub struct DriverCommandSender {
    queue: flume::Sender<Command>,
    resize_batches: ResizeBatchState,
}

impl View for DriverCommandSender {
    type V = ResizeBatchView;

    closed spec fn view(&self) -> ResizeBatchView {
        self.resize_batches@
    }
}

/// Whether handing `command` over to a driver's queue can go as `handover` says.
pub closed spec fn hands_on(
    queue: flume::Sender<Command>,
    command: Command,
    handover: Handover,
) -> bool {
    call_ensures(hand_over::<Command>, (&queue, command), handover)
}

impl DriverCommandSender {
    /// The queue that commands are handed over to.
    pub closed spec fn spec_queue(self) -> flume::Sender<Command> {
        self.queue
    }

    pub fn new(queue: flume::Sender<Command>) -> (sender: Self)
        ensures
            sender.spec_queue() == queue,
            sender@ == (ResizeBatchView {
                next_batch_id: 0,
                trailing_batch: None,
                batches: Map::empty(),
            }),
    {
        DriverCommandSender { queue, resize_batches: ResizeBatchState::new() }
    }

    /// Hands a command over to the queue and says what became of it; sizes that
    /// follow are not applied before it. How the handover goes depends on the
    /// driver's thread.
    pub fn send(&mut self, command: Command) -> (result: Result<(), String>)
        ensures
            final(self).spec_queue() == old(self).spec_queue(),
            final(self)@ == old(self)@.behind_barrier(),
            exists|handover: Handover| #[trigger]
                hands_on(old(self).spec_queue(), command, handover) && match send_error(handover) {
                    None => result is Ok,
                    Some(error) => result is Err && result->Err_0@ == error,
                },
    {
        self.resize_batches.trailing_batch = None;
        let handover = hand_over(&self.queue, command);
        proof {
            assert(hands_on(old(self).spec_queue(), command, handover));
        }
        send_status(handover)
    }

    /// Whether a size can be asked for without more: where a batch may still
    /// grow, or numbers are left for a new one.
    pub fn accepts_resize(&self) -> (accepts: bool)
        ensures
            accepts == (self@.growing() is Some || self@.next_batch_id < u64::MAX),
    {
        let growing = match self.resize_batches.trailing_batch {
            Some(batch_id) => self.resize_batches.batches.contains(batch_id),
            None => false,
        };
        growing || self.resize_batches.next_batch_id < u64::MAX
    }

    /// Asks for a size: in the batch that may still grow, or in a new one, whose
    /// number is handed over to the queue.
    pub fn resize(&mut self, session: TerminalSessionId, size: TerminalSize) -> (result: Result<
        (),
        String,
    >)
        requires
            old(self)@.growing() is Some || old(self)@.next_batch_id < u64::MAX,
        ensures
            final(self).spec_queue() == old(self).spec_queue(),
            match old(self)@.growing() {
                Some(batch_id) => result is Ok && final(self)@ == old(self)@.with_size(
                    batch_id,
                    session,
                    size,
                ),
                None => exists|handover: Handover| #[trigger]
                    hands_on(
                        old(self).spec_queue(),
                        Command::ResizeBatch { batch_id: old(self)@.next_batch_id },
                        handover,
                    ) && match result {
                        Ok(()) => send_error(handover) is None && final(self)@
                            == old(self)@.with_batch(session, size),
                        Err(error) => send_error(handover) == Some(error@) && final(self)@ == (
                        ResizeBatchView {
                            next_batch_id: (old(self)@.next_batch_id + 1) as u64,
                            batches: old(self)@.batches.remove(old(self)@.next_batch_id),
                            ..old(self)@
                        }),
                    },
            },
    {
        if self.resize_batches.coalesce(session, size) {
            return Ok(());
        }
        let ghost before = self@;
        let batch_id = self.resize_batches.next_batch_id;
        self.resize_batches.next_batch_id = batch_id + 1;
        let mut batch: Table<TerminalSize> = Table::new();
        batch.insert(session.0, size);
        self.resize_batches.batches.insert(batch_id, batch);
        let handover = hand_over(&self.queue, Command::ResizeBatch { batch_id });
        proof {
            assert(hands_on(
                old(self).spec_queue(),
                Command::ResizeBatch { batch_id: old(self)@.next_batch_id },
                handover,
            ));
        }
        match send_status(handover) {
            Ok(()) => {
                self.resize_batches.trailing_batch = Some(batch_id);
                proof {
                    assert(self@.batches =~= before.with_batch(session, size).batches);
                }
                Ok(())
            },
            Err(error) => {
                let _ = self.resize_batches.batches.remove(batch_id);
                proof {
                    assert(self@.batches =~= before.batches.remove(batch_id));
                    assert(send_error(handover) == Some(error@));
                }
                Err(error)
            },
        }
    }

    /// Takes a batch out.
    pub fn take_batch(&mut self, batch_id: u64) -> (batch: Result<
        Vec<(TerminalSessionId, TerminalSize)>,
        String,
    >)
        ensures
            final(self).spec_queue() == old(self).spec_queue(),
            match batch {
                Ok(sizes) => {
                    &&& old(self)@.batches.contains_key(batch_id)
                    &&& lists_sizes(sizes@, old(self)@.batches[batch_id])
                    &&& final(self)@ == (ResizeBatchView {
                        trailing_batch: if old(self)@.trailing_batch == Some(batch_id) {
                            None
                        } else {
                            old(self)@.trailing_batch
                        },
                        batches: old(self)@.batches.remove(batch_id),
                        ..old(self)@
                    })
                },
                Err(error) => {
                    &&& !old(self)@.batches.contains_key(batch_id)
                    &&& error@ == "window driver resize batch "@ + decimal_chars(batch_id as nat)
                        + " is missing"@
                    &&& final(self)@ == old(self)@
                },
            },
    {
        self.resize_batches.take_batch(batch_id)
    }
}

/// However many sizes are asked for while a batch may grow, it holds the last
/// of each terminal.
pub proof fn law_batches_hold_the_latest_sizes(
    state: ResizeBatchView,
    batch_id: u64,
    session: TerminalSessionId,
    size: TerminalSize,
    other: u64,
)
    requires
        state.growing() == Some(batch_id),
    ensures
        state.with_size(batch_id, session, size).growing() == Some(batch_id),
        state.with_size(batch_id, session, size).batches[batch_id][session.0] == size,
        other != session.0 ==> state.with_size(
            batch_id,
            session,
            size,
        ).batches[batch_id].contains_key(other) == state.batches[batch_id].contains_key(other)
            && state.with_size(batch_id, session, size).batches[batch_id][other]
            == state.batches[batch_id][other],
{
}

/// A command that is sent between two sizes keeps them in batches of their
/// own.
pub proof fn law_commands_separate_batches(
    state: ResizeBatchView,
    batch_id: u64,
    session: TerminalSessionId,
    size: TerminalSize,
)
    requires
        state.batches.contains_key(batch_id),
        batch_id < state.next_batch_id,
    ensures
        state.behind_barrier().growing() is None,
        state.behind_barrier().with_batch(session, size).batches[batch_id]
            == state.batches[batch_id],
        state.behind_barrier().with_batch(session, size).growing() == Some(state.next_batch_id),
{
}

/// What a window is told.
pub enum DriverUpdate {
    Hierarchy(CoreSnapshot),
    CommandAccepted { command_id: u64, outcome: CoreCommandOutcome },
    CommandRejected { command_id: u64, error: String },
    Terminal { terminal_session_id: TerminalSessionId, snapshot: TerminalSnapshot },
    Error(String),
}

/// What waits for a window: of the hierarchy, of each terminal and of errors
/// the last, of the results of commands all.
pub struct DriverUpdateState {
    hierarchy: Option<CoreSnapshot>,
    command_results: Vec<DriverUpdate>,
    terminals: Table<TerminalSnapshot>,
    error: Option<String>,
    stopped: bool,
}

#[verifier::ext_equal]
pub struct DriverUpdateView {
    pub hierarchy: Option<CoreSnapshot>,
    pub command_results: Seq<DriverUpdate>,
    pub terminals: Map<u64, TerminalSnapshot>,
    pub error: Option<String>,
    pub stopped: bool,
}

impl View for DriverUpdateState {
    type V = DriverUpdateView;

    closed spec fn view(&self) -> DriverUpdateView {
        DriverUpdateView {
            hierarchy: self.hierarchy,
            command_results: self.command_results@,
            terminals: self.terminals@,
            error: self.error,
            stopped: self.stopped,
        }
    }
}

/// The least number that has a value.
pub open spec fn is_least<V>(key: u64, values: Map<u64, V>) -> bool {
    values.contains_key(key) && forall|other: u64| #[trigger]
        values.contains_key(other) ==> key <= other
}

impl DriverUpdateView {
    pub open spec fn has_pending(self) -> bool {
        ||| self.hierarchy is Some
        ||| self.command_results.len() > 0
        ||| self.terminals.dom() != Set::<u64>::empty()
        ||| self.error is Some
    }

    /// After an update was published.
    pub open spec fn with_update(self, update: DriverUpdate) -> DriverUpdateView {
        match update {
            DriverUpdate::Hierarchy(hierarchy) => DriverUpdateView {
                hierarchy: Some(hierarchy),
                ..self
            },
            DriverUpdate::CommandAccepted { .. } => DriverUpdateView {
                command_results: self.command_results.push(update),
                ..self
            },
            DriverUpdate::CommandRejected { .. } => DriverUpdateView {
                command_results: self.command_results.push(update),
                ..self
            },
            DriverUpdate::Terminal { terminal_session_id, snapshot } => DriverUpdateView {
                terminals: self.terminals.insert(terminal_session_id.0, snapshot),
                ..self
            },
            DriverUpdate::Error(error) => DriverUpdateView { error: Some(error), ..self },
        }
    }

    /// Whether `update` is what the window is told next, and `after` what then
    /// waits: the hierarchy first, then results in their order, then an error,
    /// then the terminals in the order of their sessions.
    pub open spec fn gives(self, update: Option<DriverUpdate>, after: DriverUpdateView) -> bool {
        if self.hierarchy is Some {
            update == Some(DriverUpdate::Hierarchy(self.hierarchy->0)) && after
                == (DriverUpdateView { hierarchy: None, ..self })
        } else if self.command_results.len() > 0 {
            update == Some(self.command_results[0]) && after == (DriverUpdateView {
                command_results: self.command_results.skip(1),
                ..self
            })
        } else if self.error is Some {
            update == Some(DriverUpdate::Error(self.error->0)) && after == (DriverUpdateView {
                error: None,
                ..self
            })
        } else {
            match update {
                None => self.terminals.dom() == Set::<u64>::empty() && after == self,
                Some(DriverUpdate::Terminal { terminal_session_id, snapshot }) => {
                    &&& is_least(terminal_session_id.0, self.terminals)
                    &&& snapshot == self.terminals[terminal_session_id.0]
                    &&& after == (DriverUpdateView {
                        terminals: self.terminals.remove(terminal_session_id.0),
                        ..self
                    })
                },
                Some(_) => false,
            }
        }
    }
}

impl DriverUpdateState {
    pub fn new() -> (state: Self)
        ensures
            state@ == (DriverUpdateView {
                hierarchy: None,
                command_results: Seq::empty(),
                terminals: Map::empty(),
                error: None,
                stopped: false,
            }),
    {
        DriverUpdateState {
            hierarchy: None,
            command_results: Vec::new(),
            terminals: Table::new(),
            error: None,
            stopped: false,
        }
    }

    pub fn has_pending(&self) -> (pending: bool)
        ensures
            pending == self@.has_pending(),
    {
        let waiting = self.terminals.len();
        proof {
            let keys = self.terminals.keys();
            if waiting == 0 {
                assert(self@.terminals.dom() =~= Set::empty());
            } else {
                assert(keys.contains(keys[0]));
                assert(self.terminals@.contains_key(keys[0]));
                assert(self@.terminals.dom().contains(keys[0]));
            }
        }
        self.hierarchy.is_some() || self.command_results.len() > 0 || waiting > 0
            || self.error.is_some()
    }

    pub fn is_stopped(&self) -> (stopped: bool)
        ensures
            stopped == self@.stopped,
    {
        self.stopped
    }

    pub fn stop(&mut self)
        ensures
            final(self)@ == (DriverUpdateView { stopped: true, ..old(self)@ }),
    {
        self.stopped = true;
    }

    pub fn publish(&mut self, update: DriverUpdate)
        ensures
            final(self)@ == old(self)@.with_update(update),
    {
        match update {
            DriverUpdate::Hierarchy(hierarchy) => {
                self.hierarchy = Some(hierarchy);
            },
            DriverUpdate::CommandAccepted { .. } | DriverUpdate::CommandRejected { .. } => {
                self.command_results.push(update);
            },
            DriverUpdate::Terminal { terminal_session_id, snapshot } => {
                self.terminals.insert(terminal_session_id.0, snapshot);
            },
            DriverUpdate::Error(error) => {
                self.error = Some(error);
            },
        }
    }

    pub fn take_pending(&mut self) -> (update: Option<DriverUpdate>)
        ensures
            old(self)@.gives(update, final(self)@),
    {
        if let Some(hierarchy) = self.hierarchy.take() {
            return Some(DriverUpdate::Hierarchy(hierarchy));
        }
        if self.command_results.len() > 0 {
            let result = self.command_results.remove(0);
            proof {
                assert(self@.command_results =~= old(self)@.command_results.skip(1));
            }
            return Some(result);
        }
        if let Some(error) = self.error.take() {
            return Some(DriverUpdate::Error(error));
        }
        let waiting = self.terminals.len();
        let ghost keys = self.terminals.keys();
        if waiting == 0 {
            proof {
                assert(self@.terminals.dom() =~= Set::empty());
            }
            return None;
        }
        let key = self.terminals.key_at(0);
        proof {
            assert forall|other: u64| #[trigger]
                self@.terminals.contains_key(other) implies key <= other by {
                let i = keys.index_of(other);
                assert(keys[i] == other);
            }
        }
        match self.terminals.remove(key) {
            Some(snapshot) => Some(
                DriverUpdate::Terminal { terminal_session_id: TerminalSessionId(key), snapshot },
            ),
            None => None,
        }
    }
}

/// Results of commands reach the window in their order, whatever else is
/// published between.
pub proof fn law_results_keep_their_order(
    state: DriverUpdateView,
    update: DriverUpdate,
    result: DriverUpdate,
)
    requires
        result is CommandAccepted || result is CommandRejected,
        !(update is CommandAccepted || update is CommandRejected),
    ensures
        state.with_update(update).command_results == state.command_results,
        state.with_update(result).command_results == state.command_results.push(result),
{
}

/// What is published while nothing waits is what the window is told next, and then
/// nothing waits again.
pub proof fn law_published_updates_are_told(
    state: DriverUpdateView,
    update: DriverUpdate,
    told: Option<DriverUpdate>,
    after: DriverUpdateView,
)
    requires
        !state.has_pending(),
        state.with_update(update).gives(told, after),
    ensures
        state.with_update(update).has_pending(),
        told == Some(update),
        after == state,
{
    if let DriverUpdate::Terminal { terminal_session_id, snapshot } = update {
        let terminals = state.with_update(update).terminals;
        assert(terminals.dom().contains(terminal_session_id.0));
        assert(state.terminals =~= Map::empty());
        let session = told->0->Terminal_terminal_session_id;
        assert(terminals.contains_key(session.0));
        assert(session.0 == terminal_session_id.0);
        assert(after.terminals =~= state.terminals);
    }
    if update is CommandAccepted || update is CommandRejected {
        assert(state.command_results =~= Seq::empty());
        assert(state.with_update(update).command_results.skip(1) =~= state.command_results);
    }
}

/// Of the hierarchy, of each terminal and of errors only the last waits; nothing
/// else that waits is lost.
pub proof fn law_later_updates_replace_earlier(
    state: DriverUpdateView,
    update: DriverUpdate,
    other: u64,
)
    ensures
        ({
            let after = state.with_update(update);
            &&& match update {
                DriverUpdate::Hierarchy(hierarchy) => after.hierarchy == Some(hierarchy),
                _ => after.hierarchy == state.hierarchy,
            }
            &&& match update {
                DriverUpdate::Error(error) => after.error == Some(error),
                _ => after.error == state.error,
            }
            &&& match update {
                DriverUpdate::Terminal { terminal_session_id, snapshot } => {
                    &&& after.terminals.contains_key(terminal_session_id.0)
                    &&& after.terminals[terminal_session_id.0] == snapshot
                    &&& other != terminal_session_id.0 ==> after.terminals.contains_key(other)
                        == state.terminals.contains_key(other) && after.terminals[other]
                        == state.terminals[other]
                },
                _ => after.terminals == state.terminals,
            }
            &&& after.stopped == state.stopped
        }),
{
}

/// The window is told something for as long as anything waits: the hierarchy before
/// anything else, and the terminals after everything else.
pub proof fn law_windows_are_told_while_anything_waits(
    state: DriverUpdateView,
    told: Option<DriverUpdate>,
    after: DriverUpdateView,
)
    requires
        state.gives(told, after),
        forall|i: int|
            0 <= i < state.command_results.len() ==> (#[trigger] state.command_results[i])
                is CommandAccepted || state.command_results[i] is CommandRejected,
    ensures
        told is None <==> !state.has_pending(),
        state.hierarchy is Some <==> told is Some && told->0 is Hierarchy,
        told is Some && told->0 is Terminal ==> state.hierarchy is None
            && state.command_results.len() == 0 && state.error is None,
        told is Some && told->0 is Terminal ==> state.terminals.contains_key(
            told->0->Terminal_terminal_session_id.0,
        ) && !after.terminals.contains_key(told->0->Terminal_terminal_session_id.0),
        told is None ==> after == state,
{
    if let Some(DriverUpdate::Terminal { terminal_session_id, snapshot }) = told {
        if state.hierarchy is None && state.command_results.len() == 0 && state.error is None {
            assert(state.terminals.dom().contains(terminal_session_id.0));
        }
    }
}

/// What a window has been told: the revision of the hierarchy and that of each
/// terminal.
pub struct DriverState {
    hierarchy_revision: u64,
    revisions: Table<u64>,
}

#[verifier::ext_equal]
pub struct DriverView {
    pub hierarchy_revision: u64,
    pub revisions: Map<u64, u64>,
}

impl View for DriverState {
    type V = DriverView;

    closed spec fn view(&self) -> DriverView {
        DriverView { hierarchy_revision: self.hierarchy_revision, revisions: self.revisions@ }
    }
}

/// What an event asks of the driver.
#[derive(Clone, Copy, Debug, PartialEq, Eq, Structural)]
pub enum EventPlan {
    Nothing,
    RefreshTerminal { terminal_session_id: TerminalSessionId, since: u64 },
    RefreshHierarchy,
}

impl DriverView {
    /// What it takes to learn of a terminal's revision.
    pub open spec fn refresh(self, session: TerminalSessionId, announced: u64) -> EventPlan {
        if self.revisions.contains_key(session.0) && announced > self.revisions[session.0] {
            EventPlan::RefreshTerminal {
                terminal_session_id: session,
                since: self.revisions[session.0],
            }
        } else {
            EventPlan::Nothing
        }
    }
}

/// A terminal is read again exactly where the window knows it and something newer
/// is announced, and from the revision that the window knows.
pub proof fn law_only_news_of_known_terminals_is_read(
    state: DriverView,
    session: TerminalSessionId,
    announced: u64,
)
    ensures
        ({
            let plan = state.refresh(session, announced);
            let known = state.revisions.contains_key(session.0);
            &&& plan is Nothing || plan is RefreshTerminal
            &&& plan is RefreshTerminal <==> known && state.revisions[session.0] < announced
            &&& plan is RefreshTerminal ==> plan == (EventPlan::RefreshTerminal {
                terminal_session_id: session,
                since: state.revisions[session.0],
            })
        }),
{
}

impl DriverState {
    /// Nothing was told yet.
    pub fn new() -> (state: Self)
        ensures
            state@ == (DriverView { hierarchy_revision: 0, revisions: Map::empty() }),
    {
        DriverState { hierarchy_revision: 0, revisions: Table::new() }
    }

    pub fn plan_change(&self, change: &TerminalChange) -> (plan: EventPlan)
        ensures
            plan == self@.refresh(change.terminal_session_id, change.terminal_revision),
    {
        self.plan_refresh(change.terminal_session_id, change.terminal_revision)
    }

    fn plan_refresh(&self, session: TerminalSessionId, announced: u64) -> (plan: EventPlan)
        ensures
            plan == self@.refresh(session, announced),
    {
        match self.revisions.get(session.0) {
            Some(revision) => if announced > *revision {
                EventPlan::RefreshTerminal { terminal_session_id: session, since: *revision }
            } else {
                EventPlan::Nothing
            },
            None => EventPlan::Nothing,
        }
    }

    pub fn plan_event(&self, kind: &SemanticEventKind) -> (plan: EventPlan)
        ensures
            plan == match *kind {
                SemanticEventKind::TerminalLifecycleChanged {
                    terminal_session_id,
                    terminal_revision,
                    ..
                } => self@.refresh(terminal_session_id, terminal_revision),
                SemanticEventKind::HierarchyChanged { revision } => if revision
                    > self@.hierarchy_revision {
                    EventPlan::RefreshHierarchy
                } else {
                    EventPlan::Nothing
                },
            },
    {
        match kind {
            SemanticEventKind::TerminalLifecycleChanged {
                terminal_session_id,
                terminal_revision,
                ..
            } => self.plan_refresh(*terminal_session_id, *terminal_revision),
            SemanticEventKind::HierarchyChanged { revision } => if *revision
                > self.hierarchy_revision {
                EventPlan::RefreshHierarchy
            } else {
                EventPlan::Nothing
            },
        }
    }

    /// Takes what a terminal has become.
    pub fn finish_refresh(
        &mut self,
        session: TerminalSessionId,
        snapshot: Option<TerminalSnapshot>,
    ) -> (update: Option<DriverUpdate>)
        ensures
            match snapshot {
                Some(snapshot) => {
                    &&& update == Some(
                        DriverUpdate::Terminal { terminal_session_id: session, snapshot },
                    )
                    &&& final(self)@ == (DriverView {
                        revisions: old(self)@.revisions.insert(session.0, snapshot.revision),
                        ..old(self)@
                    })
                },
                None => update is None && final(self)@ == old(self)@,
            },
    {
        match snapshot {
            Some(snapshot) => {
                self.revisions.insert(session.0, snapshot.revision);
                Some(DriverUpdate::Terminal { terminal_session_id: session, snapshot })
            },
            None => None,
        }
    }
}

/// The first error of a batch of sizes.
pub fn note_resize(first_error: &mut Option<String>, result: Result<(), String>)
    ensures
        *final(first_error) == match (*old(first_error), result) {
            (Some(error), _) => Some(error),
            (None, Ok(())) => None,
            (None, Err(error)) => Some(error),
        },
{
    if let Err(error) = result {
        if first_error.is_none() {
            *first_error = Some(error);
        }
    }
}

/// A hierarchy that is being told, terminal by terminal.
pub struct Synchronization {
    snapshot: CoreSnapshot,
    revisions: Table<u64>,
    waiting: Vec<u64>,
    terminals: Vec<(TerminalSessionId, TerminalSnapshot)>,
}

#[verifier::ext_equal]
pub struct SynchronizationView {
    pub hierarchy: HierarchyView,
    pub revisions: Map<u64, u64>,
    /// The sessions whose terminals are still to be read, in order.
    pub waiting: Seq<u64>,
    pub terminals: Seq<(TerminalSessionId, TerminalSnapshot)>,
}

impl View for Synchronization {
    type V = SynchronizationView;

    closed spec fn view(&self) -> SynchronizationView {
        SynchronizationView {
            hierarchy: self.snapshot@,
            revisions: self.revisions@,
            waiting: self.waiting@,
            terminals: self.terminals@,
        }
    }
}

impl SynchronizationView {
    /// Whether each session of the hierarchy either has a revision or waits.
    pub open spec fn well_formed(self) -> bool {
        &&& ascending(self.waiting)
        &&& forall|session: u64| #[trigger]
            session_set(self.hierarchy.sessions).contains(session) <==> (
            self.revisions.contains_key(session) || self.waiting.contains(session))
        &&& forall|session: u64| #[trigger]
            self.waiting.contains(session) ==> !self.revisions.contains_key(session)
    }
}

/// Whether `updates` tell a hierarchy and the terminals that were read of it.
pub open spec fn is_told_hierarchy(
    updates: Seq<DriverUpdate>,
    synchronization: SynchronizationView,
) -> bool {
    &&& updates.len() == synchronization.terminals.len() + 1
    &&& updates[0] is Hierarchy && updates[0]->Hierarchy_0@ == synchronization.hierarchy
    &&& forall|i: int|
        0 <= i < synchronization.terminals.len() ==> #[trigger] updates[i + 1] == (
        DriverUpdate::Terminal {
            terminal_session_id: synchronization.terminals[i].0,
            snapshot: synchronization.terminals[i].1,
        })
}

impl Synchronization {
    /// Begins to tell a hierarchy to a window that has been told `state`.
    pub fn begin(state: &DriverState, snapshot: CoreSnapshot) -> (synchronization: Self)
        ensures
            synchronization@.hierarchy == snapshot@,
            synchronization@.revisions == state@.revisions.restrict(
                session_set(snapshot@.sessions),
            ),
            synchronization@.terminals.len() == 0,
            synchronization@.well_formed(),
    {
        let keys = session_keys(&snapshot.terminal_sessions);
        let ghost sessions = session_set(snapshot@.sessions);
        let mut revisions: Table<u64> = Table::new();
        let mut new_terminals: Table<()> = Table::new();
        let mut index: usize = 0;
        proof {
            assert(revisions@ =~= known_part(state@.revisions, keys@.take(0)));
            assert(new_terminals@ =~= new_part(state@.revisions, keys@.take(0)));
        }
        while index < keys.len()
            invariant
                index <= keys@.len(),
                revisions@ == known_part(state@.revisions, keys@.take(index as int)),
                new_terminals@ == new_part(state@.revisions, keys@.take(index as int)),
            decreases keys@.len() - index,
        {
            let key = keys[index];
            proof {
                let longer = keys@.take(index + 1);
                assert(longer =~= keys@.take(index as int).push(key));
                assert(longer[index as int] == key);
                assert forall|other: u64| #[trigger]
                    longer.contains(other) <==> keys@.take(index as int).contains(other) || other
                        == key by {
                    if keys@.take(index as int).contains(other) {
                        let i = keys@.take(index as int).index_of(other);
                        assert(longer[i] == other);
                    }
                }
            }
            match state.revisions.get(key) {
                Some(revision) => revisions.insert(key, *revision),
                None => new_terminals.insert(key, ()),
            }
            index += 1;
            proof {
                assert(revisions@ =~= known_part(state@.revisions, keys@.take(index as int)));
                assert(new_terminals@ =~= new_part(state@.revisions, keys@.take(index as int)));
            }
        }
        proof {
            assert(keys@.take(index as int) =~= keys@);
            assert forall|id: u64| keys@.contains(id) == #[trigger] sessions.contains(id) by {
                assert(keys@.contains(id) == keys@.to_set().contains(id));
            }
            assert(revisions@ =~= state@.revisions.restrict(sessions));
        }
        let count = new_terminals.len();
        let ghost order = new_terminals.keys();
        let mut waiting: Vec<u64> = Vec::new();
        let mut place: usize = 0;
        while place < count
            invariant
                place <= count == order.len(),
                order == new_terminals.keys(),
                waiting@ == order.take(place as int),
            decreases count - place,
        {
            waiting.push(new_terminals.key_at(place));
            place += 1;
            proof {
                assert(order.take(place as int) =~= order.take(place - 1).push(order[place - 1]));
            }
        }
        let synchronization = Synchronization { snapshot, revisions, waiting, terminals: Vec::new() };
        proof {
            assert(order.take(place as int) =~= order);
            assert forall|session: u64| #[trigger] sessions.contains(session) <==> (
            synchronization@.revisions.contains_key(session)
                || synchronization@.waiting.contains(session)) by {
                assert(new_terminals@.contains_key(session) <==> order.contains(session));
            }
            assert forall|session: u64| #[trigger]
                synchronization@.waiting.contains(
                    session,
                ) implies !synchronization@.revisions.contains_key(session) by {
                assert(new_terminals@.contains_key(session) <==> order.contains(session));
            }
        }
        synchronization
    }

    /// The session whose terminal is to be read next.
    pub fn next(&self) -> (session: Option<TerminalSessionId>)
        ensures
            session == if self@.waiting.len() > 0 {
                Some(TerminalSessionId(self@.waiting[0]))
            } else {
                None
            },
    {
        if self.waiting.len() > 0 {
            Some(TerminalSessionId(self.waiting[0]))
        } else {
            None
        }
    }

    /// Takes the terminal that was to be read next.
    pub fn accept(&mut self, snapshot: TerminalSnapshot)
        requires
            old(self)@.waiting.len() > 0,
            old(self)@.well_formed(),
        ensures
            final(self)@ == (SynchronizationView {
                revisions: old(self)@.revisions.insert(old(self)@.waiting[0], snapshot.revision),
                waiting: old(self)@.waiting.skip(1),
                terminals: old(self)@.terminals.push(
                    (TerminalSessionId(old(self)@.waiting[0]), snapshot),
                ),
                ..old(self)@
            }),
            final(self)@.well_formed(),
    {
        let ghost before = self@;
        let session = self.waiting.remove(0);
        self.revisions.insert(session, snapshot.revision);
        self.terminals.push((TerminalSessionId(session), snapshot));
        proof {
            let rest = before.waiting.skip(1);
            assert(self@.waiting =~= rest);
            assert forall|i: int, j: int| 0 <= i < j < rest.len() implies #[trigger] rest[i]
                < #[trigger] rest[j] by {
                assert(before.waiting[i + 1] < before.waiting[j + 1]);
            }
            assert forall|other: u64| #[trigger] rest.contains(other) <==> before.waiting.contains(
                other,
            ) && other != session by {
                if rest.contains(other) {
                    let i = rest.index_of(other);
                    assert(before.waiting[i + 1] == other);
                    assert(before.waiting[0] < before.waiting[i + 1]);
                }
                if before.waiting.contains(other) && other != session {
                    let i = before.waiting.index_of(other);
                    assert(rest[i - 1] == other);
                }
            }
            assert(before.waiting.contains(session)) by {
                assert(before.waiting[0] == session);
            }
            assert(self@.well_formed());
        }
    }

    /// Ends where every terminal was read; gives what the window is told.
    pub fn finish(self, state: &mut DriverState) -> (updates: Vec<DriverUpdate>)
        requires
            self@.waiting.len() == 0,
            self@.well_formed(),
        ensures
            final(state)@ == (DriverView {
                hierarchy_revision: self@.hierarchy.revision,
                revisions: self@.revisions,
            }),
            final(state)@.revisions.dom() == session_set(self@.hierarchy.sessions),
            is_told_hierarchy(updates@, self@),
    {
        let ghost all = self@.terminals;
        proof {
            assert(self@.revisions.dom() =~= session_set(self@.hierarchy.sessions));
        }
        let Synchronization { snapshot, revisions, waiting: _, terminals } = self;
        state.hierarchy_revision = snapshot.revision;
        state.revisions = revisions;
        let mut backwards = terminals;
        let mut reversed: Vec<(TerminalSessionId, TerminalSnapshot)> = Vec::new();
        while backwards.len() > 0
            invariant
                backwards@.len() + reversed@.len() == all.len(),
                backwards@ == all.take(backwards@.len() as int),
                forall|i: int|
                    0 <= i < reversed@.len() ==> #[trigger] reversed@[i] == all[all.len() - 1 - i],
            decreases backwards@.len(),
        {
            let ghost count = backwards@.len() as int;
            if let Some(terminal) = backwards.pop() {
                reversed.push(terminal);
            }
            proof {
                assert(all.take(count).drop_last() =~= all.take(count - 1));
            }
        }
        let mut updates: Vec<DriverUpdate> = Vec::new();
        let ghost told = snapshot@;
        updates.push(DriverUpdate::Hierarchy(snapshot));
        while reversed.len() > 0
            invariant
                reversed@.len() + updates@.len() == all.len() + 1,
                updates@.len() >= 1,
                updates@[0] is Hierarchy && updates@[0]->Hierarchy_0@ == told,
                forall|i: int|
                    0 <= i < reversed@.len() ==> #[trigger] reversed@[i] == all[all.len() - 1 - i],
                forall|i: int|
                    0 <= i < updates@.len() - 1 ==> #[trigger] updates@[i + 1] == (
                    DriverUpdate::Terminal {
                        terminal_session_id: all[i].0,
                        snapshot: all[i].1,
                    }),
            decreases reversed@.len(),
        {
            if let Some((terminal_session_id, snapshot)) = reversed.pop() {
                updates.push(DriverUpdate::Terminal { terminal_session_id, snapshot });
            }
        }
        updates
    }

    /// What a terminal that cannot be read means, by the hierarchy as it is
    /// now: where the session is gone, that hierarchy takes this one's place.
    pub fn supersede(&self, session: TerminalSessionId, current: CoreSnapshot, error: String) -> (
    result: Result<CoreSnapshot, String>)
        ensures
            if current@.revision >= self@.hierarchy.revision && !session_set(
                current@.sessions,
            ).contains(session.0) {
                result == Ok::<CoreSnapshot, String>(current)
            } else {
                result == Err::<CoreSnapshot, String>(error)
            },
    {
        let keys = session_keys(&current.terminal_sessions);
        let still_present = crate::table::contains_key(&keys, session.0);
        proof {
            assert(keys@.contains(session.0) == keys@.to_set().contains(session.0));
        }
        if current.revision >= self.snapshot.revision && !still_present {
            Ok(current)
        } else {
            Err(error)
        }
    }
}

spec fn known_part(revisions: Map<u64, u64>, keys: Seq<u64>) -> Map<u64, u64> {
    Map::new(
        |id: u64| keys.contains(id) && revisions.contains_key(id),
        |id: u64| revisions[id],
    )
}

spec fn new_part(revisions: Map<u64, u64>, keys: Seq<u64>) -> Map<u64, ()> {
    Map::new(|id: u64| keys.contains(id) && !revisions.contains_key(id), |id: u64| ())
}

/// That a hierarchy changed too often while it was told, in words.
pub fn restless_message(loading: bool) -> (message: String)
    ensures
        message@ == if loading {
            "application hierarchy kept changing while loading terminal snapshots"@
        } else {
            "application hierarchy kept changing while synchronizing terminal snapshots"@
        },
{
    if loading {
        "application hierarchy kept changing while loading terminal snapshots".to_owned()
    } else {
        "application hierarchy kept changing while synchronizing terminal snapshots".to_owned()
    }
}

/// A hierarchy is told before the terminals that were read of it, and each of those
/// as it was read, in turn.
pub proof fn law_hierarchies_are_told_with_their_terminals(
    updates: Seq<DriverUpdate>,
    synchronization: SynchronizationView,
    index: int,
)
    requires
        is_told_hierarchy(updates, synchronization),
    ensures
        updates.len() == 1 + synchronization.terminals.len(),
        updates[0] matches DriverUpdate::Hierarchy(told) && told@ == synchronization.hierarchy,
        0 <= index < synchronization.terminals.len() ==> {
            let (session, shown) = synchronization.terminals[index];
            &&& updates[1 + index] is Terminal
            &&& updates[1 + index]->terminal_session_id == session
            &&& updates[1 + index]->snapshot == shown
        },
{
    if 0 <= index < synchronization.terminals.len() {
        assert(updates[index + 1] is Terminal);
    }
}

/// Every size that was asked for is listed, once, and no other.
pub proof fn law_all_sizes_are_listed(
    sizes: Seq<(TerminalSessionId, TerminalSize)>,
    batch: Map<u64, TerminalSize>,
    session: TerminalSessionId,
    index: int,
    other: int,
)
    requires
        lists_sizes(sizes, batch),
    ensures
        batch.contains_key(session.0) ==> sizes.contains((session, batch[session.0])),
        0 <= index < sizes.len() ==> ({
            let (listed, size) = sizes[index];
            batch.contains_key(listed.0) && batch[listed.0] == size
        }),
        0 <= index < sizes.len() && 0 <= other < sizes.len() && index != other ==> sizes[index]
            != sizes[other],
{
    assert(TerminalSessionId(session.0) == session);
    if 0 <= index < other < sizes.len() {
        let (left, _) = sizes[index];
        let (right, _) = sizes[other];
        assert(left.0 < right.0);
    }
    if 0 <= other < index < sizes.len() {
        let (left, _) = sizes[other];
        let (right, _) = sizes[index];
        assert(left.0 < right.0);
    }
}

/// A command that could not be handed over is told to have failed.
pub proof fn law_lost_commands_are_told(handover: Handover)
    ensures
        send_error(handover) is None <==> handover is Queued,
        handover is Full ==> send_error(handover) == Some("window driver command queue is busy"@),
        handover is Stopped ==> send_error(handover) == Some("window driver stopped"@),
{
}

} // verus!
