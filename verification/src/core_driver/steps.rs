//! What a driver does, one step at a time: each step names the outside work
//! that comes next, and holds what is needed to go on after it.

use super::{
    is_told_hierarchy, restless_message, Command, DriverState, DriverUpdate, DriverView,
    EventPlan, Synchronization, SynchronizationView, MAX_HIERARCHY_REFRESH_ATTEMPTS,
};
use crate::application_core::{
    CoreCommandOutcome, SemanticEventKind, TerminalChange, TerminalSnapshot,
};
use crate::core_model::{CoreCommand, CoreSnapshot, HierarchyView, TerminalSessionId};
use crate::resident_core::control::session_set;
use crate::terminal::{TerminalSize, TerminalTheme};
use vstd::prelude::*;
use vstd::string::*;

verus! {

/// What wakes a driver.
pub enum DriverEvent {
    Command(Command),
    CommandsClosed,
    TerminalChanged(TerminalChange),
    TerminalChangesClosed,
    Semantic(SemanticEventKind),
    SemanticEventsClosed,
}

/// What comes next.
pub enum Step {
    /// The window is told, and the driver waits for the next event.
    Publish(Vec<DriverUpdate>),
    Stop,
    Apply(CoreCommand, Applying),
    Input { terminal_session_id: TerminalSessionId, bytes: Vec<u8> },
    Paste { terminal_session_id: TerminalSessionId, bytes: Vec<u8> },
    SetTheme { theme: TerminalTheme },
    TakeBatch { batch_id: u64 },
    Resize(Resizing),
    Refresh { terminal_session_id: TerminalSessionId, since: u64 },
    AskHierarchy,
    /// A terminal of the hierarchy is to be read.
    Read(Reading),
    /// A terminal could not be read: the hierarchy is asked for once more.
    Check(Checking),
}

/// A command that is being applied.
pub struct Applying {
    command_id: u64,
}

/// A batch of sizes that is being applied.
pub struct Resizing {
    current: (TerminalSessionId, TerminalSize),
    rest: Vec<(TerminalSessionId, TerminalSize)>,
    first_error: Option<String>,
}

/// A command that was accepted; the window learns of it once it knows the
/// hierarchy.
pub struct Accepted {
    pub command_id: u64,
    pub outcome: CoreCommandOutcome,
}

/// A hierarchy that is being told, one of whose terminals is to be read.
pub struct Reading {
    synchronization: Synchronization,
    attempt: usize,
    loading: bool,
    accepted: Option<Accepted>,
}

/// A hierarchy that is being told, one of whose terminals could not be read.
pub struct Checking {
    reading: Reading,
    error: String,
}

impl Applying {
    pub closed spec fn command_id(self) -> u64 {
        self.command_id
    }
}

impl Resizing {
    pub closed spec fn current(self) -> (TerminalSessionId, TerminalSize) {
        self.current
    }

    pub closed spec fn rest(self) -> Seq<(TerminalSessionId, TerminalSize)> {
        self.rest@
    }

    pub closed spec fn first_error(self) -> Option<String> {
        self.first_error
    }
}

impl Reading {
    pub closed spec fn synchronization(self) -> SynchronizationView {
        self.synchronization@
    }

    /// How often a hierarchy has been told so far, with this one.
    pub closed spec fn attempt(self) -> usize {
        self.attempt
    }

    /// Whether the window is told its first hierarchy.
    pub closed spec fn loading(self) -> bool {
        self.loading
    }

    pub closed spec fn accepted(self) -> Option<Accepted> {
        self.accepted
    }

    #[verifier::type_invariant]
    spec fn well_formed(self) -> bool {
        &&& self.synchronization@.well_formed()
        &&& self.synchronization@.waiting.len() > 0
        &&& 1 <= self.attempt <= MAX_HIERARCHY_REFRESH_ATTEMPTS
    }
}

impl Checking {
    pub closed spec fn reading(self) -> Reading {
        self.reading
    }

    pub closed spec fn error(self) -> String {
        self.error
    }
}

/// Whether a step tells the window of an error, and nothing else.
pub open spec fn tells_error(step: Step, error: Seq<char>) -> bool {
    match step {
        Step::Publish(updates) => updates@.len() == 1 && match updates@[0] {
            DriverUpdate::Error(told) => told@ == error,
            _ => false,
        },
        _ => false,
    }
}

/// Whether a step tells the window nothing.
pub open spec fn tells_nothing(step: Step) -> bool {
    match step {
        Step::Publish(updates) => updates@.len() == 0,
        _ => false,
    }
}

fn tell_error(error: String) -> (step: Step)
    ensures
        tells_error(step, error@),
{
    let mut updates: Vec<DriverUpdate> = Vec::new();
    updates.push(DriverUpdate::Error(error));
    Step::Publish(updates)
}

fn tell(update: DriverUpdate) -> (step: Step)
    ensures
        step matches Step::Publish(updates) && updates@ == seq![update],
{
    let mut updates: Vec<DriverUpdate> = Vec::new();
    updates.push(update);
    proof {
        assert(updates@ =~= seq![update]);
    }
    Step::Publish(updates)
}

/// What an event leads to.
pub open spec fn begins(state: DriverView, event: DriverEvent, step: Step) -> bool {
    match event {
        DriverEvent::CommandsClosed => step is Stop,
        DriverEvent::Command(Command::Apply { command_id, command }) => {
            &&& step matches Step::Apply(applied, applying)
            &&& applied == command
            &&& applying.command_id() == command_id
        },
        DriverEvent::Command(Command::Input { terminal_session_id, bytes }) => step == (
        Step::Input { terminal_session_id, bytes }),
        DriverEvent::Command(Command::Paste { terminal_session_id, bytes }) => step == (
        Step::Paste { terminal_session_id, bytes }),
        DriverEvent::Command(Command::SetTerminalTheme { theme }) => step == (Step::SetTheme {
            theme,
        }),
        DriverEvent::Command(Command::ResizeBatch { batch_id }) => step == (Step::TakeBatch {
            batch_id,
        }),
        DriverEvent::TerminalChanged(change) => plans(
            state.refresh(change.terminal_session_id, change.terminal_revision),
            step,
        ),
        DriverEvent::TerminalChangesClosed => tells_error(
            step,
            "terminal runtime stopped while waiting for a change"@,
        ),
        DriverEvent::Semantic(
            SemanticEventKind::TerminalLifecycleChanged {
                terminal_session_id,
                terminal_revision,
                ..
            },
        ) => plans(state.refresh(terminal_session_id, terminal_revision), step),
        DriverEvent::Semantic(SemanticEventKind::HierarchyChanged { revision }) => if revision
            > state.hierarchy_revision {
            step is AskHierarchy
        } else {
            tells_nothing(step)
        },
        DriverEvent::SemanticEventsClosed => tells_error(
            step,
            "terminal runtime stopped while waiting for a hierarchy event"@,
        ),
    }
}

/// Whether a step does what an event asks for.
pub open spec fn plans(plan: EventPlan, step: Step) -> bool {
    match plan {
        EventPlan::Nothing => tells_nothing(step),
        EventPlan::RefreshTerminal { terminal_session_id, since } => step == (Step::Refresh {
            terminal_session_id,
            since,
        }),
        EventPlan::RefreshHierarchy => step is AskHierarchy,
    }
}

fn follow(plan: EventPlan) -> (step: Step)
    ensures
        plans(plan, step),
{
    match plan {
        EventPlan::Nothing => Step::Publish(Vec::new()),
        EventPlan::RefreshTerminal { terminal_session_id, since } => Step::Refresh {
            terminal_session_id,
            since,
        },
        EventPlan::RefreshHierarchy => Step::AskHierarchy,
    }
}

/// What an event leads to.
pub fn begin(state: &DriverState, event: DriverEvent) -> (step: Step)
    ensures
        begins(state@, event, step),
{
    match event {
        DriverEvent::CommandsClosed => Step::Stop,
        DriverEvent::Command(command) => match command {
            Command::Apply { command_id, command } => Step::Apply(command, Applying { command_id }),
            Command::Input { terminal_session_id, bytes } => Step::Input {
                terminal_session_id,
                bytes,
            },
            Command::SetTerminalTheme { theme } => Step::SetTheme { theme },
            Command::Paste { terminal_session_id, bytes } => Step::Paste {
                terminal_session_id,
                bytes,
            },
            Command::ResizeBatch { batch_id } => Step::TakeBatch { batch_id },
        },
        DriverEvent::TerminalChanged(change) => follow(state.plan_change(&change)),
        DriverEvent::TerminalChangesClosed => tell_error(
            "terminal runtime stopped while waiting for a change".to_owned(),
        ),
        DriverEvent::Semantic(kind) => follow(state.plan_event(&kind)),
        DriverEvent::SemanticEventsClosed => tell_error(
            "terminal runtime stopped while waiting for a hierarchy event".to_owned(),
        ),
    }
}

/// What comes of input or a paste.
pub fn finish_sent(result: Result<(), String>) -> (step: Step)
    ensures
        match result {
            Ok(()) => tells_nothing(step),
            Err(error) => tells_error(step, error@),
        },
{
    match result {
        Ok(()) => Step::Publish(Vec::new()),
        Err(error) => tell_error(error),
    }
}

/// Whether a step goes on with a batch of sizes, or ends it.
pub open spec fn resizes(
    step: Step,
    rest: Seq<(TerminalSessionId, TerminalSize)>,
    first_error: Option<String>,
) -> bool {
    if rest.len() > 0 {
        &&& step matches Step::Resize(resizing)
        &&& resizing.current() == rest[0]
        &&& resizing.rest() == rest.skip(1)
        &&& resizing.first_error() == first_error
    } else {
        match first_error {
            Some(error) => tells_error(step, error@),
            None => tells_nothing(step),
        }
    }
}

fn go_on_resizing(
    rest: Vec<(TerminalSessionId, TerminalSize)>,
    first_error: Option<String>,
) -> (step: Step)
    ensures
        resizes(step, rest@, first_error),
{
    if rest.len() == 0 {
        return match first_error {
            Some(error) => tell_error(error),
            None => Step::Publish(Vec::new()),
        };
    }
    let mut rest = rest;
    let ghost all = rest@;
    let current = rest.remove(0);
    proof {
        assert(rest@ =~= all.skip(1));
    }
    Step::Resize(Resizing { current, rest, first_error })
}

/// Begins to apply a batch of sizes.
pub fn begin_batch(batch: Result<Vec<(TerminalSessionId, TerminalSize)>, String>) -> (step: Step)
    ensures
        match batch {
            Ok(sizes) => resizes(step, sizes@, None),
            Err(error) => tells_error(step, error@),
        },
{
    match batch {
        Ok(sizes) => go_on_resizing(sizes, None),
        Err(error) => tell_error(error),
    }
}

impl Resizing {
    /// The terminal that gets a size, and the size.
    pub fn size(&self) -> (size: (TerminalSessionId, TerminalSize))
        ensures
            size == self.current(),
    {
        self.current
    }

    /// Goes on with the next size; the first error is told in the end.
    pub fn finish(self, result: Result<(), String>) -> (step: Step)
        ensures
            resizes(
                step,
                self.rest(),
                match (self.first_error(), result) {
                    (Some(error), _) => Some(error),
                    (None, Ok(())) => None,
                    (None, Err(error)) => Some(error),
                },
            ),
    {
        let mut first_error = self.first_error;
        super::note_resize(&mut first_error, result);
        go_on_resizing(self.rest, first_error)
    }
}

/// What comes of asking for a terminal's changes.
pub fn finish_refresh(
    state: &mut DriverState,
    session: TerminalSessionId,
    result: Result<Option<TerminalSnapshot>, String>,
) -> (step: Step)
    ensures
        match result {
            Ok(Some(snapshot)) => {
                &&& step matches Step::Publish(updates) && updates@ == seq![
                    DriverUpdate::Terminal { terminal_session_id: session, snapshot },
                ]
                &&& final(state)@ == (DriverView {
                    revisions: old(state)@.revisions.insert(session.0, snapshot.revision),
                    ..old(state)@
                })
            },
            Ok(None) => tells_nothing(step) && final(state)@ == old(state)@,
            Err(error) => tells_error(step, error@) && final(state)@ == old(state)@,
        },
{
    match result {
        Err(error) => tell_error(error),
        Ok(snapshot) => match state.finish_refresh(session, snapshot) {
            Some(update) => tell(update),
            None => Step::Publish(Vec::new()),
        },
    }
}

/// Whether a step goes on with a hierarchy that is being told, or tells it
/// where all its terminals were read: first the hierarchy, then the terminals,
/// and last the command that led to it.
pub open spec fn proceeds(
    step: Step,
    before: DriverView,
    after: DriverView,
    synchronization: SynchronizationView,
    attempt: usize,
    loading: bool,
    accepted: Option<Accepted>,
) -> bool {
    if synchronization.waiting.len() > 0 {
        &&& step matches Step::Read(reading)
        &&& reading.synchronization() == synchronization
        &&& reading.attempt() == attempt
        &&& reading.loading() == loading
        &&& reading.accepted() == accepted
        &&& after == before
    } else {
        &&& step matches Step::Publish(updates)
        &&& after == (DriverView {
            hierarchy_revision: synchronization.hierarchy.revision,
            revisions: synchronization.revisions,
        })
        &&& match accepted {
            Some(accepted) => updates@.len() > 0 && is_told_hierarchy(
                updates@.drop_last(),
                synchronization,
            ) && updates@.last() == (DriverUpdate::CommandAccepted {
                command_id: accepted.command_id,
                outcome: accepted.outcome,
            }),
            None => is_told_hierarchy(updates@, synchronization),
        }
    }
}

/// Whether a step begins to tell a hierarchy to a window that has been told
/// `before`.
pub open spec fn synchronizes(
    step: Step,
    before: DriverView,
    after: DriverView,
    hierarchy: HierarchyView,
    attempt: usize,
    loading: bool,
    accepted: Option<Accepted>,
) -> bool {
    exists|synchronization: SynchronizationView|
        {
            &&& synchronization.hierarchy == hierarchy
            &&& synchronization.revisions == before.revisions.restrict(
                session_set(hierarchy.sessions),
            )
            &&& synchronization.terminals.len() == 0
            &&& synchronization.well_formed()
            &&& #[trigger] proceeds(
                step,
                before,
                after,
                synchronization,
                attempt,
                loading,
                accepted,
            )
        }
}

fn proceed(
    state: &mut DriverState,
    synchronization: Synchronization,
    attempt: usize,
    loading: bool,
    accepted: Option<Accepted>,
) -> (step: Step)
    requires
        synchronization@.well_formed(),
        1 <= attempt <= MAX_HIERARCHY_REFRESH_ATTEMPTS,
    ensures
        proceeds(
            step,
            old(state)@,
            final(state)@,
            synchronization@,
            attempt,
            loading,
            accepted,
        ),
{
    if synchronization.next().is_some() {
        return Step::Read(Reading { synchronization, attempt, loading, accepted });
    }
    let mut updates = synchronization.finish(state);
    let ghost told = updates@;
    if let Some(accepted) = accepted {
        updates.push(
            DriverUpdate::CommandAccepted {
                command_id: accepted.command_id,
                outcome: accepted.outcome,
            },
        );
        proof {
            assert(updates@.drop_last() =~= told);
        }
    }
    Step::Publish(updates)
}

fn synchronize(
    state: &mut DriverState,
    snapshot: CoreSnapshot,
    attempt: usize,
    loading: bool,
    accepted: Option<Accepted>,
) -> (step: Step)
    requires
        1 <= attempt <= MAX_HIERARCHY_REFRESH_ATTEMPTS,
    ensures
        synchronizes(
            step,
            old(state)@,
            final(state)@,
            snapshot@,
            attempt,
            loading,
            accepted,
        ),
{
    let synchronization = Synchronization::begin(state, snapshot);
    proceed(state, synchronization, attempt, loading, accepted)
}

/// Begins to tell the first hierarchy to a window.
pub fn load(snapshot: CoreSnapshot) -> (loaded: (DriverState, Step))
    ensures
        synchronizes(
            loaded.1,
            (DriverView { hierarchy_revision: 0, revisions: Map::empty() }),
            loaded.0@,
            snapshot@,
            1,
            true,
            None,
        ),
{
    let mut state = DriverState::new();
    let step = synchronize(&mut state, snapshot, 1, true, None);
    (state, step)
}

impl Applying {
    /// What comes of a command: where it was accepted, the window is first told
    /// the hierarchy.
    pub fn finish(
        self,
        state: &mut DriverState,
        result: Result<CoreCommandOutcome, String>,
    ) -> (step: Step)
        ensures
            match result {
                Ok(outcome) => synchronizes(
                    step,
                    old(state)@,
                    final(state)@,
                    outcome.snapshot@,
                    1,
                    false,
                    Some(Accepted { command_id: self.command_id(), outcome }),
                ),
                Err(error) => {
                    &&& step matches Step::Publish(updates) && updates@ == seq![
                        DriverUpdate::CommandRejected { command_id: self.command_id(), error },
                    ]
                    &&& final(state)@ == old(state)@
                },
            },
    {
        match result {
            Ok(outcome) => {
                let snapshot = outcome.snapshot.clone();
                synchronize(
                    state,
                    snapshot,
                    1,
                    false,
                    Some(Accepted { command_id: self.command_id, outcome }),
                )
            },
            Err(error) => tell(
                DriverUpdate::CommandRejected { command_id: self.command_id, error },
            ),
        }
    }
}

/// What comes of asking for a hierarchy that has changed.
pub fn finish_hierarchy(state: &mut DriverState, result: Result<CoreSnapshot, String>) -> (step:
    Step)
    ensures
        match result {
            Ok(snapshot) => synchronizes(
                step,
                old(state)@,
                final(state)@,
                snapshot@,
                1,
                false,
                None,
            ),
            Err(error) => tells_error(step, error@) && final(state)@ == old(state)@,
        },
{
    match result {
        Ok(snapshot) => synchronize(state, snapshot, 1, false, None),
        Err(error) => tell_error(error),
    }
}

impl Reading {
    /// The session whose terminal is to be read.
    pub fn session(&self) -> (session: TerminalSessionId)
        ensures
            self.synchronization().waiting.len() > 0,
            session.0 == self.synchronization().waiting[0],
    {
        proof {
            use_type_invariant(self);
        }
        match self.synchronization.next() {
            Some(session) => session,
            None => TerminalSessionId(0),
        }
    }

    /// Goes on with what was read.
    pub fn finish(self, state: &mut DriverState, result: Result<TerminalSnapshot, String>) -> (step:
        Step)
        ensures
            match result {
                Ok(snapshot) => {
                    let before = self.synchronization();
                    proceeds(
                        step,
                        old(state)@,
                        final(state)@,
                        SynchronizationView {
                            revisions: before.revisions.insert(
                                before.waiting[0],
                                snapshot.revision,
                            ),
                            waiting: before.waiting.skip(1),
                            terminals: before.terminals.push(
                                (TerminalSessionId(before.waiting[0]), snapshot),
                            ),
                            ..before
                        },
                        self.attempt(),
                        self.loading(),
                        self.accepted(),
                    )
                },
                Err(error) => {
                    &&& step matches Step::Check(checking) && checking.reading() == self
                        && checking.error() == error
                    &&& final(state)@ == old(state)@
                },
            },
    {
        proof {
            use_type_invariant(&self);
        }
        match result {
            Ok(snapshot) => {
                let Reading { synchronization, attempt, loading, accepted } = self;
                let mut synchronization = synchronization;
                synchronization.accept(snapshot);
                proceed(state, synchronization, attempt, loading, accepted)
            },
            Err(error) => Step::Check(Checking { reading: self, error }),
        }
    }
}

impl Checking {
    /// Goes on with the hierarchy as it is now: begins anew where the terminal
    /// is gone, as often as that may happen.
    pub fn finish(self, state: &mut DriverState, result: Result<CoreSnapshot, String>) -> (step:
        Step)
        ensures
            ({
                let reading = self.reading();
                let told = reading.synchronization().hierarchy;
                let session = reading.synchronization().waiting[0];
                match result {
                    Err(error) => tells_error(step, error@) && final(state)@ == old(state)@,
                    Ok(current) => if current@.revision < told.revision || session_set(
                        current@.sessions,
                    ).contains(session) {
                        tells_error(step, self.error()@) && final(state)@ == old(state)@
                    } else if reading.attempt() >= MAX_HIERARCHY_REFRESH_ATTEMPTS {
                        &&& tells_error(
                            step,
                            if reading.loading() {
                                "application hierarchy kept changing while loading terminal snapshots"@
                            } else {
                                "application hierarchy kept changing while synchronizing terminal snapshots"@
                            },
                        )
                        &&& final(state)@ == old(state)@
                    } else {
                        synchronizes(
                            step,
                            old(state)@,
                            final(state)@,
                            current@,
                            (reading.attempt() + 1) as usize,
                            reading.loading(),
                            reading.accepted(),
                        )
                    },
                }
            }),
    {
        let Checking { reading, error } = self;
        let current = match result {
            Ok(current) => current,
            Err(error) => return tell_error(error),
        };
        let session = reading.session();
        let Reading { synchronization, attempt, loading, accepted } = reading;
        match synchronization.supersede(session, current, error) {
            Err(error) => tell_error(error),
            Ok(current) => {
                if attempt >= MAX_HIERARCHY_REFRESH_ATTEMPTS {
                    return tell_error(restless_message(loading));
                }
                synchronize(state, current, attempt + 1, loading, accepted)
            },
        }
    }
}

/// A window that was told a hierarchy knows a revision of each of its
/// terminals, and of no other.
pub proof fn law_told_hierarchies_are_complete(
    step: Step,
    before: DriverView,
    after: DriverView,
    synchronization: SynchronizationView,
    attempt: usize,
    loading: bool,
    accepted: Option<Accepted>,
)
    requires
        synchronization.well_formed(),
        proceeds(step, before, after, synchronization, attempt, loading, accepted),
        step is Publish,
    ensures
        after.revisions.dom() == session_set(synchronization.hierarchy.sessions),
        after.hierarchy_revision == synchronization.hierarchy.revision,
{
    assert(after.revisions.dom() =~= session_set(synchronization.hierarchy.sessions));
}

/// A command that was accepted is told after the hierarchy that it led to.
pub proof fn law_accepted_commands_are_told_last(
    step: Step,
    before: DriverView,
    after: DriverView,
    synchronization: SynchronizationView,
    attempt: usize,
    loading: bool,
    accepted: Accepted,
)
    requires
        proceeds(step, before, after, synchronization, attempt, loading, Some(accepted)),
        step is Publish,
    ensures
        step->Publish_0@.len() >= 2,
        step->Publish_0@[0] is Hierarchy,
        step->Publish_0@.last() == (DriverUpdate::CommandAccepted {
            command_id: accepted.command_id,
            outcome: accepted.outcome,
        }),
{
    assert(step->Publish_0@[0] == step->Publish_0@.drop_last()[0]);
}

/// The window's commands are done as they were given, and nothing more is asked
/// where its commands end.
pub proof fn law_commands_are_done_as_given(state: DriverView, event: DriverEvent, step: Step)
    requires
        begins(state, event, step),
    ensures
        event matches DriverEvent::Command(command) ==> match command {
            Command::Apply { command_id, command } => step matches Step::Apply(applied, applying)
                && applied == command && applying.command_id() == command_id,
            Command::Input { terminal_session_id, bytes } => step matches Step::Input {
                terminal_session_id: session,
                bytes: sent,
            } && session == terminal_session_id && sent == bytes,
            Command::Paste { terminal_session_id, bytes } => step matches Step::Paste {
                terminal_session_id: session,
                bytes: sent,
            } && session == terminal_session_id && sent == bytes,
            Command::SetTerminalTheme { theme } => step matches Step::SetTheme { theme: asked }
                && asked == theme,
            Command::ResizeBatch { batch_id } => step matches Step::TakeBatch { batch_id: asked }
                && asked == batch_id,
        },
        step is Stop <==> event is CommandsClosed,
{
}

/// What the window knows already leads to nothing: neither an old change of a
/// terminal nor an old hierarchy. What is newer is asked for.
pub proof fn law_only_news_is_asked_for(state: DriverView, event: DriverEvent, step: Step)
    requires
        begins(state, event, step),
    ensures
        event matches DriverEvent::TerminalChanged(change) ==> {
            let known = state.revisions.contains_key(change.terminal_session_id.0);
            let revision = state.revisions[change.terminal_session_id.0];
            if known && revision < change.terminal_revision {
                step == (Step::Refresh {
                    terminal_session_id: change.terminal_session_id,
                    since: revision,
                })
            } else {
                step is Publish && step->Publish_0@.len() == 0
            }
        },
        event matches DriverEvent::Semantic(SemanticEventKind::HierarchyChanged { revision }) ==> {
            if state.hierarchy_revision < revision {
                step is AskHierarchy
            } else {
                step is Publish && step->Publish_0@.len() == 0
            }
        },
        event is TerminalChangesClosed || event is SemanticEventsClosed ==> step is Publish
            && step->Publish_0@.len() == 1 && step->Publish_0@[0] is Error,
{
}

/// A hierarchy whose terminals the window all knows is told at once, and alone; the
/// window then knows of its terminals what it knew.
pub proof fn law_known_terminals_are_not_read_again(
    step: Step,
    before: DriverView,
    after: DriverView,
    hierarchy: HierarchyView,
    attempt: usize,
    loading: bool,
)
    requires
        synchronizes(step, before, after, hierarchy, attempt, loading, None),
        forall|i: int|
            0 <= i < hierarchy.sessions.len() ==> before.revisions.contains_key(
                (#[trigger] hierarchy.sessions[i]).id.0,
            ),
    ensures
        step matches Step::Publish(updates) && updates@.len() == 1 && updates@[0] is Hierarchy
            && updates@[0]->Hierarchy_0@ == hierarchy,
        after.hierarchy_revision == hierarchy.revision,
        forall|i: int|
            0 <= i < hierarchy.sessions.len() ==> after.revisions.contains_key(
                (#[trigger] hierarchy.sessions[i]).id.0,
            ) && after.revisions[hierarchy.sessions[i].id.0]
                == before.revisions[hierarchy.sessions[i].id.0],
{
    let synchronization = choose|synchronization: SynchronizationView|
        {
            &&& synchronization.hierarchy == hierarchy
            &&& synchronization.revisions == before.revisions.restrict(
                session_set(hierarchy.sessions),
            )
            &&& synchronization.terminals.len() == 0
            &&& synchronization.well_formed()
            &&& #[trigger] proceeds(
                step,
                before,
                after,
                synchronization,
                attempt,
                loading,
                None,
            )
        };
    if synchronization.waiting.len() > 0 {
        let session = synchronization.waiting[0];
        assert(synchronization.waiting.contains(session));
        assert(session_set(hierarchy.sessions).contains(session));
        let i = choose|i: int|
            0 <= i < hierarchy.sessions.len() && (#[trigger] hierarchy.sessions[i]).id.0 == session;
        assert(before.revisions.contains_key(hierarchy.sessions[i].id.0));
        assert(synchronization.revisions.contains_key(session));
    }
    assert forall|i: int| 0 <= i < hierarchy.sessions.len() implies after.revisions.contains_key(
        (#[trigger] hierarchy.sessions[i]).id.0,
    ) && after.revisions[hierarchy.sessions[i].id.0]
        == before.revisions[hierarchy.sessions[i].id.0] by {
        assert(session_set(hierarchy.sessions).contains(hierarchy.sessions[i].id.0));
    }
}

} // verus!
