//! The processes behind terminals: what is sent to them, what comes from
//! them, and which of them are agents.

pub mod threads;

use crate::agent_integration::{process_agent, AgentProgram};
use crate::sequences::{lemma_total_update, total};
use crate::table::Table;
use vstd::prelude::*;
use vstd::string::*;

verus! {

/// A terminal's extent in cells and in pixels.
#[derive(Clone, Copy, Debug, PartialEq, Eq, Structural)]
pub struct PtySize {
    pub rows: u16,
    pub cols: u16,
    pub pixel_width: u16,
    pub pixel_height: u16,
}

/// How many writes may wait for a process.
pub const PROCESS_WRITE_QUEUE_CAPACITY: usize = 64;

/// How many commands may wait for a process: the last place is kept for the
/// barrier around a change of size.
pub const PROCESS_INPUT_QUEUE_CAPACITY: usize = 65;

#[derive(Clone, Copy, Debug, PartialEq, Eq, Structural)]
pub enum ProcessInputStatus {
    Accepted,
    Backpressured,
}

/// The sending half of a channel of the `flume` crate.
#[verifier::external_type_specification]
#[verifier::external_body]
#[verifier::reject_recursive_types(T)]
pub struct ExSender<T>(flume::Sender<T>);

/// What a process is sent, and who waits for it to be done.
pub enum ProcessInput {
    Write(Vec<u8>),
    Resize { size: PtySize, completed: flume::Sender<Result<(), String>> },
    Flush { completed: flume::Sender<Result<(), String>> },
}

/// How handing something over went.
#[derive(Clone, Copy, Debug, PartialEq, Eq, Structural)]
pub enum Handover {
    Queued,
    Full,
    Stopped,
}

/// `flume::Sender::len`: how many commands wait. The writer takes commands out
/// on a thread of its own, so nothing is said of the number.
#[verifier::external_body]
fn waiting_commands(input: &flume::Sender<ProcessInput>) -> (count: usize) {
    input.len()
}

/// `flume::Sender::try_send`: hands a value over without waiting. Whether there
/// is room, and whether the other side still listens, depends on its thread, so
/// nothing is said of which of the three comes back.
#[verifier::external_body]
pub(crate) fn hand_over<T>(queue: &flume::Sender<T>, value: T) -> (handover: Handover) {
    match queue.try_send(value) {
        Ok(()) => Handover::Queued,
        Err(flume::TrySendError::Full(_)) => Handover::Full,
        Err(flume::TrySendError::Disconnected(_)) => Handover::Stopped,
    }
}

/// Whether a queue that is asked how many commands wait in it can tell `count`.
pub closed spec fn tells_waiting(input: &flume::Sender<ProcessInput>, count: usize) -> bool {
    call_ensures(waiting_commands, (input,), count)
}

/// Whether handing `command` over to a queue can go as `handover` says.
pub closed spec fn hands_over(
    input: &flume::Sender<ProcessInput>,
    command: ProcessInput,
    handover: Handover,
) -> bool {
    call_ensures(hand_over::<ProcessInput>, (input, command), handover)
}

/// That the writer of a process has stopped, in words.
pub open spec fn stopped_text(transport: Seq<char>) -> Seq<char> {
    transport + " input writer stopped"@
}

/// Whether `status` says what became of a write that was handed over.
pub open spec fn says_of_write(
    status: Result<ProcessInputStatus, String>,
    handover: Handover,
    transport: Seq<char>,
) -> bool {
    match handover {
        Handover::Queued => status == Ok::<_, String>(ProcessInputStatus::Accepted),
        Handover::Full => status == Ok::<_, String>(ProcessInputStatus::Backpressured),
        Handover::Stopped => status is Err && status->Err_0@ == stopped_text(transport),
    }
}

/// Whether `status` says what became of a barrier that was handed over.
pub open spec fn says_of_command(
    status: Result<(), String>,
    handover: Handover,
    transport: Seq<char>,
) -> bool {
    match handover {
        Handover::Queued => status is Ok,
        Handover::Full => status is Err && status->Err_0@ == transport + " input queue is full"@,
        Handover::Stopped => status is Err && status->Err_0@ == stopped_text(transport),
    }
}

/// Whether a write is handed over where `waiting` commands wait.
pub fn admits_write(waiting: usize) -> (admits: bool)
    ensures
        admits == (waiting < PROCESS_WRITE_QUEUE_CAPACITY),
        waiting >= 64 ==> !admits,
        waiting <= 63 ==> admits,
{
    waiting < PROCESS_WRITE_QUEUE_CAPACITY
}

/// What became of a write that was handed over.
pub fn write_status(handover: Handover, transport: &str) -> (status: Result<
    ProcessInputStatus,
    String,
>)
    ensures
        says_of_write(status, handover, transport@),
{
    match handover {
        Handover::Queued => Ok(ProcessInputStatus::Accepted),
        Handover::Full => Ok(ProcessInputStatus::Backpressured),
        Handover::Stopped => {
            let mut message = transport.to_owned();
            message.append(" input writer stopped");
            Err(message)
        },
    }
}

/// What became of a barrier that was handed over.
pub fn command_status(handover: Handover, transport: &str) -> (status: Result<(), String>)
    ensures
        says_of_command(status, handover, transport@),
{
    match handover {
        Handover::Queued => Ok(()),
        Handover::Full => {
            let mut message = transport.to_owned();
            message.append(" input queue is full");
            Err(message)
        },
        Handover::Stopped => {
            let mut message = transport.to_owned();
            message.append(" input writer stopped");
            Err(message)
        },
    }
}

/// Hands bytes to the writer of a process without waiting, where the queue tells
/// that few enough commands wait, and says what became of them. How many wait and
/// how the handover goes depends on the writer's thread.
pub fn enqueue_process_input(
    input: &flume::Sender<ProcessInput>,
    bytes: &[u8],
    transport: &str,
) -> (status: Result<ProcessInputStatus, String>)
    ensures
        exists|waiting: usize| #[trigger]
            tells_waiting(input, waiting) && if waiting < PROCESS_WRITE_QUEUE_CAPACITY {
                exists|written: Vec<u8>, handover: Handover| #[trigger]
                    hands_over(input, ProcessInput::Write(written), handover) && written@ == bytes@
                        && says_of_write(status, handover, transport@)
            } else {
                status == Ok::<_, String>(ProcessInputStatus::Backpressured)
            },
{
    let waiting = waiting_commands(input);
    proof {
        assert(tells_waiting(input, waiting));
    }
    if !admits_write(waiting) {
        return Ok(ProcessInputStatus::Backpressured);
    }
    let written = crate::bytes::copied(bytes);
    let ghost command = ProcessInput::Write(written);
    let handover = hand_over(input, ProcessInput::Write(written));
    proof {
        assert(hands_over(input, command, handover));
    }
    write_status(handover, transport)
}

/// Hands a barrier to the writer of a process without waiting, and says what
/// became of it.
pub fn enqueue_process_command(
    input: &flume::Sender<ProcessInput>,
    command: ProcessInput,
    transport: &str,
) -> (status: Result<(), String>)
    ensures
        exists|handover: Handover| #[trigger]
            hands_over(input, command, handover) && says_of_command(status, handover, transport@),
{
    let handover = hand_over(input, command);
    proof {
        assert(hands_over(input, command, handover));
    }
    command_status(handover, transport)
}

/// That the writer stopped before a barrier was done, in words.
pub fn unfinished_message(transport: &str, operation: &str) -> (message: String)
    ensures
        message@ == transport@ + " input writer stopped before "@ + operation@ + " completed"@,
{
    let mut message = transport.to_owned();
    message.append(" input writer stopped before ");
    message.append(operation);
    message.append(" completed");
    message
}

/// However many writes wait, there is room for a barrier behind them.
pub proof fn law_writes_leave_room_for_a_barrier(waiting: usize)
    requires
        waiting < PROCESS_WRITE_QUEUE_CAPACITY,
    ensures
        waiting + 1 < PROCESS_INPUT_QUEUE_CAPACITY,
{
}

/// What a terminal tells of itself.
#[derive(Debug, PartialEq, Eq)]
pub enum TerminalEvent {
    Changed,
    Exited,
    Failed(String),
}

/// The events that wait to be taken up: changes are told once however many
/// there were, and what becomes of the process is told before them.
pub struct TerminalEvents {
    lifecycle: Vec<TerminalEvent>,
    changed: bool,
}

#[verifier::ext_equal]
pub struct TerminalEventsView {
    pub lifecycle: Seq<TerminalEvent>,
    pub changed: bool,
}

impl View for TerminalEvents {
    type V = TerminalEventsView;

    closed spec fn view(&self) -> TerminalEventsView {
        TerminalEventsView { lifecycle: self.lifecycle@, changed: self.changed }
    }
}

impl TerminalEvents {
    pub fn new() -> (events: Self)
        ensures
            events@ == (TerminalEventsView { lifecycle: Seq::empty(), changed: false }),
    {
        TerminalEvents { lifecycle: Vec::new(), changed: false }
    }

    /// Notes that the terminal has changed.
    pub fn changed(&mut self) -> (noted: bool)
        ensures
            noted,
            final(self)@ == (TerminalEventsView { changed: true, ..old(self)@ }),
    {
        self.changed = true;
        true
    }

    /// Notes what has become of the process.
    pub fn lifecycle(&mut self, event: TerminalEvent)
        ensures
            final(self)@ == (TerminalEventsView {
                lifecycle: old(self)@.lifecycle.push(event),
                ..old(self)@
            }),
    {
        self.lifecycle.push(event);
    }

    /// Takes the next event.
    pub fn try_recv(&mut self) -> (event: Option<TerminalEvent>)
        ensures
            if old(self)@.lifecycle.len() > 0 {
                event == Some(old(self)@.lifecycle[0]) && final(self)@ == (TerminalEventsView {
                    lifecycle: old(self)@.lifecycle.skip(1),
                    ..old(self)@
                })
            } else if old(self)@.changed {
                event == Some(TerminalEvent::Changed) && final(self)@ == (TerminalEventsView {
                    changed: false,
                    ..old(self)@
                })
            } else {
                event is None && final(self)@ == old(self)@
            },
    {
        if self.lifecycle.len() > 0 {
            let event = self.lifecycle.remove(0);
            proof {
                assert(self@.lifecycle =~= old(self)@.lifecycle.skip(1));
            }
            Some(event)
        } else if self.changed {
            self.changed = false;
            Some(TerminalEvent::Changed)
        } else {
            None
        }
    }
}

/// Tells that the writer of a process has failed.
pub fn publish_writer_failure(events: &mut TerminalEvents, error: String)
    ensures
        final(events)@ == (TerminalEventsView {
            lifecycle: old(events)@.lifecycle.push(TerminalEvent::Failed(error)),
            ..old(events)@
        }),
{
    events.lifecycle(TerminalEvent::Failed(error));
}

/// What a reader of a process is asked.
#[derive(Clone, Copy, Debug, PartialEq, Eq, Structural)]
pub enum ReaderControl {
    Pause,
    Resume,
    Synchronize,
}

/// What a reader finds when it looks for a request.
#[derive(Clone, Copy, Debug, PartialEq, Eq, Structural)]
pub enum ControlMessage {
    Request(ReaderControl),
    Empty,
    Disconnected,
}

/// A mark in the output of a process.
#[derive(Clone, Copy, Debug, PartialEq, Eq, Structural)]
pub enum OutputMark {
    Paused,
    Synchronized,
}

/// What a reader does before it reads on.
#[derive(Clone, Copy, Debug, PartialEq, Eq, Structural)]
pub enum Checkpoint {
    Proceed,
    Stop,
    /// Publish what can be read already, then the mark, then wait to be
    /// resumed where that is asked.
    Barrier { mark: OutputMark, wait: bool },
}

pub fn reader_checkpoint(message: ControlMessage) -> (checkpoint: Checkpoint)
    ensures
        checkpoint == match message {
            ControlMessage::Request(ReaderControl::Synchronize) => Checkpoint::Barrier {
                mark: OutputMark::Synchronized,
                wait: false,
            },
            ControlMessage::Request(ReaderControl::Pause) => Checkpoint::Barrier {
                mark: OutputMark::Paused,
                wait: true,
            },
            ControlMessage::Request(ReaderControl::Resume) => Checkpoint::Stop,
            ControlMessage::Empty => Checkpoint::Proceed,
            ControlMessage::Disconnected => Checkpoint::Stop,
        },
{
    match message {
        ControlMessage::Request(ReaderControl::Synchronize) => Checkpoint::Barrier {
            mark: OutputMark::Synchronized,
            wait: false,
        },
        ControlMessage::Request(ReaderControl::Pause) => Checkpoint::Barrier {
            mark: OutputMark::Paused,
            wait: true,
        },
        ControlMessage::Request(ReaderControl::Resume) => Checkpoint::Stop,
        ControlMessage::Empty => Checkpoint::Proceed,
        ControlMessage::Disconnected => Checkpoint::Stop,
    }
}

/// Whether a paused reader reads on.
pub fn resumes(message: ControlMessage) -> (result: bool)
    ensures
        result == (message == ControlMessage::Request(ReaderControl::Resume)),
{
    match message {
        ControlMessage::Request(ReaderControl::Resume) => true,
        _ => false,
    }
}

/// The number by which Linux calls an error of input and output.
pub const LINUX_EIO: i32 = 5;

/// Whether a failed read means that the process has exited: Linux then reports
/// an error of input and output.
pub fn is_normal_pty_exit(raw_os_error: Option<i32>) -> (normal: bool)
    ensures
        normal == (raw_os_error == Some(LINUX_EIO)),
        normal ==> raw_os_error == Some(5i32),
        raw_os_error == Some(5i32) ==> normal,
{
    match raw_os_error {
        Some(error) => error == LINUX_EIO,
        None => false,
    }
}

/// What a read from a process came to.
#[derive(Clone, Copy, Debug, PartialEq, Eq, Structural)]
pub enum ReadOutcome {
    End,
    Bytes,
    Failed { raw_os_error: Option<i32> },
}

/// What a reader tells after a read.
#[derive(Clone, Copy, Debug, PartialEq, Eq, Structural)]
pub enum ReadReport {
    Exited,
    Changed,
    Failed,
}

pub fn read_report(outcome: ReadOutcome) -> (report: ReadReport)
    ensures
        report == match outcome {
            ReadOutcome::End => ReadReport::Exited,
            ReadOutcome::Bytes => ReadReport::Changed,
            ReadOutcome::Failed { raw_os_error } => if raw_os_error == Some(LINUX_EIO) {
                ReadReport::Exited
            } else {
                ReadReport::Failed
            },
        },
{
    match outcome {
        ReadOutcome::End => ReadReport::Exited,
        ReadOutcome::Bytes => ReadReport::Changed,
        ReadOutcome::Failed { raw_os_error } => if is_normal_pty_exit(raw_os_error) {
            ReadReport::Exited
        } else {
            ReadReport::Failed
        },
    }
}

/// Whether something runs in the foreground of a shell.
pub fn has_foreground_process(
    shell_process_id: Option<u32>,
    foreground_group: Option<i32>,
    has_child: bool,
) -> (result: Result<bool, String>)
    ensures
        match (shell_process_id, foreground_group) {
            (None, _) => result is Err && result->Err_0@
                == "terminal shell does not expose its process ID"@,
            (Some(_), None) => result is Err && result->Err_0@
                == "inspect foreground PTY process group"@,
            (Some(shell), Some(group)) => if group < 0 {
                result is Err && result->Err_0@ == "foreground PTY process group is invalid"@
            } else {
                result == Ok::<bool, String>(group != shell || has_child)
            },
        },
{
    let shell = match shell_process_id {
        Some(shell) => shell,
        None => return Err("terminal shell does not expose its process ID".to_owned()),
    };
    let group = match foreground_group {
        Some(group) => group,
        None => return Err("inspect foreground PTY process group".to_owned()),
    };
    if group < 0 {
        return Err("foreground PTY process group is invalid".to_owned());
    }
    Ok(group as u32 != shell || has_child)
}

/// What is known of a process.
pub struct ProcessRecord {
    pub parent: Option<u32>,
    pub name: String,
    pub command: Vec<String>,
}

/// The processes of the machine at one time, by their numbers.
pub struct ProcessSnapshot {
    processes: Table<ProcessRecord>,
}

impl View for ProcessSnapshot {
    type V = Map<u64, ProcessRecord>;

    closed spec fn view(&self) -> Map<u64, ProcessRecord> {
        self.processes@
    }
}

/// Whether `parent` has started the process `id`.
pub open spec fn is_child(processes: Map<u64, ProcessRecord>, parent: u64, id: u64) -> bool {
    &&& processes.contains_key(id)
    &&& processes[id].parent is Some
    &&& processes[id].parent->0 == parent
}

/// The processes that are at most `steps` generations below `root`.
pub open spec fn descendants(
    processes: Map<u64, ProcessRecord>,
    root: u64,
    steps: nat,
) -> Set<u64>
    decreases steps,
{
    if steps == 0 {
        Set::empty().insert(root)
    } else {
        let nearer = descendants(processes, root, (steps - 1) as nat);
        nearer.union(
            Set::new(
                |id: u64|
                    exists|parent: u64|
                        nearer.contains(parent) && #[trigger] is_child(processes, parent, id),
            ),
        )
    }
}

/// The agent that a process is.
pub open spec fn agent_of(processes: Map<u64, ProcessRecord>, id: u64) -> Option<AgentProgram> {
    if processes.contains_key(id) {
        process_agent(processes[id].name@, processes[id].command@)
    } else {
        None
    }
}

/// Whether no process is an agent that is at most `steps` generations below
/// `root`.
pub open spec fn no_agent_within(
    processes: Map<u64, ProcessRecord>,
    root: u64,
    steps: nat,
) -> bool {
    forall|id: u64| #[trigger]
        descendants(processes, root, steps).contains(id) ==> agent_of(processes, id) is None
}

proof fn lemma_descendants_stay(
    processes: Map<u64, ProcessRecord>,
    root: u64,
    steps: nat,
    more: nat,
)
    requires
        descendants(processes, root, steps + 1) == descendants(processes, root, steps),
    ensures
        descendants(processes, root, steps + more) == descendants(processes, root, steps),
    decreases more,
{
    if more > 0 {
        lemma_descendants_stay(processes, root, steps, (more - 1) as nat);
        let before = descendants(processes, root, (steps + more - 1) as nat);
        assert(before == descendants(processes, root, steps));
        assert(descendants(processes, root, steps + more) =~= descendants(
            processes,
            root,
            steps + 1,
        ));
    }
}

proof fn lemma_descendants_grow(
    processes: Map<u64, ProcessRecord>,
    root: u64,
    steps: nat,
    more: nat,
)
    ensures
        descendants(processes, root, steps).subset_of(descendants(processes, root, steps + more)),
    decreases more,
{
    if more > 0 {
        lemma_descendants_grow(processes, root, steps, (more - 1) as nat);
    }
}

spec fn unmarked() -> spec_fn(bool) -> nat {
    |mark: bool|
        if mark {
            0
        } else {
            1
        }
}

impl ProcessSnapshot {
    pub fn new() -> (snapshot: Self)
        ensures
            snapshot@ == Map::<u64, ProcessRecord>::empty(),
    {
        ProcessSnapshot { processes: Table::new() }
    }

    /// Notes a process.
    pub fn note(&mut self, id: u32, record: ProcessRecord)
        ensures
            final(self)@ == old(self)@.insert(id as u64, record),
    {
        self.processes.insert(id as u64, record);
    }

    pub fn has_child_process(&self, process_id: u32) -> (found: bool)
        ensures
            found == exists|id: u64| #[trigger] is_child(self@, process_id as u64, id),
    {
        let count = self.processes.len();
        let ghost keys = self.processes.keys();
        let mut index: usize = 0;
        while index < count
            invariant
                index <= count == keys.len(),
                keys == self.processes.keys(),
                forall|key: u64| #[trigger]
                    self.processes@.contains_key(key) <==> keys.contains(key),
                forall|i: int|
                    0 <= i < index ==> !is_child(self@, process_id as u64, #[trigger] keys[i]),
            decreases count - index,
        {
            let record = self.processes.value_at(index);
            if let Some(parent) = record.parent {
                if parent == process_id {
                    proof {
                        assert(is_child(self@, process_id as u64, keys[index as int]));
                    }
                    return true;
                }
            }
            index += 1;
        }
        proof {
            assert forall|id: u64| !#[trigger] is_child(self@, process_id as u64, id) by {
                if self@.contains_key(id) {
                    let i = keys.index_of(id);
                    assert(keys[i] == id);
                }
            }
        }
        false
    }

    fn agent_at(&self, index: usize) -> (agent: Option<AgentProgram>)
        requires
            index < self.processes.keys().len(),
        ensures
            agent == agent_of(self@, self.processes.keys()[index as int]),
    {
        let record = self.processes.value_at(index);
        AgentProgram::from_process(record.name.as_str(), record.command.as_slice())
    }

    /// The agent that runs in a shell: the shell itself, or a process that is
    /// as few generations below it as any agent is.
    #[verifier::rlimit(40)]
    pub fn agent_program(&self, shell_process_id: u32) -> (agent: Option<AgentProgram>)
        ensures
            match agent {
                Some(agent) => exists|steps: nat, id: u64|
                    #![trigger descendants(self@, shell_process_id as u64, steps).contains(id)]
                    descendants(self@, shell_process_id as u64, steps).contains(id) && agent_of(
                        self@,
                        id,
                    ) == Some(agent) && (steps > 0 ==> no_agent_within(
                        self@,
                        shell_process_id as u64,
                        (steps - 1) as nat,
                    )),
                None => forall|steps: nat| #[trigger]
                    no_agent_within(self@, shell_process_id as u64, steps),
            },
    {
        let root = shell_process_id as u64;
        let count = self.processes.len();
        let ghost keys = self.processes.keys();
        let ghost all = self@;
        let mut marks: Vec<bool> = Vec::new();
        let mut index: usize = 0;
        while index < count
            invariant
                index <= count == keys.len(),
                keys == self.processes.keys(),
                all == self@,
                root == shell_process_id,
                marks@.len() == index,
                forall|key: u64| #[trigger] all.contains_key(key) <==> keys.contains(key),
                forall|i: int| 0 <= i < index ==> #[trigger] marks@[i] == (keys[i] == root),
                forall|i: int|
                    0 <= i < index && keys[i] == root ==> agent_of(all, #[trigger] keys[i]) is None,
            decreases count - index,
        {
            let is_root = self.processes.key_at(index) == root;
            if is_root {
                if let Some(agent) = self.agent_at(index) {
                    proof {
                        assert(descendants(self@, shell_process_id as u64, 0).contains(
                            keys[index as int],
                        ));
                        assert(agent_of(self@, keys[index as int]) == Some(agent));
                    }
                    return Some(agent);
                }
            }
            marks.push(is_root);
            index += 1;
        }
        let mut frontier: Vec<u64> = Vec::new();
        frontier.push(root);
        let ghost mut level: nat = 0;
        proof {
            assert(no_agent_within(all, root, 0)) by {
                assert forall|id: u64| #[trigger]
                    descendants(all, root, 0).contains(id) implies agent_of(all, id) is None by {
                    if all.contains_key(id) {
                        let i = keys.index_of(id);
                        assert(keys[i] == root);
                    }
                }
            }
            assert(frontier@[0] == root);
        }
        loop
            invariant
                count == keys.len() == marks@.len(),
                keys == self.processes.keys(),
                all == self@,
                forall|key: u64| #[trigger] all.contains_key(key) <==> keys.contains(key),
                root == shell_process_id,
                no_agent_within(all, root, level),
                forall|i: int|
                    0 <= i < count ==> #[trigger] marks@[i] == descendants(
                        all,
                        root,
                        level,
                    ).contains(keys[i]),
                forall|id: u64| #[trigger]
                    frontier@.contains(id) <==> descendants(all, root, level).contains(id) && (level
                        > 0 ==> !descendants(all, root, (level - 1) as nat).contains(id)),
            decreases total(marks@, unmarked()),
        {
            let ghost known = descendants(all, root, level);
            let ghost before = marks@;
            let mut next: Vec<u64> = Vec::new();
            let mut place: usize = 0;
            while place < frontier.len()
                invariant
                    place <= frontier@.len(),
                    count == keys.len() == marks@.len() == before.len(),
                    keys == self.processes.keys(),
                    all == self@,
                    root == shell_process_id,
                    known == descendants(all, root, level),
                    no_agent_within(all, root, level),
                    forall|key: u64| #[trigger] all.contains_key(key) <==> keys.contains(key),
                    forall|id: u64| #[trigger] frontier@.contains(id) ==> known.contains(id),
                    forall|i: int| 0 <= i < count ==> #[trigger] before[i] == known.contains(keys[i]),
                    forall|i: int|
                        0 <= i < count ==> #[trigger] marks@[i] == (before[i] || exists|p: int|
                            0 <= p < place && is_child(all, #[trigger] frontier@[p], keys[i])),
                    forall|id: u64| #[trigger]
                        next@.contains(id) <==> exists|i: int|
                            0 <= i < count && #[trigger] marks@[i] && !before[i] && keys[i] == id,
                    forall|i: int|
                        0 <= i < count && #[trigger] marks@[i] ==> agent_of(all, keys[i]) is None,
                    total(marks@, unmarked()) + next@.len() == total(before, unmarked()),
                decreases frontier@.len() - place,
            {
                let parent = frontier[place];
                proof {
                    assert(frontier@.contains(parent));
                }
                let mut index: usize = 0;
                while index < count
                    invariant
                        index <= count,
                        place < frontier@.len(),
                        parent == frontier@[place as int],
                        known.contains(parent),
                        count == keys.len() == marks@.len() == before.len(),
                        keys == self.processes.keys(),
                        all == self@,
                        root == shell_process_id,
                        known == descendants(all, root, level),
                        no_agent_within(all, root, level),
                        forall|key: u64| #[trigger] all.contains_key(key) <==> keys.contains(key),
                        forall|i: int|
                            0 <= i < count ==> #[trigger] before[i] == known.contains(keys[i]),
                        forall|i: int|
                            0 <= i < count ==> #[trigger] marks@[i] == (before[i] || (exists|p: int|
                                0 <= p < place && is_child(all, #[trigger] frontier@[p], keys[i]))
                                || (i < index && is_child(all, parent, keys[i]))),
                        forall|id: u64| #[trigger]
                            next@.contains(id) <==> exists|i: int|
                                0 <= i < count && #[trigger] marks@[i] && !before[i] && keys[i]
                                    == id,
                        forall|i: int|
                            0 <= i < count && #[trigger] marks@[i] ==> agent_of(all, keys[i])
                                is None,
                        total(marks@, unmarked()) + next@.len() == total(before, unmarked()),
                    decreases count - index,
                {
                    let ghost marked = marks@;
                    let ghost listed = next@;
                    let record = self.processes.value_at(index);
                    let child = match record.parent {
                        Some(id) => id as u64 == parent,
                        None => false,
                    };
                    proof {
                        assert(child == is_child(all, parent, keys[index as int]));
                    }
                    if child && !marks[index] {
                        let id = self.processes.key_at(index);
                        if let Some(agent) = self.agent_at(index) {
                            proof {
                                assert(is_child(all, parent, id));
                                assert(descendants(
                                    self@,
                                    shell_process_id as u64,
                                    level + 1,
                                ).contains(id));
                                assert((level + 1 - 1) as nat == level);
                            }
                            return Some(agent);
                        }
                        marks.set(index, true);
                        next.push(id);
                        proof {
                            lemma_total_update(marked, index as int, true, unmarked());
                            assert(listed.len() + 1 == next@.len());
                            assert forall|other: u64| #[trigger]
                                next@.contains(other) <==> exists|i: int|
                                    0 <= i < count && #[trigger] marks@[i] && !before[i] && keys[i]
                                        == other by {
                                if other == id {
                                    assert(next@[listed.len() as int] == id);
                                    assert(marks@[index as int] && !before[index as int]);
                                }
                                if next@.contains(other) && other != id {
                                    let k = next@.index_of(other);
                                    assert(listed[k] == other);
                                    assert(listed.contains(other));
                                    let i = choose|i: int|
                                        0 <= i < count && #[trigger] marked[i] && !before[i]
                                            && keys[i] == other;
                                    assert(marks@[i]);
                                }
                                if exists|i: int|
                                    0 <= i < count && #[trigger] marks@[i] && !before[i] && keys[i]
                                        == other {
                                    let i = choose|i: int|
                                        0 <= i < count && #[trigger] marks@[i] && !before[i]
                                            && keys[i] == other;
                                    if i != index {
                                        assert(marked[i]);
                                        assert(listed.contains(other));
                                        let k = listed.index_of(other);
                                        assert(next@[k] == other);
                                    }
                                }
                            }
                        }
                    }
                    index += 1;
                }
                proof {
                    assert forall|i: int| 0 <= i < count implies #[trigger] marks@[i] == (before[i]
                        || exists|p: int|
                        0 <= p < place + 1 && is_child(all, #[trigger] frontier@[p], keys[i])) by {
                        if is_child(all, parent, keys[i]) {
                            assert(is_child(all, frontier@[place as int], keys[i]));
                        }
                    }
                }
                place += 1;
            }
            proof {
                let farther = descendants(all, root, level + 1);
                assert forall|i: int| 0 <= i < count implies #[trigger] marks@[i]
                    == farther.contains(keys[i]) by {
                    if marks@[i] && !before[i] {
                        let p = choose|p: int|
                            0 <= p < frontier@.len() && is_child(
                                all,
                                #[trigger] frontier@[p],
                                keys[i],
                            );
                        assert(frontier@.contains(frontier@[p]));
                        assert(known.contains(frontier@[p]));
                    }
                    if farther.contains(keys[i]) && !known.contains(keys[i]) {
                        let parent = choose|parent: u64|
                            known.contains(parent) && #[trigger] is_child(all, parent, keys[i]);
                        if level > 0 && descendants(all, root, (level - 1) as nat).contains(
                            parent,
                        ) {
                            assert(known.contains(keys[i]));
                        }
                        assert(frontier@.contains(parent));
                        let p = frontier@.index_of(parent);
                        assert(is_child(all, frontier@[p], keys[i]));
                    }
                }
                assert(no_agent_within(all, root, level + 1)) by {
                    assert forall|id: u64| #[trigger] farther.contains(id) implies agent_of(
                        all,
                        id,
                    ) is None by {
                        if all.contains_key(id) {
                            let i = keys.index_of(id);
                            assert(marks@[i]);
                        }
                    }
                }
                assert forall|id: u64| #[trigger] next@.contains(id) <==> farther.contains(id)
                    && !known.contains(id) by {
                    if farther.contains(id) && !known.contains(id) {
                        assert(all.contains_key(id));
                        let i = keys.index_of(id);
                        assert(marks@[i] && !before[i]);
                    }
                }
                if next@.len() == 0 {
                    assert(farther =~= known) by {
                        assert forall|id: u64| farther.contains(id) implies known.contains(id) by {
                            if !known.contains(id) {
                                assert(next@.contains(id));
                            }
                        }
                    }
                    assert forall|steps: nat| #[trigger] no_agent_within(all, root, steps) by {
                        if steps >= level {
                            lemma_descendants_stay(all, root, level, (steps - level) as nat);
                        } else {
                            lemma_descendants_grow(all, root, steps, (level - steps) as nat);
                            assert forall|id: u64| #[trigger]
                                descendants(all, root, steps).contains(id) implies agent_of(
                                all,
                                id,
                            ) is None by {
                                assert(known.contains(id));
                            }
                        }
                    }
                }
                level = level + 1;
            }
            if next.len() == 0 {
                return None;
            }
            frontier = next;
        }
    }
}

/// The processes below a shell are the shell itself, and whatever one of them has
/// started, a generation further down.
pub proof fn law_descendants_were_started_below(
    processes: Map<u64, ProcessRecord>,
    root: u64,
    steps: nat,
    parent: u64,
    id: u32,
)
    ensures
        descendants(processes, root, steps).contains(root),
        descendants(processes, root, steps).contains(id as u64) ==> descendants(
            processes,
            root,
            steps + 1,
        ).contains(id as u64),
        processes.contains_key(id as u64) && processes[id as u64].parent is Some
            && processes[id as u64].parent->0 == parent && descendants(
            processes,
            root,
            steps,
        ).contains(parent) ==> descendants(processes, root, steps + 1).contains(id as u64),
        descendants(processes, root, steps + 1).contains(id as u64) && !descendants(
            processes,
            root,
            steps,
        ).contains(id as u64) ==> processes.contains_key(id as u64)
            && processes[id as u64].parent is Some && descendants(processes, root, steps).contains(
            processes[id as u64].parent->0 as u64,
        ),
        descendants(processes, root, 0).contains(id as u64) ==> id == root,
    decreases steps,
{
    reveal_with_fuel(descendants, 2);
    if steps > 0 {
        law_descendants_were_started_below(processes, root, (steps - 1) as nat, parent, id);
    }
    if processes.contains_key(id as u64) && processes[id as u64].parent is Some
        && processes[id as u64].parent->0 == parent {
        assert(is_child(processes, parent, id as u64));
    }
    let nearer = descendants(processes, root, steps);
    if exists|parent: u64|
        nearer.contains(parent) && #[trigger] is_child(processes, parent, id as u64) {
        let parent = choose|parent: u64|
            nearer.contains(parent) && #[trigger] is_child(processes, parent, id as u64);
        assert(processes[id as u64].parent->0 as u64 == parent);
    }
}

/// Where a shell is no agent, and of what it has started one process alone is, the
/// agent that is found is that process, whatever runs below.
pub proof fn law_agents_are_found_beneath_their_shell(
    processes: Map<u64, ProcessRecord>,
    shell: u64,
    child: u64,
    steps: nat,
    id: u64,
)
    requires
        agent_of(processes, shell) is None,
        processes.contains_key(child),
        processes[child].parent is Some,
        processes[child].parent->0 == shell,
        agent_of(processes, child) is Some,
        forall|other: u64|
            other != child && #[trigger] processes.contains_key(other)
                && processes[other].parent is Some && processes[other].parent->0 == shell
                ==> agent_of(processes, other) is None,
        descendants(processes, shell, steps).contains(id),
        agent_of(processes, id) is Some,
        steps > 0 ==> no_agent_within(processes, shell, (steps - 1) as nat),
    ensures
        agent_of(processes, id) == agent_of(processes, child),
        agent_of(processes, child) == process_agent(
            processes[child].name@,
            processes[child].command@,
        ),
{
    reveal_with_fuel(descendants, 3);
    assert(is_child(processes, shell, child));
    assert(descendants(processes, shell, 0).contains(shell));
    assert(descendants(processes, shell, 1).contains(child));
    if steps >= 2 {
        lemma_descendants_remain(processes, shell, 1, (steps - 1) as nat, child);
        assert(agent_of(processes, child) is None);
    } else if steps == 1 {
        if id != shell {
            let nearer = descendants(processes, shell, 0);
            let parent = choose|parent: u64|
                nearer.contains(parent) && #[trigger] is_child(processes, parent, id);
            assert(parent == shell);
            assert(processes.contains_key(id));
        }
    }
}

proof fn lemma_descendants_remain(
    processes: Map<u64, ProcessRecord>,
    root: u64,
    steps: nat,
    more: nat,
    id: u64,
)
    requires
        steps <= more,
        descendants(processes, root, steps).contains(id),
    ensures
        descendants(processes, root, more).contains(id),
    decreases more,
{
    if steps < more {
        lemma_descendants_remain(processes, root, steps, (more - 1) as nat, id);
    }
}

/// The shell itself is found where it is an agent, and nothing where nothing below
/// it is.
pub proof fn law_shells_are_searched_first(
    processes: Map<u64, ProcessRecord>,
    shell: u64,
    steps: nat,
    id: u64,
)
    requires
        processes.contains_key(shell),
        process_agent(processes[shell].name@, processes[shell].command@) is Some,
        descendants(processes, shell, steps).contains(id),
        steps > 0 ==> no_agent_within(processes, shell, (steps - 1) as nat),
    ensures
        steps == 0,
        id == shell,
{
    if steps > 0 {
        assert(descendants(processes, shell, 0).contains(shell));
        lemma_descendants_remain(processes, shell, 0, (steps - 1) as nat, shell);
    }
}

} // verus!
