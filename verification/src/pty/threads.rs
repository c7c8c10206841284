//! What the two threads of a process do: one writes to it, the other reads
//! from it. Each step names the outside work that comes next, and is given its
//! result.

use super::{
    read_report, reader_checkpoint, resumes, Checkpoint, ControlMessage, OutputMark, ReadOutcome,
    ReadReport, ReaderControl, TerminalEvent,
};
use vstd::prelude::*;
use vstd::string::*;

verus! {

/// What a reader was asked for between two reads.
#[derive(Clone, Copy, Debug, PartialEq, Eq, Structural)]
pub struct Barrier {
    pub mark: OutputMark,
    /// Whether the reader then waits to be resumed.
    pub wait: bool,
}

/// Looking for a request.
pub struct Checking {}

/// Asking whether something can be read: without waiting at a barrier, and
/// else for a moment.
pub struct Polling {
    barrier: Option<Barrier>,
}

/// Reading what can be read.
pub struct Reading {
    barrier: Option<Barrier>,
}

/// Handing on what was read.
pub struct Sending {
    barrier: Option<Barrier>,
}

/// Telling that there is output.
pub struct Telling {
    barrier: Option<Barrier>,
}

/// Handing on the mark of a barrier.
pub struct Marking {
    barrier: Barrier,
}

/// Waiting to be resumed.
pub struct Pausing {}

/// What a reader does next.
pub enum ReaderStep {
    Check(Checking),
    Poll(Polling),
    Read(Reading),
    SendBytes(Sending),
    TellChange(Telling),
    SendMark(OutputMark, Marking),
    AwaitResume(Pausing),
    /// The reader ends, and tells why where that is of interest.
    Stop(Option<TerminalEvent>),
}

/// What a reader is about to do.
pub enum ReaderPhase {
    Check,
    Poll { barrier: Option<Barrier> },
    Read { barrier: Option<Barrier> },
    SendBytes { barrier: Option<Barrier> },
    TellChange { barrier: Option<Barrier> },
    SendMark { marked: Barrier },
    AwaitResume,
    Exited,
    Failed { error: Seq<char> },
    Stopped,
}

/// What comes of it.
pub enum ReaderEvent {
    Control(ControlMessage),
    Readable(Result<bool, Seq<char>>),
    Read { outcome: ReadOutcome, error: Seq<char> },
    Done(bool),
}

/// What is said where it cannot be known whether something can be read.
pub open spec fn poll_failure(barrier: Option<Barrier>, error: Seq<char>) -> Seq<char> {
    if barrier is Some {
        "wait for PTY output barrier: "@ + error
    } else {
        "wait for PTY output: "@ + error
    }
}

impl ReaderPhase {
    /// What is done after something was read and told: a barrier is not left
    /// before nothing more can be read.
    pub open spec fn after_read(barrier: Option<Barrier>) -> ReaderPhase {
        match barrier {
            Some(barrier) => ReaderPhase::Poll { barrier: Some(barrier) },
            None => ReaderPhase::Check,
        }
    }

    /// What is done next.
    pub open spec fn after(self, event: ReaderEvent) -> ReaderPhase {
        match (self, event) {
            (ReaderPhase::Check, ReaderEvent::Control(message)) => match message {
                ControlMessage::Request(ReaderControl::Synchronize) => ReaderPhase::Poll {
                    barrier: Some(Barrier { mark: OutputMark::Synchronized, wait: false }),
                },
                ControlMessage::Request(ReaderControl::Pause) => ReaderPhase::Poll {
                    barrier: Some(Barrier { mark: OutputMark::Paused, wait: true }),
                },
                ControlMessage::Empty => ReaderPhase::Poll { barrier: None },
                _ => ReaderPhase::Stopped,
            },
            (ReaderPhase::Poll { barrier }, ReaderEvent::Readable(readable)) => match readable {
                Ok(true) => ReaderPhase::Read { barrier },
                Ok(false) => match barrier {
                    Some(barrier) => ReaderPhase::SendMark { marked: barrier },
                    None => ReaderPhase::Check,
                },
                Err(error) => ReaderPhase::Failed { error: poll_failure(barrier, error) },
            },
            (ReaderPhase::Read { barrier }, ReaderEvent::Read { outcome, error }) => match outcome {
                ReadOutcome::Bytes => ReaderPhase::SendBytes { barrier },
                ReadOutcome::End => ReaderPhase::Exited,
                ReadOutcome::Failed { raw_os_error } => if raw_os_error == Some(super::LINUX_EIO) {
                    ReaderPhase::Exited
                } else {
                    ReaderPhase::Failed { error: "PTY read stopped: "@ + error }
                },
            },
            (ReaderPhase::SendBytes { barrier }, ReaderEvent::Done(done)) => if done {
                ReaderPhase::TellChange { barrier }
            } else {
                ReaderPhase::Stopped
            },
            (ReaderPhase::TellChange { barrier }, ReaderEvent::Done(done)) => if done {
                ReaderPhase::after_read(barrier)
            } else {
                ReaderPhase::Stopped
            },
            (ReaderPhase::SendMark { marked }, ReaderEvent::Done(done)) => if !done {
                ReaderPhase::Stopped
            } else if marked.wait {
                ReaderPhase::AwaitResume
            } else {
                ReaderPhase::Poll { barrier: None }
            },
            (ReaderPhase::AwaitResume, ReaderEvent::Control(message)) => if message
                == ControlMessage::Request(ReaderControl::Resume) {
                ReaderPhase::Poll { barrier: None }
            } else {
                ReaderPhase::Stopped
            },
            _ => self,
        }
    }

    /// What is done after a series of events.
    pub open spec fn after_all(self, events: Seq<ReaderEvent>) -> ReaderPhase
        decreases events.len(),
    {
        if events.len() == 0 {
            self
        } else {
            self.after_all(events.drop_last()).after(events.last())
        }
    }
}

impl View for ReaderStep {
    type V = ReaderPhase;

    closed spec fn view(&self) -> ReaderPhase {
        match self {
            ReaderStep::Check(_) => ReaderPhase::Check,
            ReaderStep::Poll(polling) => ReaderPhase::Poll { barrier: polling.barrier },
            ReaderStep::Read(reading) => ReaderPhase::Read { barrier: reading.barrier },
            ReaderStep::SendBytes(sending) => ReaderPhase::SendBytes { barrier: sending.barrier },
            ReaderStep::TellChange(telling) => ReaderPhase::TellChange { barrier: telling.barrier },
            ReaderStep::SendMark(_, marking) => ReaderPhase::SendMark { marked: marking.barrier },
            ReaderStep::AwaitResume(_) => ReaderPhase::AwaitResume,
            ReaderStep::Stop(Some(TerminalEvent::Failed(error))) => ReaderPhase::Failed {
                error: error@,
            },
            ReaderStep::Stop(Some(TerminalEvent::Exited)) => ReaderPhase::Exited,
            ReaderStep::Stop(_) => ReaderPhase::Stopped,
        }
    }
}

impl ReaderStep {
    /// Whether a step to hand on a mark names the mark of its barrier.
    pub open spec fn names_its_mark(self) -> bool {
        match self {
            ReaderStep::SendMark(mark, _) => self@ matches ReaderPhase::SendMark { marked }
                && marked.mark == mark,
            _ => true,
        }
    }
}

/// What a reader does first.
pub fn begin_reading() -> (step: ReaderStep)
    ensures
        step@ == ReaderPhase::Check,
{
    ReaderStep::Check(Checking {  })
}

/// What is done after something was read and told.
fn read_on(barrier: Option<Barrier>) -> (step: ReaderStep)
    ensures
        step@ == ReaderPhase::after_read(barrier),
        step.names_its_mark(),
{
    match barrier {
        Some(_) => ReaderStep::Poll(Polling { barrier }),
        None => ReaderStep::Check(Checking {  }),
    }
}

impl Checking {
    pub fn accept(self, message: ControlMessage) -> (step: ReaderStep)
        ensures
            step@ == ReaderPhase::Check.after(ReaderEvent::Control(message)),
            step.names_its_mark(),
    {
        match reader_checkpoint(message) {
            Checkpoint::Proceed => ReaderStep::Poll(Polling { barrier: None }),
            Checkpoint::Stop => ReaderStep::Stop(None),
            Checkpoint::Barrier { mark, wait } => ReaderStep::Poll(
                Polling { barrier: Some(Barrier { mark, wait }) },
            ),
        }
    }
}

impl Polling {
    pub closed spec fn barrier(self) -> Option<Barrier> {
        self.barrier
    }

    /// Whether the reader may wait until something can be read.
    pub fn waits(&self) -> (waits: bool)
        ensures
            waits == (self.barrier() is None),
    {
        self.barrier.is_none()
    }

    pub fn accept(self, readable: Result<bool, String>) -> (step: ReaderStep)
        ensures
            step@ == (ReaderPhase::Poll { barrier: self.barrier() }).after(
                ReaderEvent::Readable(
                    match readable {
                        Ok(readable) => Ok(readable),
                        Err(error) => Err(error@),
                    },
                ),
            ),
            step.names_its_mark(),
    {
        match readable {
            Ok(true) => ReaderStep::Read(Reading { barrier: self.barrier }),
            Ok(false) => match self.barrier {
                Some(barrier) => ReaderStep::SendMark(barrier.mark, Marking { barrier }),
                None => ReaderStep::Check(Checking {  }),
            },
            Err(error) => {
                let mut message = if self.barrier.is_some() {
                    "wait for PTY output barrier: ".to_owned()
                } else {
                    "wait for PTY output: ".to_owned()
                };
                message.append(error.as_str());
                ReaderStep::Stop(Some(TerminalEvent::Failed(message)))
            },
        }
    }
}

impl Reading {
    pub closed spec fn barrier(self) -> Option<Barrier> {
        self.barrier
    }

    /// Goes on after a read. `error` is what is known of one that failed.
    pub fn accept(self, outcome: ReadOutcome, error: &str) -> (step: ReaderStep)
        ensures
            step@ == (ReaderPhase::Read { barrier: self.barrier() }).after(
                ReaderEvent::Read { outcome, error: error@ },
            ),
            step.names_its_mark(),
    {
        match read_report(outcome) {
            ReadReport::Changed => ReaderStep::SendBytes(Sending { barrier: self.barrier }),
            ReadReport::Exited => ReaderStep::Stop(Some(TerminalEvent::Exited)),
            ReadReport::Failed => {
                let mut message = "PTY read stopped: ".to_owned();
                message.append(error);
                ReaderStep::Stop(Some(TerminalEvent::Failed(message)))
            },
        }
    }
}

impl Sending {
    pub closed spec fn barrier(self) -> Option<Barrier> {
        self.barrier
    }

    pub fn accept(self, sent: bool) -> (step: ReaderStep)
        ensures
            step@ == (ReaderPhase::SendBytes { barrier: self.barrier() }).after(
                ReaderEvent::Done(sent),
            ),
            step.names_its_mark(),
    {
        if sent {
            ReaderStep::TellChange(Telling { barrier: self.barrier })
        } else {
            ReaderStep::Stop(None)
        }
    }
}

impl Telling {
    pub closed spec fn barrier(self) -> Option<Barrier> {
        self.barrier
    }

    pub fn accept(self, told: bool) -> (step: ReaderStep)
        ensures
            step@ == (ReaderPhase::TellChange { barrier: self.barrier() }).after(
                ReaderEvent::Done(told),
            ),
            step.names_its_mark(),
    {
        if told {
            read_on(self.barrier)
        } else {
            ReaderStep::Stop(None)
        }
    }
}

impl Marking {
    pub closed spec fn barrier(self) -> Barrier {
        self.barrier
    }

    pub fn accept(self, sent: bool) -> (step: ReaderStep)
        ensures
            step@ == (ReaderPhase::SendMark { marked: self.barrier() }).after(
                ReaderEvent::Done(sent),
            ),
            step.names_its_mark(),
    {
        if !sent {
            ReaderStep::Stop(None)
        } else if self.barrier.wait {
            ReaderStep::AwaitResume(Pausing {  })
        } else {
            ReaderStep::Poll(Polling { barrier: None })
        }
    }
}

impl Pausing {
    pub fn accept(self, message: ControlMessage) -> (step: ReaderStep)
        ensures
            step@ == ReaderPhase::AwaitResume.after(ReaderEvent::Control(message)),
            step.names_its_mark(),
    {
        if resumes(message) {
            ReaderStep::Poll(Polling { barrier: None })
        } else {
            ReaderStep::Stop(None)
        }
    }
}

/// The mark of a barrier is handed on only right after it was found that
/// nothing more can be read.
pub proof fn law_marks_follow_the_readable_output(events: Seq<ReaderEvent>)
    requires
        ReaderPhase::Check.after_all(events) is SendMark,
    ensures
        exists|count: int|
            0 < count <= events.len() && #[trigger] events[count - 1] == ReaderEvent::Readable(
                Ok(false),
            ) && forall|later: int| count <= later <= events.len() ==> #[trigger]
                ReaderPhase::Check.after_all(events.take(later)) is SendMark,
    decreases events.len(),
{
    let start = ReaderPhase::Check;
    let before = start.after_all(events.drop_last());
    assert(events.take(events.len() as int) =~= events);
    if before is SendMark {
        law_marks_follow_the_readable_output(events.drop_last());
        let count = choose|count: int|
            0 < count <= events.drop_last().len() && #[trigger] events.drop_last()[count - 1]
                == ReaderEvent::Readable(Ok(false)) && forall|later: int|
                count <= later <= events.drop_last().len() ==> #[trigger] start.after_all(
                    events.drop_last().take(later),
                ) is SendMark;
        assert(events[count - 1] == ReaderEvent::Readable(Ok(false)));
        assert forall|later: int| count <= later <= events.len() implies #[trigger] start.after_all(
            events.take(later),
        ) is SendMark by {
            if later < events.len() {
                assert(events.drop_last().take(later) =~= events.take(later));
            }
        }
    } else {
        assert(events[events.len() as int - 1] == ReaderEvent::Readable(Ok(false)));
    }
}

/// Whatever happens, a reader that has ended stays so.
pub proof fn law_ended_readers_stay(phase: ReaderPhase, event: ReaderEvent)
    requires
        phase is Exited || phase is Failed || phase is Stopped,
    ensures
        phase.after(event) == phase,
{
}

/// What a writer was asked for.
#[derive(Clone, Copy, Debug, PartialEq, Eq, Structural)]
pub enum WriterWork {
    Write,
    /// Getting hold of the process to resize it.
    Lock,
    Resize,
    Flush,
}

/// What is said where the work failed.
pub open spec fn work_failure(work: WriterWork, error: Seq<char>) -> Seq<char> {
    match work {
        WriterWork::Write => "update PTY transport: "@ + error,
        WriterWork::Lock => "lock PTY master for resize"@,
        WriterWork::Resize => "resize PTY: "@ + error,
        WriterWork::Flush => "flush PTY input: "@ + error,
    }
}

/// What a writer does after its work.
pub struct WriterStep {
    /// What is told to whoever waits for the work to be done.
    pub completion: Option<Result<(), String>>,
    /// Why the writer ends, if it does.
    pub failure: Option<String>,
}

/// Goes on after the work: whoever waits for it is told how it went, and a
/// writer that failed ends.
pub fn finish_work(work: WriterWork, result: Result<(), String>) -> (step: WriterStep)
    ensures
        step.failure is Some == result is Err,
        result matches Err(error) ==> step.failure->0@ == work_failure(work, error@),
        match work {
            WriterWork::Write => step.completion is None,
            _ => match result {
                Ok(()) => step.completion == Some(Ok::<(), String>(())),
                Err(error) => step.completion is Some && step.completion->0 is Err
                    && step.completion->0->Err_0@ == work_failure(work, error@),
            },
        },
{
    match result {
        Ok(()) => {
            let completion = match work {
                WriterWork::Write => None,
                _ => Some(Ok(())),
            };
            WriterStep { completion, failure: None }
        },
        Err(error) => {
            let mut message = match work {
                WriterWork::Write => "update PTY transport: ".to_owned(),
                WriterWork::Lock => "lock PTY master for resize".to_owned(),
                WriterWork::Resize => "resize PTY: ".to_owned(),
                WriterWork::Flush => "flush PTY input: ".to_owned(),
            };
            if work != WriterWork::Lock {
                message.append(error.as_str());
            }
            let completion = match work {
                WriterWork::Write => None,
                _ => {
                    let told = message.as_str().to_owned();
                    Some(Err(told))
                },
            };
            WriterStep { completion, failure: Some(message) }
        },
    }
}

/// What is said where a writer could not be started, and whether the shell that
/// it was meant for was ended.
pub fn writer_start_failure(error: &str, kill: Option<String>, wait: Option<String>) -> (message:
    String)
    ensures
        message@ == "spawn PTY writer thread: "@ + error@ + match (kill, wait) {
            (Some(cleanup), _) => "; also failed to clean up shell: "@ + cleanup@,
            (None, Some(cleanup)) => "; also failed to clean up shell: "@ + cleanup@,
            (None, None) => Seq::empty(),
        },
{
    let mut message = "spawn PTY writer thread: ".to_owned();
    message.append(error);
    let cleanup = match kill {
        Some(cleanup) => Some(cleanup),
        None => wait,
    };
    if let Some(cleanup) = cleanup {
        let ghost so_far = message@;
        message.append("; also failed to clean up shell: ");
        message.append(cleanup.as_str());
        proof {
            assert(message@ =~= so_far + ("; also failed to clean up shell: "@ + cleanup@));
        }
    } else {
        proof {
            assert(message@ =~= "spawn PTY writer thread: "@ + error@ + Seq::<char>::empty());
        }
    }
    message
}

/// What is read is handed on before it is told of, and a reader that cannot do
/// either ends.
pub proof fn law_output_is_handed_on_and_told(barrier: Option<Barrier>, error: Seq<char>)
    ensures
        (ReaderPhase::Poll { barrier }).after(ReaderEvent::Readable(Ok(true))) == (
        ReaderPhase::Read { barrier }),
        (ReaderPhase::Read { barrier }).after(
            ReaderEvent::Read { outcome: ReadOutcome::Bytes, error },
        ) == (ReaderPhase::SendBytes { barrier }),
        (ReaderPhase::SendBytes { barrier }).after(ReaderEvent::Done(true)) == (
        ReaderPhase::TellChange { barrier }),
        (ReaderPhase::SendBytes { barrier }).after(ReaderEvent::Done(false)) is Stopped,
        (ReaderPhase::TellChange { barrier }).after(ReaderEvent::Done(false)) is Stopped,
        barrier is None ==> (ReaderPhase::TellChange { barrier }).after(
            ReaderEvent::Done(true),
        ) is Check,
        barrier is Some ==> (ReaderPhase::TellChange { barrier }).after(ReaderEvent::Done(true))
            == (ReaderPhase::Poll { barrier }),
{
}

/// The end of the output is the end of the process, also where it shows as an input
/// and output error of a terminal whose other side is gone; any other error is told
/// as it is.
pub proof fn law_processes_end_with_their_output(
    barrier: Option<Barrier>,
    code: Option<i32>,
    error: Seq<char>,
)
    ensures
        ({
            let reading = ReaderPhase::Read { barrier };
            let failed = reading.after(
                ReaderEvent::Read {
                    outcome: ReadOutcome::Failed { raw_os_error: code },
                    error,
                },
            );
            &&& reading.after(ReaderEvent::Read { outcome: ReadOutcome::End, error }) is Exited
            &&& code == Some(5i32) ==> failed is Exited
            &&& code != Some(5i32) ==> failed == (ReaderPhase::Failed {
                error: "PTY read stopped: "@ + error,
            })
        }),
{
}

/// A reader that is asked to pause tells so once nothing more can be read, and then
/// reads nothing before it is resumed; one that is asked to synchronize tells so and
/// reads on.
pub proof fn law_paused_readers_wait(events: Seq<ReaderEvent>)
    requires
        events.len() == 3,
        events[1] == ReaderEvent::Readable(Ok(false)),
        events[2] == ReaderEvent::Done(true),
    ensures
        events[0] == ReaderEvent::Control(ControlMessage::Request(ReaderControl::Pause)) ==> {
            &&& ReaderPhase::Check.after_all(events.take(2)) is SendMark
            &&& ReaderPhase::Check.after_all(events.take(2))->marked.mark == OutputMark::Paused
            &&& ReaderPhase::Check.after_all(events) is AwaitResume
        },
        events[0] == ReaderEvent::Control(ControlMessage::Request(ReaderControl::Synchronize)) ==> {
            &&& ReaderPhase::Check.after_all(events.take(2)) is SendMark
            &&& ReaderPhase::Check.after_all(events.take(2))->marked.mark
                == OutputMark::Synchronized
            &&& ReaderPhase::Check.after_all(events) == (ReaderPhase::Poll { barrier: None })
        },
{
    reveal_with_fuel(ReaderPhase::after_all, 4);
    assert(events.take(2).drop_last().drop_last() =~= Seq::empty());
    assert(events.drop_last() =~= events.take(2));
}

/// Only a request to resume ends a pause, and a reader that nobody controls any more
/// ends.
pub proof fn law_only_resuming_ends_a_pause(message: ControlMessage)
    ensures
        ReaderPhase::AwaitResume.after(ReaderEvent::Control(message)) is Poll <==> message
            == ControlMessage::Request(ReaderControl::Resume),
        ReaderPhase::AwaitResume.after(ReaderEvent::Control(message)) is Poll
            || ReaderPhase::AwaitResume.after(ReaderEvent::Control(message)) is Stopped,
        ReaderPhase::Check.after(ReaderEvent::Control(ControlMessage::Empty)) is Poll,
{
}

} // verus!
