use agent_terminal::agent_integration::AgentProgram;
use agent_terminal::pty::threads::{
    begin_reading, finish_work, writer_start_failure, ReaderStep, WriterWork,
};
use agent_terminal::pty::{
    admits_write, enqueue_process_command, enqueue_process_input, has_foreground_process,
    is_normal_pty_exit, publish_writer_failure, read_report, reader_checkpoint, resumes,
    unfinished_message, Checkpoint, ControlMessage, OutputMark, ProcessInput, ProcessInputStatus,
    ProcessRecord, ProcessSnapshot, PtySize, ReadOutcome, ReadReport, ReaderControl,
    TerminalEvent, TerminalEvents, PROCESS_INPUT_QUEUE_CAPACITY, PROCESS_WRITE_QUEUE_CAPACITY,
};

#[test]
fn linux_eio_is_a_normal_pty_exit() {
    let error = std::io::Error::from_raw_os_error(libc::EIO);
    assert!(is_normal_pty_exit(error.raw_os_error()));
}

#[test]
fn other_errors_are_no_exit() {
    assert!(!is_normal_pty_exit(Some(1)));
    assert!(!is_normal_pty_exit(None));
    assert_eq!(
        read_report(ReadOutcome::Failed { raw_os_error: Some(5) }),
        ReadReport::Exited
    );
}

#[test]
fn writer_failure_is_retained_beside_a_coalesced_change() {
    let mut events = TerminalEvents::new();
    assert!(events.changed());
    assert!(events.changed(), "duplicate changes should coalesce");

    publish_writer_failure(&mut events, "injected writer failure".into());

    assert!(matches!(
        events.try_recv(),
        Some(TerminalEvent::Failed(error)) if error == "injected writer failure"
    ));
    assert!(matches!(events.try_recv(), Some(TerminalEvent::Changed)));
    assert!(events.try_recv().is_none());
}

#[test]
fn process_input_queue_reports_backpressure_without_blocking() {
    let (input, _queued) = flume::bounded(1);
    assert_eq!(
        enqueue_process_input(&input, b"first", "test PTY").expect("fill input queue"),
        ProcessInputStatus::Accepted
    );

    assert_eq!(
        enqueue_process_input(&input, b"second", "test PTY").expect("report input backpressure"),
        ProcessInputStatus::Backpressured
    );
}

#[test]
fn a_stopped_writer_is_reported() {
    let (input, queued) = flume::bounded(1);
    drop(queued);
    assert_eq!(
        enqueue_process_input(&input, b"first", "test PTY"),
        Err("test PTY input writer stopped".to_owned())
    );
    assert_eq!(
        unfinished_message("test PTY", "resize"),
        "test PTY input writer stopped before resize completed"
    );
}

#[test]
fn a_resize_stays_behind_earlier_input() {
    let (input, queued) = flume::bounded(2);
    enqueue_process_input(&input, b"before resize", "test PTY").expect("queue input");
    let size = PtySize {
        rows: 40,
        cols: 100,
        pixel_width: 900,
        pixel_height: 720,
    };
    let (completed, completion) = flume::bounded(1);
    enqueue_process_command(&input, ProcessInput::Resize { size, completed }, "test PTY")
        .expect("queue resize");

    assert!(matches!(
        queued.recv().expect("receive input"),
        ProcessInput::Write(bytes) if bytes == b"before resize"
    ));
    let ProcessInput::Resize {
        size: queued_size,
        completed,
    } = queued.recv().expect("receive resize")
    else {
        panic!("second transport command must be the resize");
    };
    assert_eq!(queued_size, size);
    completed.send(Ok(())).expect("complete resize");
    completion
        .recv()
        .expect("receive completion")
        .expect("finish ordered resize");
}

#[test]
fn a_flush_stays_behind_earlier_input() {
    let (input, queued) = flume::bounded(2);
    assert_eq!(
        enqueue_process_input(&input, b"before flush", "test PTY")
            .expect("queue input before flush"),
        ProcessInputStatus::Accepted
    );
    let (completed, completion) = flume::bounded(1);
    enqueue_process_command(&input, ProcessInput::Flush { completed }, "test PTY")
        .expect("queue flush");

    assert!(matches!(
        queued.recv().expect("receive input"),
        ProcessInput::Write(bytes) if bytes == b"before flush"
    ));
    let ProcessInput::Flush { completed } = queued.recv().expect("receive flush") else {
        panic!("second transport command must be the flush");
    };
    completed.send(Ok(())).expect("complete flush");
    completion
        .recv()
        .expect("receive completion")
        .expect("finish ordered flush");
}

#[test]
fn a_flush_uses_the_place_kept_from_writes() {
    let (input, queued) = flume::bounded(PROCESS_INPUT_QUEUE_CAPACITY);
    for index in 0..PROCESS_WRITE_QUEUE_CAPACITY {
        assert_eq!(
            enqueue_process_input(&input, &[index as u8], "test PTY")
                .expect("fill ordinary write capacity"),
            ProcessInputStatus::Accepted
        );
    }
    assert_eq!(
        enqueue_process_input(&input, b"overflow", "test PTY").expect("reserve control capacity"),
        ProcessInputStatus::Backpressured
    );
    assert!(!admits_write(PROCESS_WRITE_QUEUE_CAPACITY));

    let (completed, completion) = flume::bounded(1);
    enqueue_process_command(&input, ProcessInput::Flush { completed }, "test PTY")
        .expect("queue reserved flush");
    let (late, _late_completion) = flume::bounded(1);
    assert_eq!(
        enqueue_process_command(&input, ProcessInput::Flush { completed: late }, "test PTY"),
        Err("test PTY input queue is full".to_owned())
    );
    for _ in 0..PROCESS_WRITE_QUEUE_CAPACITY {
        assert!(matches!(
            queued.recv().expect("receive queued write"),
            ProcessInput::Write(_)
        ));
    }
    let ProcessInput::Flush { completed } = queued.recv().expect("receive reserved flush") else {
        panic!("reserved transport command must be the flush");
    };
    completed.send(Ok(())).expect("complete reserved flush");
    completion
        .recv()
        .expect("receive completion")
        .expect("finish reserved flush");
}

/// What a reader publishes.
#[derive(Debug, PartialEq)]
enum Published {
    Bytes(Vec<u8>),
    Mark(OutputMark),
}

/// Runs a reader through one request, with `readable` to be read, until it would
/// wait for more. Says whether it reads on.
fn run_reader(
    controls: &flume::Receiver<ReaderControl>,
    output: &flume::Sender<Published>,
    mut readable: Vec<Vec<u8>>,
) -> bool {
    let control = || match controls.try_recv() {
        Ok(request) => ControlMessage::Request(request),
        Err(flume::TryRecvError::Empty) => ControlMessage::Empty,
        Err(flume::TryRecvError::Disconnected) => ControlMessage::Disconnected,
    };
    let mut step = begin_reading();
    let mut read = Vec::new();
    loop {
        step = match step {
            ReaderStep::Check(checking) => checking.accept(control()),
            ReaderStep::Poll(polling) => {
                if polling.waits() {
                    return true;
                }
                polling.accept(Ok(!readable.is_empty()))
            }
            ReaderStep::Read(reading) => {
                read = readable.remove(0);
                reading.accept(ReadOutcome::Bytes, "")
            }
            ReaderStep::SendBytes(sending) => {
                sending.accept(output.send(Published::Bytes(read.clone())).is_ok())
            }
            ReaderStep::TellChange(telling) => telling.accept(true),
            ReaderStep::SendMark(mark, marking) => {
                marking.accept(output.send(Published::Mark(mark)).is_ok())
            }
            ReaderStep::AwaitResume(pausing) => pausing.accept(control()),
            ReaderStep::Stop(_) => return false,
        };
    }
}

#[test]
fn pause_barrier_drains_platform_output_before_its_marker() {
    let (control, controls) = flume::unbounded();
    control.send(ReaderControl::Pause).expect("queue pause");
    control.send(ReaderControl::Resume).expect("queue resume");
    let (output, outputs) = flume::unbounded();

    assert!(run_reader(&controls, &output, vec![b"\x1b[?2004h".to_vec()]));

    assert_eq!(
        outputs.recv().expect("receive buffered platform bytes"),
        Published::Bytes(b"\x1b[?2004h".to_vec())
    );
    assert_eq!(
        outputs.recv().expect("receive pause marker"),
        Published::Mark(OutputMark::Paused)
    );
    assert!(outputs.try_recv().is_err());
    assert!(controls.try_recv().is_err(), "the reader waited to be resumed");
}

#[test]
fn synchronization_drains_platform_output_without_pausing() {
    let (control, controls) = flume::unbounded();
    control
        .send(ReaderControl::Synchronize)
        .expect("queue synchronization");
    let (output, outputs) = flume::unbounded();

    assert!(run_reader(&controls, &output, vec![b"\x1b[?1049h".to_vec()]));

    assert_eq!(
        outputs.recv().expect("receive buffered platform bytes"),
        Published::Bytes(b"\x1b[?1049h".to_vec())
    );
    assert_eq!(
        outputs.recv().expect("receive synchronization marker"),
        Published::Mark(OutputMark::Synchronized)
    );
    assert!(outputs.try_recv().is_err());
}

#[test]
fn barriers_publish_all_that_can_be_read_in_order() {
    let (control, controls) = flume::unbounded();
    control.send(ReaderControl::Pause).expect("queue pause");
    let (output, outputs) = flume::unbounded();
    assert!(
        !run_reader(&controls, &output, vec![b"one".to_vec(), b"two".to_vec()]),
        "a reader that is not resumed ends"
    );
    drop(output);
    assert_eq!(
        outputs.iter().collect::<Vec<_>>(),
        vec![
            Published::Bytes(b"one".to_vec()),
            Published::Bytes(b"two".to_vec()),
            Published::Mark(OutputMark::Paused),
        ]
    );
}

#[test]
fn requests_between_reads_become_barriers() {
    assert_eq!(
        reader_checkpoint(ControlMessage::Request(ReaderControl::Pause)),
        Checkpoint::Barrier {
            mark: OutputMark::Paused,
            wait: true
        }
    );
    assert_eq!(
        reader_checkpoint(ControlMessage::Request(ReaderControl::Synchronize)),
        Checkpoint::Barrier {
            mark: OutputMark::Synchronized,
            wait: false
        }
    );
    assert!(resumes(ControlMessage::Request(ReaderControl::Resume)));
    assert!(!resumes(ControlMessage::Request(ReaderControl::Pause)));
}

fn process(parent: Option<u32>, name: &str) -> ProcessRecord {
    ProcessRecord {
        parent,
        name: name.into(),
        command: vec![name.into()],
    }
}

#[test]
fn children_of_a_shell_are_found_at_any_depth() {
    let mut processes = ProcessSnapshot::new();
    processes.note(10, process(None, "bash"));
    processes.note(11, process(Some(10), "make"));
    processes.note(12, process(Some(11), "codex"));
    processes.note(20, process(None, "gemini"));
    assert!(processes.has_child_process(10));
    assert!(!processes.has_child_process(12));
    assert_eq!(processes.agent_program(10), Some(AgentProgram::Codex));
    assert_eq!(processes.agent_program(20), Some(AgentProgram::Gemini));
    assert_eq!(processes.agent_program(99), None);
}

#[test]
fn a_shell_is_busy_while_another_group_or_a_child_runs() {
    assert_eq!(has_foreground_process(Some(10), Some(10), false), Ok(false));
    assert_eq!(has_foreground_process(Some(10), Some(11), false), Ok(true));
    assert!(has_foreground_process(None, Some(11), false).is_err());
    assert!(has_foreground_process(Some(10), None, false).is_err());
}

#[test]
fn readers_publish_what_can_be_read_before_the_mark() {
    let ReaderStep::Check(checking) = begin_reading() else {
        panic!("a reader looks for requests first");
    };
    let step = checking.accept(ControlMessage::Request(ReaderControl::Pause));
    let ReaderStep::Poll(polling) = step else {
        panic!("a barrier asks what can be read");
    };
    assert!(!polling.waits());
    let ReaderStep::Read(reading) = polling.accept(Ok(true)) else {
        panic!("what can be read is read");
    };
    let ReaderStep::SendBytes(sending) = reading.accept(ReadOutcome::Bytes, "") else {
        panic!("what was read is handed on");
    };
    let ReaderStep::TellChange(telling) = sending.accept(true) else {
        panic!("output is told");
    };
    let ReaderStep::Poll(polling) = telling.accept(true) else {
        panic!("a barrier asks again");
    };
    let ReaderStep::SendMark(mark, marking) = polling.accept(Ok(false)) else {
        panic!("the mark follows the output");
    };
    assert_eq!(mark, OutputMark::Paused);
    let ReaderStep::AwaitResume(pausing) = marking.accept(true) else {
        panic!("a paused reader waits");
    };
    let ReaderStep::Poll(polling) =
        pausing.accept(ControlMessage::Request(ReaderControl::Resume))
    else {
        panic!("a resumed reader reads on");
    };
    assert!(polling.waits());
    assert!(matches!(
        polling.accept(Err("gone".into())),
        ReaderStep::Stop(Some(TerminalEvent::Failed(error)))
            if error == "wait for PTY output: gone"
    ));
}

#[test]
fn readers_end_with_their_process() {
    let polling = || {
        let ReaderStep::Check(checking) = begin_reading() else {
            panic!("a reader looks for requests first");
        };
        let ReaderStep::Poll(polling) = checking.accept(ControlMessage::Empty) else {
            panic!("a reader asks what can be read");
        };
        polling
    };
    let ReaderStep::Read(reading) = polling().accept(Ok(true)) else {
        panic!("what can be read is read");
    };
    assert!(matches!(
        reading.accept(ReadOutcome::End, ""),
        ReaderStep::Stop(Some(TerminalEvent::Exited))
    ));
    let ReaderStep::Read(reading) = polling().accept(Ok(true)) else {
        panic!("what can be read is read");
    };
    assert!(matches!(
        reading.accept(ReadOutcome::Failed { raw_os_error: Some(1) }, "denied"),
        ReaderStep::Stop(Some(TerminalEvent::Failed(error)))
            if error == "PTY read stopped: denied"
    ));
    assert!(matches!(polling().accept(Ok(false)), ReaderStep::Check(_)));
    let ReaderStep::Check(checking) = begin_reading() else {
        panic!("a reader looks for requests first");
    };
    assert!(matches!(
        checking.accept(ControlMessage::Disconnected),
        ReaderStep::Stop(None)
    ));
}

#[test]
fn writers_report_and_end_on_failure() {
    let step = finish_work(WriterWork::Write, Ok(()));
    assert!(step.completion.is_none() && step.failure.is_none());
    let step = finish_work(WriterWork::Flush, Ok(()));
    assert_eq!(step.completion, Some(Ok(())));
    let step = finish_work(WriterWork::Resize, Err("denied".into()));
    assert_eq!(step.completion, Some(Err("resize PTY: denied".into())));
    assert_eq!(step.failure.as_deref(), Some("resize PTY: denied"));
    let step = finish_work(WriterWork::Lock, Err("poisoned".into()));
    assert_eq!(step.failure.as_deref(), Some("lock PTY master for resize"));
    let step = finish_work(WriterWork::Write, Err("closed".into()));
    assert!(step.completion.is_none());
    assert_eq!(step.failure.as_deref(), Some("update PTY transport: closed"));
    assert_eq!(
        writer_start_failure("no threads", None, Some("no child".into())),
        "spawn PTY writer thread: no threads; also failed to clean up shell: no child"
    );
    assert_eq!(
        writer_start_failure("no threads", None, None),
        "spawn PTY writer thread: no threads"
    );
}
