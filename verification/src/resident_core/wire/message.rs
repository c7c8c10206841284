//! The forms of requests and responses.

use super::format::{
    lemma_tagged, mapped, option_view, put_list, put_optional, put_tagged, Id, Items, OptionTag,
    Optional, Parsed, Tag, Wire, WireError, WireItem,
};
use crate::bytes::Decoder;
use crate::core_model::{
    CommandView, CoreCommand, CoreModelError, CoreSnapshot, CreatedResource, HierarchyView,
    TerminalSessionId,
};
use crate::resident_core::protocol::{
    ControlLease, ControlLeaseDenial, CoreCommandOutcome, OutcomeView, Request, RequestView,
    Response, ResponseView, SemanticEvent, SemanticEventKind, SemanticEventKindView,
    SemanticEventView, TerminalChange, TerminalUpdate, UiClientId, UpdateView,
};
use crate::sequences::views;
use crate::terminal::{LifecycleView, TerminalLifecycle, TerminalSize};
use vstd::prelude::*;
use vstd::string::*;

verus! {

/// The byte before the controller of a lease.
pub struct OfController;

impl OptionTag for OfController {
    open spec fn spec_tag() -> Tag {
        Tag::ControlLeaseController
    }

    fn tag() -> (tag: Tag) {
        Tag::ControlLeaseController
    }
}

/// The byte before the revision that a client has.
pub struct OfSnapshotRevision;

impl OptionTag for OfSnapshotRevision {
    open spec fn spec_tag() -> Tag {
        Tag::SnapshotRevision
    }

    fn tag() -> (tag: Tag) {
        Tag::SnapshotRevision
    }
}

/// The byte before an update.
pub struct OfSnapshot;

impl OptionTag for OfSnapshot {
    open spec fn spec_tag() -> Tag {
        Tag::SnapshotPresence
    }

    fn tag() -> (tag: Tag) {
        Tag::SnapshotPresence
    }
}

pub type LeaseForm = (Id, (u64, Optional<u64, OfController>));

pub open spec fn lease_fields(lease: ControlLease) -> (Id, (u64, Option<u64>)) {
    (
        Id(lease.terminal_session_id.0),
        (
            lease.generation,
            match lease.controller {
                Some(client) => Some(client.0),
                None => None,
            },
        ),
    )
}

pub open spec fn lease_of(fields: (Id, (u64, Option<u64>))) -> ControlLease {
    ControlLease {
        terminal_session_id: TerminalSessionId(fields.0.0),
        generation: fields.1.0,
        controller: match fields.1.1 {
            Some(client) => Some(UiClientId(client)),
            None => None,
        },
    }
}

impl Wire for ControlLease {
    open spec fn form(value: ControlLease) -> Seq<u8> {
        LeaseForm::form(lease_fields(value))
    }

    open spec fn refusal(value: ControlLease) -> Option<WireError> {
        None
    }

    open spec fn parse(input: Seq<u8>) -> Parsed<ControlLease> {
        mapped(LeaseForm::parse(input), |fields: (Id, (u64, Option<u64>))| lease_of(fields))
    }

    open spec fn readable(value: ControlLease) -> bool {
        value.terminal_session_id.0 != 0
    }

    open spec fn received(value: ControlLease) -> ControlLease {
        value
    }

    proof fn round_trip(value: ControlLease, rest: Seq<u8>) {
        LeaseForm::round_trip(lease_fields(value), rest);
    }

    fn put(&self, output: &mut Vec<u8>) -> (result: Result<(), WireError>) {
        let controller = match self.controller {
            Some(client) => Some(client.0),
            None => None,
        };
        let _ = (Id(self.terminal_session_id.0), self.generation).put(output);
        let _ = put_optional(&controller, output);
        proof {
            assert(output@ =~= old(output)@ + Self::form(self@));
        }
        Ok(())
    }

    fn get(decoder: &mut Decoder<'_>) -> (result: Result<ControlLease, WireError>) {
        match LeaseForm::get(decoder) {
            Err(error) => Err(error),
            Ok((id, (generation, controller))) => Ok(
                ControlLease {
                    terminal_session_id: TerminalSessionId(id.0),
                    generation,
                    controller: match controller.0 {
                        Some(client) => Some(UiClientId(client)),
                        None => None,
                    },
                },
            ),
        }
    }
}

impl WireItem for ControlLease {
    open spec fn spec_too_many() -> WireError {
        WireError::TooManyControlLeases
    }

    fn too_many() -> (error: WireError) {
        WireError::TooManyControlLeases
    }
}

proof fn lemma_leases_received(leases: Seq<ControlLease>)
    ensures
        Items::<ControlLease>::received(leases) == leases,
{
    assert(Items::<ControlLease>::received(leases) =~= leases);
}

impl View for ControlLeaseDenial {
    type V = ControlLeaseDenial;

    open spec fn view(&self) -> ControlLeaseDenial {
        *self
    }
}

impl Wire for ControlLeaseDenial {
    open spec fn form(value: ControlLeaseDenial) -> Seq<u8> {
        match value {
            ControlLeaseDenial::HeldByOther => seq![0u8],
            ControlLeaseDenial::StaleGeneration => seq![1u8],
            ControlLeaseDenial::TargetUnavailable => seq![2u8],
            ControlLeaseDenial::NoController => seq![3u8],
        }
    }

    open spec fn refusal(value: ControlLeaseDenial) -> Option<WireError> {
        None
    }

    open spec fn parse(input: Seq<u8>) -> Parsed<ControlLeaseDenial> {
        match u8::parse(input) {
            Err(error) => Err(error),
            Ok((tag, rest)) => if tag == 0 {
                Ok((ControlLeaseDenial::HeldByOther, rest))
            } else if tag == 1 {
                Ok((ControlLeaseDenial::StaleGeneration, rest))
            } else if tag == 2 {
                Ok((ControlLeaseDenial::TargetUnavailable, rest))
            } else if tag == 3 {
                Ok((ControlLeaseDenial::NoController, rest))
            } else {
                Err(WireError::InvalidTag(Tag::ControlLeaseDenial))
            },
        }
    }

    open spec fn readable(value: ControlLeaseDenial) -> bool {
        true
    }

    open spec fn received(value: ControlLeaseDenial) -> ControlLeaseDenial {
        value
    }

    proof fn round_trip(value: ControlLeaseDenial, rest: Seq<u8>) {
        u8::round_trip(Self::form(value)[0], rest);
    }

    fn put(&self, output: &mut Vec<u8>) -> (result: Result<(), WireError>) {
        match self {
            ControlLeaseDenial::HeldByOther => 0u8.put(output),
            ControlLeaseDenial::StaleGeneration => 1u8.put(output),
            ControlLeaseDenial::TargetUnavailable => 2u8.put(output),
            ControlLeaseDenial::NoController => 3u8.put(output),
        }
    }

    fn get(decoder: &mut Decoder<'_>) -> (result: Result<ControlLeaseDenial, WireError>) {
        match u8::get(decoder) {
            Err(error) => Err(error),
            Ok(0) => Ok(ControlLeaseDenial::HeldByOther),
            Ok(1) => Ok(ControlLeaseDenial::StaleGeneration),
            Ok(2) => Ok(ControlLeaseDenial::TargetUnavailable),
            Ok(3) => Ok(ControlLeaseDenial::NoController),
            Ok(_) => Err(WireError::InvalidTag(Tag::ControlLeaseDenial)),
        }
    }
}

pub type LifecycleEventForm = (Id, (TerminalLifecycle, u64));

impl Wire for SemanticEventKind {
    open spec fn form(value: SemanticEventKindView) -> Seq<u8> {
        match value {
            SemanticEventKindView::ControlLeaseChanged { lease } => seq![0u8]
                + ControlLease::form(lease),
            SemanticEventKindView::TerminalLifecycleChanged {
                terminal_session_id,
                lifecycle,
                terminal_revision,
            } => seq![1u8] + LifecycleEventForm::form(
                (Id(terminal_session_id.0), (lifecycle, terminal_revision)),
            ),
            SemanticEventKindView::HierarchyChanged { revision } => seq![2u8] + u64::form(
                revision,
            ),
        }
    }

    open spec fn refusal(value: SemanticEventKindView) -> Option<WireError> {
        match value {
            SemanticEventKindView::TerminalLifecycleChanged { lifecycle, .. } => {
                TerminalLifecycle::refusal(lifecycle)
            },
            _ => None,
        }
    }

    open spec fn parse(input: Seq<u8>) -> Parsed<SemanticEventKindView> {
        match u8::parse(input) {
            Err(error) => Err(error),
            Ok((tag, rest)) => if tag == 0 {
                mapped(
                    ControlLease::parse(rest),
                    |lease: ControlLease| SemanticEventKindView::ControlLeaseChanged { lease },
                )
            } else if tag == 1 {
                mapped(
                    LifecycleEventForm::parse(rest),
                    |fields: (Id, (LifecycleView, u64))|
                        SemanticEventKindView::TerminalLifecycleChanged {
                            terminal_session_id: TerminalSessionId(fields.0.0),
                            lifecycle: fields.1.0,
                            terminal_revision: fields.1.1,
                        },
                )
            } else if tag == 2 {
                mapped(
                    u64::parse(rest),
                    |revision: u64| SemanticEventKindView::HierarchyChanged { revision },
                )
            } else {
                Err(WireError::InvalidTag(Tag::SemanticEvent))
            },
        }
    }

    open spec fn readable(value: SemanticEventKindView) -> bool {
        match value {
            SemanticEventKindView::ControlLeaseChanged { lease } => ControlLease::readable(lease),
            SemanticEventKindView::TerminalLifecycleChanged { terminal_session_id, .. } => {
                terminal_session_id.0 != 0
            },
            SemanticEventKindView::HierarchyChanged { .. } => true,
        }
    }

    open spec fn received(value: SemanticEventKindView) -> SemanticEventKindView {
        value
    }

    proof fn round_trip(value: SemanticEventKindView, rest: Seq<u8>) {
        match value {
            SemanticEventKindView::ControlLeaseChanged { lease } => {
                ControlLease::round_trip(lease, rest);
                lemma_tagged(0, ControlLease::form(lease), rest);
            },
            SemanticEventKindView::TerminalLifecycleChanged {
                terminal_session_id,
                lifecycle,
                terminal_revision,
            } => {
                let fields = (Id(terminal_session_id.0), (lifecycle, terminal_revision));
                LifecycleEventForm::round_trip(fields, rest);
                lemma_tagged(1, LifecycleEventForm::form(fields), rest);
            },
            SemanticEventKindView::HierarchyChanged { revision } => {
                u64::round_trip(revision, rest);
                lemma_tagged(2, u64::form(revision), rest);
            },
        }
    }

    fn put(&self, output: &mut Vec<u8>) -> (result: Result<(), WireError>) {
        match self {
            SemanticEventKind::ControlLeaseChanged { lease } => (0u8, *lease).put(output),
            SemanticEventKind::TerminalLifecycleChanged {
                terminal_session_id,
                lifecycle,
                terminal_revision,
            } => {
                let _ = (1u8, Id(terminal_session_id.0)).put(output);
                if let Err(error) = lifecycle.put(output) {
                    return Err(error);
                }
                let _ = terminal_revision.put(output);
                proof {
                    assert(output@ =~= old(output)@ + Self::form(self@));
                }
                Ok(())
            },
            SemanticEventKind::HierarchyChanged { revision } => (2u8, *revision).put(output),
        }
    }

    fn get(decoder: &mut Decoder<'_>) -> (result: Result<SemanticEventKind, WireError>) {
        match u8::get(decoder) {
            Err(error) => Err(error),
            Ok(0) => match ControlLease::get(decoder) {
                Ok(lease) => Ok(SemanticEventKind::ControlLeaseChanged { lease }),
                Err(error) => Err(error),
            },
            Ok(1) => match LifecycleEventForm::get(decoder) {
                Ok((id, (lifecycle, terminal_revision))) => Ok(
                    SemanticEventKind::TerminalLifecycleChanged {
                        terminal_session_id: TerminalSessionId(id.0),
                        lifecycle,
                        terminal_revision,
                    },
                ),
                Err(error) => Err(error),
            },
            Ok(2) => match u64::get(decoder) {
                Ok(revision) => Ok(SemanticEventKind::HierarchyChanged { revision }),
                Err(error) => Err(error),
            },
            Ok(_) => Err(WireError::InvalidTag(Tag::SemanticEvent)),
        }
    }
}

pub type OutcomeForm = (u64, (CoreSnapshot, (CreatedResource, Items<ControlLease>)));

pub open spec fn outcome_fields(outcome: OutcomeView) -> (
    u64,
    (HierarchyView, (CreatedResource, Seq<ControlLease>)),
) {
    (outcome.revision, (outcome.snapshot, (outcome.created, outcome.control_leases)))
}

pub open spec fn outcome_of(
    fields: (u64, (HierarchyView, (CreatedResource, Seq<ControlLease>))),
) -> OutcomeView {
    OutcomeView {
        revision: fields.0,
        snapshot: fields.1.0,
        created: fields.1.1.0,
        control_leases: fields.1.1.1,
    }
}

impl Wire for CoreCommandOutcome {
    open spec fn form(value: OutcomeView) -> Seq<u8> {
        OutcomeForm::form(outcome_fields(value))
    }

    open spec fn refusal(value: OutcomeView) -> Option<WireError> {
        OutcomeForm::refusal(outcome_fields(value))
    }

    open spec fn parse(input: Seq<u8>) -> Parsed<OutcomeView> {
        mapped(
            OutcomeForm::parse(input),
            |fields: (u64, (HierarchyView, (CreatedResource, Seq<ControlLease>)))|
                outcome_of(fields),
        )
    }

    open spec fn readable(value: OutcomeView) -> bool {
        OutcomeForm::readable(outcome_fields(value))
    }

    open spec fn received(value: OutcomeView) -> OutcomeView {
        OutcomeView { snapshot: CoreSnapshot::received(value.snapshot), ..value }
    }

    proof fn round_trip(value: OutcomeView, rest: Seq<u8>) {
        OutcomeForm::round_trip(outcome_fields(value), rest);
        lemma_leases_received(value.control_leases);
    }

    fn put(&self, output: &mut Vec<u8>) -> (result: Result<(), WireError>) {
        let _ = self.revision.put(output);
        if let Err(error) = self.snapshot.put(output) {
            return Err(error);
        }
        let _ = self.created.put(output);
        proof {
            assert(views(self.control_leases@) =~= self.control_leases@);
        }
        if let Err(error) = put_list(&self.control_leases, output) {
            return Err(error);
        }
        proof {
            assert(output@ =~= old(output)@ + Self::form(self@));
        }
        Ok(())
    }

    fn get(decoder: &mut Decoder<'_>) -> (result: Result<CoreCommandOutcome, WireError>) {
        match OutcomeForm::get(decoder) {
            Err(error) => Err(error),
            Ok((revision, (snapshot, (created, leases)))) => {
                proof {
                    assert(views(leases.0@) =~= leases.0@);
                }
                Ok(
                    CoreCommandOutcome { revision, snapshot, created, control_leases: leases.0 },
                )
            },
        }
    }
}

pub type HelloForm = (u16, [u8; 32]);

pub type InputForm = (Id, (u64, Vec<u8>));

pub type ResizeForm = (Id, (u64, (u16, (u16, (u16, u16)))));

pub type SinceForm = (Id, Optional<u64, OfSnapshotRevision>);

pub type TransferForm = (Id, (u64, u64));

pub open spec fn resize_fields(
    terminal_session_id: TerminalSessionId,
    lease_generation: u64,
    size: TerminalSize,
) -> (Id, (u64, (u16, (u16, (u16, u16))))) {
    (
        Id(terminal_session_id.0),
        (
            lease_generation,
            (size.cols, (size.rows, (size.cell_width_px, size.cell_height_px))),
        ),
    )
}

impl Wire for Request {
    open spec fn form(value: RequestView) -> Seq<u8> {
        match value {
            RequestView::Hello { version, nonce } => seq![1u8] + HelloForm::form((version, nonce)),
            RequestView::Input { terminal_session_id, lease_generation, bytes } => seq![2u8]
                + InputForm::form((Id(terminal_session_id.0), (lease_generation, bytes))),
            RequestView::Resize { terminal_session_id, lease_generation, size } => seq![3u8]
                + ResizeForm::form(resize_fields(terminal_session_id, lease_generation, size)),
            RequestView::Snapshot { terminal_session_id, since } => seq![4u8] + SinceForm::form(
                (Id(terminal_session_id.0), since),
            ),
            RequestView::StopResidentCore => seq![5u8],
            RequestView::ControlLease { terminal_session_id } => seq![6u8] + Id::form(
                Id(terminal_session_id.0),
            ),
            RequestView::TransferControl { terminal_session_id, lease_generation, target } => {
                seq![7u8] + TransferForm::form(
                    (Id(terminal_session_id.0), (lease_generation, target.0)),
                )
            },
            RequestView::AcquireControl { terminal_session_id, lease_generation } => seq![8u8]
                + <(Id, u64)>::form((Id(terminal_session_id.0), lease_generation)),
            RequestView::Detach => seq![9u8],
            RequestView::CoreSnapshot => seq![10u8],
            RequestView::ApplyCoreCommand { expected_revision, command } => seq![11u8] + <(
                u64,
                CoreCommand,
            )>::form((expected_revision, command)),
            RequestView::Paste { terminal_session_id, lease_generation, bytes } => seq![12u8]
                + InputForm::form((Id(terminal_session_id.0), (lease_generation, bytes))),
        }
    }

    open spec fn refusal(value: RequestView) -> Option<WireError> {
        match value {
            RequestView::Input { bytes, .. } => Vec::<u8>::refusal(bytes),
            RequestView::Paste { bytes, .. } => Vec::<u8>::refusal(bytes),
            RequestView::ApplyCoreCommand { command, .. } => CoreCommand::refusal(command),
            _ => None,
        }
    }

    open spec fn parse(input: Seq<u8>) -> Parsed<RequestView> {
        match u8::parse(input) {
            Err(error) => Err(error),
            Ok((tag, rest)) => if tag == 1 {
                mapped(
                    HelloForm::parse(rest),
                    |fields: (u16, Seq<u8>)|
                        RequestView::Hello { version: fields.0, nonce: fields.1 },
                )
            } else if tag == 2 {
                mapped(
                    InputForm::parse(rest),
                    |fields: (Id, (u64, Seq<u8>))|
                        RequestView::Input {
                            terminal_session_id: TerminalSessionId(fields.0.0),
                            lease_generation: fields.1.0,
                            bytes: fields.1.1,
                        },
                )
            } else if tag == 3 {
                mapped(
                    ResizeForm::parse(rest),
                    |fields: (Id, (u64, (u16, (u16, (u16, u16)))))|
                        {
                            let (id, (lease_generation, (cols, (rows, (width, height))))) = fields;
                            RequestView::Resize {
                                terminal_session_id: TerminalSessionId(id.0),
                                lease_generation,
                                size: TerminalSize {
                                    cols,
                                    rows,
                                    cell_width_px: width,
                                    cell_height_px: height,
                                },
                            }
                        },
                )
            } else if tag == 4 {
                mapped(
                    SinceForm::parse(rest),
                    |fields: (Id, Option<u64>)|
                        RequestView::Snapshot {
                            terminal_session_id: TerminalSessionId(fields.0.0),
                            since: fields.1,
                        },
                )
            } else if tag == 5 {
                Ok((RequestView::StopResidentCore, rest))
            } else if tag == 6 {
                mapped(
                    Id::parse(rest),
                    |id: Id|
                        RequestView::ControlLease { terminal_session_id: TerminalSessionId(id.0) },
                )
            } else if tag == 7 {
                mapped(
                    TransferForm::parse(rest),
                    |fields: (Id, (u64, u64))|
                        RequestView::TransferControl {
                            terminal_session_id: TerminalSessionId(fields.0.0),
                            lease_generation: fields.1.0,
                            target: UiClientId(fields.1.1),
                        },
                )
            } else if tag == 8 {
                mapped(
                    <(Id, u64)>::parse(rest),
                    |fields: (Id, u64)|
                        RequestView::AcquireControl {
                            terminal_session_id: TerminalSessionId(fields.0.0),
                            lease_generation: fields.1,
                        },
                )
            } else if tag == 9 {
                Ok((RequestView::Detach, rest))
            } else if tag == 10 {
                Ok((RequestView::CoreSnapshot, rest))
            } else if tag == 11 {
                mapped(
                    <(u64, CoreCommand)>::parse(rest),
                    |fields: (u64, CommandView)|
                        RequestView::ApplyCoreCommand {
                            expected_revision: fields.0,
                            command: fields.1,
                        },
                )
            } else if tag == 12 {
                mapped(
                    InputForm::parse(rest),
                    |fields: (Id, (u64, Seq<u8>))|
                        RequestView::Paste {
                            terminal_session_id: TerminalSessionId(fields.0.0),
                            lease_generation: fields.1.0,
                            bytes: fields.1.1,
                        },
                )
            } else {
                Err(WireError::InvalidTag(Tag::Request))
            },
        }
    }

    open spec fn readable(value: RequestView) -> bool {
        match value {
            RequestView::Hello { nonce, .. } => nonce.len() == 32,
            RequestView::Input { terminal_session_id, .. } => terminal_session_id.0 != 0,
            RequestView::Paste { terminal_session_id, .. } => terminal_session_id.0 != 0,
            RequestView::Resize { terminal_session_id, .. } => terminal_session_id.0 != 0,
            RequestView::Snapshot { terminal_session_id, .. } => terminal_session_id.0 != 0,
            RequestView::ControlLease { terminal_session_id } => terminal_session_id.0 != 0,
            RequestView::TransferControl { terminal_session_id, .. } => terminal_session_id.0 != 0,
            RequestView::AcquireControl { terminal_session_id, .. } => terminal_session_id.0 != 0,
            RequestView::ApplyCoreCommand { command, .. } => CoreCommand::readable(command),
            _ => true,
        }
    }

    open spec fn received(value: RequestView) -> RequestView {
        value
    }

    proof fn round_trip(value: RequestView, rest: Seq<u8>) {
        match value {
            RequestView::Hello { version, nonce } => {
                HelloForm::round_trip((version, nonce), rest);
                lemma_tagged(1, HelloForm::form((version, nonce)), rest);
            },
            RequestView::Input { terminal_session_id, lease_generation, bytes } => {
                let fields = (Id(terminal_session_id.0), (lease_generation, bytes));
                InputForm::round_trip(fields, rest);
                lemma_tagged(2, InputForm::form(fields), rest);
            },
            RequestView::Resize { terminal_session_id, lease_generation, size } => {
                let fields = resize_fields(terminal_session_id, lease_generation, size);
                ResizeForm::round_trip(fields, rest);
                lemma_tagged(3, ResizeForm::form(fields), rest);
            },
            RequestView::Snapshot { terminal_session_id, since } => {
                let fields = (Id(terminal_session_id.0), since);
                SinceForm::round_trip(fields, rest);
                lemma_tagged(4, SinceForm::form(fields), rest);
            },
            RequestView::StopResidentCore => {
                u8::round_trip(5, rest);
            },
            RequestView::ControlLease { terminal_session_id } => {
                Id::round_trip(Id(terminal_session_id.0), rest);
                lemma_tagged(6, Id::form(Id(terminal_session_id.0)), rest);
            },
            RequestView::TransferControl { terminal_session_id, lease_generation, target } => {
                let fields = (Id(terminal_session_id.0), (lease_generation, target.0));
                TransferForm::round_trip(fields, rest);
                lemma_tagged(7, TransferForm::form(fields), rest);
            },
            RequestView::AcquireControl { terminal_session_id, lease_generation } => {
                let fields = (Id(terminal_session_id.0), lease_generation);
                <(Id, u64)>::round_trip(fields, rest);
                lemma_tagged(8, <(Id, u64)>::form(fields), rest);
            },
            RequestView::Detach => {
                u8::round_trip(9, rest);
            },
            RequestView::CoreSnapshot => {
                u8::round_trip(10, rest);
            },
            RequestView::ApplyCoreCommand { expected_revision, command } => {
                <(u64, CoreCommand)>::round_trip((expected_revision, command), rest);
                lemma_tagged(11, <(u64, CoreCommand)>::form((expected_revision, command)), rest);
            },
            RequestView::Paste { terminal_session_id, lease_generation, bytes } => {
                let fields = (Id(terminal_session_id.0), (lease_generation, bytes));
                InputForm::round_trip(fields, rest);
                lemma_tagged(12, InputForm::form(fields), rest);
            },
        }
    }

    #[verifier::rlimit(30)]
    fn put(&self, output: &mut Vec<u8>) -> (result: Result<(), WireError>) {
        let result = match self {
            Request::Hello { version, nonce } => (1u8, (*version, *nonce)).put(output),
            Request::Input { terminal_session_id, lease_generation, bytes } => {
                let _ = (2u8, (Id(terminal_session_id.0), *lease_generation)).put(output);
                bytes.put(output)
            },
            Request::Resize { terminal_session_id, lease_generation, size } => {
                (
                    3u8,
                    (
                        Id(terminal_session_id.0),
                        (
                            *lease_generation,
                            (size.cols, (size.rows, (size.cell_width_px, size.cell_height_px))),
                        ),
                    ),
                ).put(output)
            },
            Request::Snapshot { terminal_session_id, since } => {
                let _ = (4u8, Id(terminal_session_id.0)).put(output);
                put_optional(since, output)
            },
            Request::StopResidentCore => 5u8.put(output),
            Request::ControlLease { terminal_session_id } => {
                (6u8, Id(terminal_session_id.0)).put(output)
            },
            Request::TransferControl { terminal_session_id, lease_generation, target } => {
                (7u8, (Id(terminal_session_id.0), (*lease_generation, target.0))).put(output)
            },
            Request::AcquireControl { terminal_session_id, lease_generation } => {
                (8u8, (Id(terminal_session_id.0), *lease_generation)).put(output)
            },
            Request::Detach => 9u8.put(output),
            Request::CoreSnapshot => 10u8.put(output),
            Request::ApplyCoreCommand { expected_revision, command } => {
                let _ = (11u8, *expected_revision).put(output);
                command.put(output)
            },
            Request::Paste { terminal_session_id, lease_generation, bytes } => {
                let _ = (12u8, (Id(terminal_session_id.0), *lease_generation)).put(output);
                bytes.put(output)
            },
        };
        proof {
            if result is Ok {
                assert(output@ =~= old(output)@ + Self::form(self@));
            }
        }
        result
    }

    fn get(decoder: &mut Decoder<'_>) -> (result: Result<Request, WireError>) {
        match u8::get(decoder) {
            Err(error) => Err(error),
            Ok(1) => match HelloForm::get(decoder) {
                Ok((version, nonce)) => Ok(Request::Hello { version, nonce }),
                Err(error) => Err(error),
            },
            Ok(2) => match InputForm::get(decoder) {
                Ok((id, (lease_generation, bytes))) => Ok(
                    Request::Input {
                        terminal_session_id: TerminalSessionId(id.0),
                        lease_generation,
                        bytes,
                    },
                ),
                Err(error) => Err(error),
            },
            Ok(3) => match ResizeForm::get(decoder) {
                Ok((id, (lease_generation, (cols, (rows, (width, height)))))) => Ok(
                    Request::Resize {
                        terminal_session_id: TerminalSessionId(id.0),
                        lease_generation,
                        size: TerminalSize::new(cols, rows, width, height),
                    },
                ),
                Err(error) => Err(error),
            },
            Ok(4) => match SinceForm::get(decoder) {
                Ok((id, since)) => Ok(
                    Request::Snapshot {
                        terminal_session_id: TerminalSessionId(id.0),
                        since: since.0,
                    },
                ),
                Err(error) => Err(error),
            },
            Ok(5) => Ok(Request::StopResidentCore),
            Ok(6) => match Id::get(decoder) {
                Ok(id) => Ok(
                    Request::ControlLease { terminal_session_id: TerminalSessionId(id.0) },
                ),
                Err(error) => Err(error),
            },
            Ok(7) => match TransferForm::get(decoder) {
                Ok((id, (lease_generation, target))) => Ok(
                    Request::TransferControl {
                        terminal_session_id: TerminalSessionId(id.0),
                        lease_generation,
                        target: UiClientId(target),
                    },
                ),
                Err(error) => Err(error),
            },
            Ok(8) => match <(Id, u64)>::get(decoder) {
                Ok((id, lease_generation)) => Ok(
                    Request::AcquireControl {
                        terminal_session_id: TerminalSessionId(id.0),
                        lease_generation,
                    },
                ),
                Err(error) => Err(error),
            },
            Ok(9) => Ok(Request::Detach),
            Ok(10) => Ok(Request::CoreSnapshot),
            Ok(11) => match <(u64, CoreCommand)>::get(decoder) {
                Ok((expected_revision, command)) => Ok(
                    Request::ApplyCoreCommand { expected_revision, command },
                ),
                Err(error) => Err(error),
            },
            Ok(12) => match InputForm::get(decoder) {
                Ok((id, (lease_generation, bytes))) => Ok(
                    Request::Paste {
                        terminal_session_id: TerminalSessionId(id.0),
                        lease_generation,
                        bytes,
                    },
                ),
                Err(error) => Err(error),
            },
            Ok(_) => Err(WireError::InvalidTag(Tag::Request)),
        }
    }
}

pub type ReadyForm = (u16, ([u8; 32], (u64, (CoreSnapshot, (Items<ControlLease>, u64)))));

pub type ReadyFields = (u16, (Seq<u8>, (u64, (HierarchyView, (Seq<ControlLease>, u64)))));

pub open spec fn ready_fields(
    version: u16,
    proof_bytes: Seq<u8>,
    client_id: UiClientId,
    snapshot: HierarchyView,
    leases: Seq<ControlLease>,
    semantic_sequence: u64,
) -> ReadyFields {
    (version, (proof_bytes, (client_id.0, (snapshot, (leases, semantic_sequence)))))
}

pub open spec fn ready_of(fields: ReadyFields) -> ResponseView {
    let (version, (proof_bytes, (client, (snapshot, (leases, semantic_sequence))))) = fields;
    ResponseView::Ready {
        version,
        proof_bytes,
        client_id: UiClientId(client),
        snapshot,
        leases,
        semantic_sequence,
    }
}

pub type ChangeForm = (u64, (Id, u64));

pub type UpdateForm = Optional<TerminalUpdate, OfSnapshot>;

impl Wire for Response {
    open spec fn form(value: ResponseView) -> Seq<u8> {
        match value {
            ResponseView::Ready {
                version,
                proof_bytes,
                client_id,
                snapshot,
                leases,
                semantic_sequence,
            } => seq![1u8] + ReadyForm::form(
                ready_fields(
                    version,
                    proof_bytes,
                    client_id,
                    snapshot,
                    leases,
                    semantic_sequence,
                ),
            ),
            ResponseView::Ack => seq![2u8],
            ResponseView::Snapshot(update) => seq![3u8] + UpdateForm::form(update),
            ResponseView::Error(error) => seq![4u8] + String::form(error),
            ResponseView::TerminalChanged(change) => seq![5u8] + ChangeForm::form(
                (change.sequence, (Id(change.terminal_session_id.0), change.terminal_revision)),
            ),
            ResponseView::ControlLease(lease) => seq![6u8] + ControlLease::form(lease),
            ResponseView::ControlLeaseDenied { reason, lease } => seq![7u8] + <(
                ControlLeaseDenial,
                ControlLease,
            )>::form((reason, lease)),
            ResponseView::SemanticEvent(event) => seq![8u8] + <(u64, SemanticEventKind)>::form(
                (event.sequence, event.kind),
            ),
            ResponseView::ResnapshotRequired => seq![9u8],
            ResponseView::CoreSnapshot(snapshot) => seq![10u8] + CoreSnapshot::form(snapshot),
            ResponseView::CoreCommandAccepted(outcome) => seq![11u8] + CoreCommandOutcome::form(
                outcome,
            ),
            ResponseView::CoreCommandRejected(error) => seq![12u8] + CoreModelError::form(error),
        }
    }

    open spec fn refusal(value: ResponseView) -> Option<WireError> {
        match value {
            ResponseView::Ready { snapshot, leases, .. } => match CoreSnapshot::refusal(snapshot) {
                Some(error) => Some(error),
                None => Items::<ControlLease>::refusal(leases),
            },
            ResponseView::Snapshot(update) => UpdateForm::refusal(update),
            ResponseView::Error(error) => String::refusal(error),
            ResponseView::SemanticEvent(event) => SemanticEventKind::refusal(event.kind),
            ResponseView::CoreSnapshot(snapshot) => CoreSnapshot::refusal(snapshot),
            ResponseView::CoreCommandAccepted(outcome) => CoreCommandOutcome::refusal(outcome),
            ResponseView::CoreCommandRejected(error) => CoreModelError::refusal(error),
            _ => None,
        }
    }

    open spec fn parse(input: Seq<u8>) -> Parsed<ResponseView> {
        match u8::parse(input) {
            Err(error) => Err(error),
            Ok((tag, rest)) => if tag == 1 {
                mapped(ReadyForm::parse(rest), |fields: ReadyFields| ready_of(fields))
            } else if tag == 2 {
                Ok((ResponseView::Ack, rest))
            } else if tag == 3 {
                mapped(
                    UpdateForm::parse(rest),
                    |update: Option<UpdateView>| ResponseView::Snapshot(update),
                )
            } else if tag == 4 {
                mapped(String::parse(rest), |error: Seq<char>| ResponseView::Error(error))
            } else if tag == 5 {
                mapped(
                    ChangeForm::parse(rest),
                    |fields: (u64, (Id, u64))|
                        ResponseView::TerminalChanged(
                            TerminalChange {
                                sequence: fields.0,
                                terminal_session_id: TerminalSessionId(fields.1.0.0),
                                terminal_revision: fields.1.1,
                            },
                        ),
                )
            } else if tag == 6 {
                mapped(
                    ControlLease::parse(rest),
                    |lease: ControlLease| ResponseView::ControlLease(lease),
                )
            } else if tag == 7 {
                mapped(
                    <(ControlLeaseDenial, ControlLease)>::parse(rest),
                    |fields: (ControlLeaseDenial, ControlLease)|
                        ResponseView::ControlLeaseDenied { reason: fields.0, lease: fields.1 },
                )
            } else if tag == 8 {
                mapped(
                    <(u64, SemanticEventKind)>::parse(rest),
                    |fields: (u64, SemanticEventKindView)|
                        ResponseView::SemanticEvent(
                            SemanticEventView { sequence: fields.0, kind: fields.1 },
                        ),
                )
            } else if tag == 9 {
                Ok((ResponseView::ResnapshotRequired, rest))
            } else if tag == 10 {
                mapped(
                    CoreSnapshot::parse(rest),
                    |snapshot: HierarchyView| ResponseView::CoreSnapshot(snapshot),
                )
            } else if tag == 11 {
                mapped(
                    CoreCommandOutcome::parse(rest),
                    |outcome: OutcomeView| ResponseView::CoreCommandAccepted(outcome),
                )
            } else if tag == 12 {
                mapped(
                    CoreModelError::parse(rest),
                    |error: CoreModelError| ResponseView::CoreCommandRejected(error),
                )
            } else {
                Err(WireError::InvalidTag(Tag::Response))
            },
        }
    }

    open spec fn readable(value: ResponseView) -> bool {
        match value {
            ResponseView::Ready { proof_bytes, snapshot, leases, .. } => proof_bytes.len() == 32
                && CoreSnapshot::readable(snapshot) && Items::<ControlLease>::readable(leases),
            ResponseView::Snapshot(update) => UpdateForm::readable(update),
            ResponseView::TerminalChanged(change) => change.terminal_session_id.0 != 0,
            ResponseView::ControlLease(lease) => ControlLease::readable(lease),
            ResponseView::ControlLeaseDenied { lease, .. } => ControlLease::readable(lease),
            ResponseView::SemanticEvent(event) => SemanticEventKind::readable(event.kind),
            ResponseView::CoreSnapshot(snapshot) => CoreSnapshot::readable(snapshot),
            ResponseView::CoreCommandAccepted(outcome) => CoreCommandOutcome::readable(outcome),
            _ => true,
        }
    }

    open spec fn received(value: ResponseView) -> ResponseView {
        match value {
            ResponseView::Ready {
                version,
                proof_bytes,
                client_id,
                snapshot,
                leases,
                semantic_sequence,
            } => ResponseView::Ready {
                version,
                proof_bytes,
                client_id,
                snapshot: CoreSnapshot::received(snapshot),
                leases,
                semantic_sequence,
            },
            ResponseView::CoreSnapshot(snapshot) => ResponseView::CoreSnapshot(
                CoreSnapshot::received(snapshot),
            ),
            ResponseView::CoreCommandAccepted(outcome) => ResponseView::CoreCommandAccepted(
                CoreCommandOutcome::received(outcome),
            ),
            _ => value,
        }
    }

    #[verifier::rlimit(60)]
    proof fn round_trip(value: ResponseView, rest: Seq<u8>) {
        match value {
            ResponseView::Ready {
                version,
                proof_bytes,
                client_id,
                snapshot,
                leases,
                semantic_sequence,
            } => {
                lemma_ready_round_trip(
                    version,
                    proof_bytes,
                    client_id,
                    snapshot,
                    leases,
                    semantic_sequence,
                    rest,
                );
                lemma_tagged(
                    1,
                    ReadyForm::form(
                        ready_fields(
                            version,
                            proof_bytes,
                            client_id,
                            snapshot,
                            leases,
                            semantic_sequence,
                        ),
                    ),
                    rest,
                );
            },
            ResponseView::Ack => {
                u8::round_trip(2, rest);
            },
            ResponseView::Snapshot(update) => {
                UpdateForm::round_trip(update, rest);
                lemma_tagged(3, UpdateForm::form(update), rest);
            },
            ResponseView::Error(error) => {
                String::round_trip(error, rest);
                lemma_tagged(4, String::form(error), rest);
            },
            ResponseView::TerminalChanged(change) => {
                let fields = (
                    change.sequence,
                    (Id(change.terminal_session_id.0), change.terminal_revision),
                );
                ChangeForm::round_trip(fields, rest);
                lemma_tagged(5, ChangeForm::form(fields), rest);
            },
            ResponseView::ControlLease(lease) => {
                ControlLease::round_trip(lease, rest);
                lemma_tagged(6, ControlLease::form(lease), rest);
            },
            ResponseView::ControlLeaseDenied { reason, lease } => {
                <(ControlLeaseDenial, ControlLease)>::round_trip((reason, lease), rest);
                lemma_tagged(
                    7,
                    <(ControlLeaseDenial, ControlLease)>::form((reason, lease)),
                    rest,
                );
            },
            ResponseView::SemanticEvent(event) => {
                <(u64, SemanticEventKind)>::round_trip((event.sequence, event.kind), rest);
                lemma_tagged(
                    8,
                    <(u64, SemanticEventKind)>::form((event.sequence, event.kind)),
                    rest,
                );
            },
            ResponseView::ResnapshotRequired => {
                u8::round_trip(9, rest);
            },
            ResponseView::CoreSnapshot(snapshot) => {
                CoreSnapshot::round_trip(snapshot, rest);
                lemma_tagged(10, CoreSnapshot::form(snapshot), rest);
            },
            ResponseView::CoreCommandAccepted(outcome) => {
                CoreCommandOutcome::round_trip(outcome, rest);
                lemma_tagged(11, CoreCommandOutcome::form(outcome), rest);
            },
            ResponseView::CoreCommandRejected(error) => {
                CoreModelError::round_trip(error, rest);
                lemma_tagged(12, CoreModelError::form(error), rest);
            },
        }
    }

    fn put(&self, output: &mut Vec<u8>) -> (result: Result<(), WireError>) {
        match self {
            Response::Ready {
                version,
                proof_bytes,
                client_id,
                snapshot,
                leases,
                semantic_sequence,
            } => put_ready(
                *version,
                proof_bytes,
                *client_id,
                snapshot,
                leases,
                *semantic_sequence,
                output,
            ),
            Response::Ack => 2u8.put(output),
            Response::Snapshot(update) => put_update(update, output),
            Response::Error(error) => put_tagged(4, error, output),
            Response::TerminalChanged(change) => {
                let fields = (
                    change.sequence,
                    (Id(change.terminal_session_id.0), change.terminal_revision),
                );
                put_tagged(5, &fields, output)
            },
            Response::ControlLease(lease) => put_tagged(6, lease, output),
            Response::ControlLeaseDenied { reason, lease } => {
                put_tagged(7, &(*reason, *lease), output)
            },
            Response::SemanticEvent(event) => put_event(event, output),
            Response::ResnapshotRequired => 9u8.put(output),
            Response::CoreSnapshot(snapshot) => put_tagged(10, snapshot, output),
            Response::CoreCommandAccepted(outcome) => put_tagged(11, outcome, output),
            Response::CoreCommandRejected(error) => put_tagged(12, error, output),
        }
    }

    fn get(decoder: &mut Decoder<'_>) -> (result: Result<Response, WireError>) {
        match u8::get(decoder) {
            Err(error) => Err(error),
            Ok(1) => match ReadyForm::get(decoder) {
                Ok((version, (proof_bytes, (client, (snapshot, (leases, semantic_sequence)))))) => {
                    proof {
                        assert(views(leases.0@) =~= leases.0@);
                    }
                    Ok(
                        Response::Ready {
                            version,
                            proof_bytes,
                            client_id: UiClientId(client),
                            snapshot,
                            leases: leases.0,
                            semantic_sequence,
                        },
                    )
                },
                Err(error) => Err(error),
            },
            Ok(2) => Ok(Response::Ack),
            Ok(3) => match UpdateForm::get(decoder) {
                Ok(update) => Ok(Response::Snapshot(update.0)),
                Err(error) => Err(error),
            },
            Ok(4) => match String::get(decoder) {
                Ok(error) => Ok(Response::Error(error)),
                Err(error) => Err(error),
            },
            Ok(5) => match ChangeForm::get(decoder) {
                Ok((sequence, (id, terminal_revision))) => Ok(
                    Response::TerminalChanged(
                        TerminalChange {
                            sequence,
                            terminal_session_id: TerminalSessionId(id.0),
                            terminal_revision,
                        },
                    ),
                ),
                Err(error) => Err(error),
            },
            Ok(6) => match ControlLease::get(decoder) {
                Ok(lease) => Ok(Response::ControlLease(lease)),
                Err(error) => Err(error),
            },
            Ok(7) => match <(ControlLeaseDenial, ControlLease)>::get(decoder) {
                Ok((reason, lease)) => Ok(Response::ControlLeaseDenied { reason, lease }),
                Err(error) => Err(error),
            },
            Ok(8) => match <(u64, SemanticEventKind)>::get(decoder) {
                Ok((sequence, kind)) => Ok(
                    Response::SemanticEvent(SemanticEvent { sequence, kind }),
                ),
                Err(error) => Err(error),
            },
            Ok(9) => Ok(Response::ResnapshotRequired),
            Ok(10) => match CoreSnapshot::get(decoder) {
                Ok(snapshot) => Ok(Response::CoreSnapshot(snapshot)),
                Err(error) => Err(error),
            },
            Ok(11) => match CoreCommandOutcome::get(decoder) {
                Ok(outcome) => Ok(Response::CoreCommandAccepted(outcome)),
                Err(error) => Err(error),
            },
            Ok(12) => match CoreModelError::get(decoder) {
                Ok(error) => Ok(Response::CoreCommandRejected(error)),
                Err(error) => Err(error),
            },
            Ok(_) => Err(WireError::InvalidTag(Tag::Response)),
        }
    }
}

proof fn lemma_ready_round_trip(
    version: u16,
    proof_bytes: Seq<u8>,
    client_id: UiClientId,
    snapshot: HierarchyView,
    leases: Seq<ControlLease>,
    semantic_sequence: u64,
    rest: Seq<u8>,
)
    requires
        proof_bytes.len() == 32,
        CoreSnapshot::readable(snapshot),
        CoreSnapshot::refusal(snapshot) is None,
        Items::<ControlLease>::readable(leases),
        Items::<ControlLease>::refusal(leases) is None,
    ensures
        ({
            let sent = ready_fields(
                version,
                proof_bytes,
                client_id,
                snapshot,
                leases,
                semantic_sequence,
            );
            let received = ready_fields(
                version,
                proof_bytes,
                client_id,
                CoreSnapshot::received(snapshot),
                leases,
                semantic_sequence,
            );
            ReadyForm::parse(ReadyForm::form(sent) + rest) == Parsed::<ReadyFields>::Ok(
                (received, rest),
            )
        }),
{
    ReadyForm::round_trip(
        ready_fields(version, proof_bytes, client_id, snapshot, leases, semantic_sequence),
        rest,
    );
    lemma_leases_received(leases);
}

#[verifier::rlimit(80)]
#[verifier::spinoff_prover]
fn put_ready(
    version: u16,
    proof_bytes: &[u8; 32],
    client_id: UiClientId,
    snapshot: &CoreSnapshot,
    leases: &Vec<ControlLease>,
    semantic_sequence: u64,
    output: &mut Vec<u8>,
) -> (result: Result<(), WireError>)
    ensures
        match CoreSnapshot::refusal(snapshot@) {
            Some(error) => result == Err::<(), WireError>(error),
            None => match Items::<ControlLease>::refusal(leases@) {
                Some(error) => result == Err::<(), WireError>(error),
                None => result is Ok && final(output)@ == old(output)@ + (seq![1u8]
                    + ReadyForm::form(
                    ready_fields(
                        version,
                        proof_bytes@,
                        client_id,
                        snapshot@,
                        leases@,
                        semantic_sequence,
                    ),
                )),
            },
        },
{
    output.push(1);
    let _ = (version, (*proof_bytes, client_id.0)).put(output);
    if let Err(error) = snapshot.put(output) {
        return Err(error);
    }
    proof {
        assert(views(leases@) =~= leases@);
    }
    if let Err(error) = put_list(leases, output) {
        return Err(error);
    }
    let _ = semantic_sequence.put(output);
    proof {
        assert(output@ =~= old(output)@ + (seq![1u8] + ReadyForm::form(
            ready_fields(
                version,
                proof_bytes@,
                client_id,
                snapshot@,
                leases@,
                semantic_sequence,
            ),
        )));
    }
    Ok(())
}

fn put_update(update: &Option<TerminalUpdate>, output: &mut Vec<u8>) -> (result: Result<
    (),
    WireError,
>)
    ensures
        match UpdateForm::refusal(option_view(*update)) {
            Some(error) => result == Err::<(), WireError>(error),
            None => result is Ok && final(output)@ == old(output)@ + (seq![3u8]
                + UpdateForm::form(option_view(*update))),
        },
{
    output.push(3);
    let result = put_optional(update, output);
    proof {
        if result is Ok {
            assert(output@ =~= old(output)@ + (seq![3u8] + UpdateForm::form(
                option_view(*update),
            )));
        }
    }
    result
}

fn put_event(event: &SemanticEvent, output: &mut Vec<u8>) -> (result: Result<(), WireError>)
    ensures
        match SemanticEventKind::refusal(event.kind@) {
            Some(error) => result == Err::<(), WireError>(error),
            None => result is Ok && final(output)@ == old(output)@ + (seq![8u8] + <(
                u64,
                SemanticEventKind,
            )>::form((event.sequence, event.kind@))),
        },
{
    let _ = (8u8, event.sequence).put(output);
    let result = event.kind.put(output);
    proof {
        if result is Ok {
            assert(output@ =~= old(output)@ + (seq![8u8] + <(u64, SemanticEventKind)>::form(
                (event.sequence, event.kind@),
            )));
        }
    }
    result
}

} // verus!
