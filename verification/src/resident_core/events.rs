//! The order of events, and which of them wait to be told.

use super::protocol::{
    ControlLease, Response, SemanticEvent, SemanticEventKind, SemanticEventKindView,
    SemanticEventView, TerminalChange,
};
use crate::core_model::TerminalSessionId;
use crate::text::{decimal, decimal_chars};
use vstd::prelude::*;
use vstd::string::*;

verus! {

/// How many semantic events may wait for a client.
pub const SEMANTIC_EVENT_CAPACITY: usize = 64;

/// The number after `sequence`.
pub open spec fn next_sequence(sequence: u64) -> u64 {
    if sequence < u64::MAX {
        (sequence + 1) as u64
    } else {
        sequence
    }
}

/// Numbers an event.
pub fn number_event(sequence: &mut u64, kind: SemanticEventKind) -> (event: SemanticEvent)
    ensures
        *final(sequence) == next_sequence(*old(sequence)),
        event@ == (SemanticEventView { sequence: *final(sequence), kind: kind@ }),
{
    *sequence = sequence.saturating_add(1);
    SemanticEvent { sequence: *sequence, kind }
}

/// The events that tell of changed leases, with their numbers.
pub open spec fn lease_events(sequence: u64, leases: Seq<ControlLease>) -> Seq<SemanticEventView>
    decreases leases.len(),
{
    if leases.len() == 0 {
        Seq::empty()
    } else {
        lease_events(sequence, leases.drop_last()).push(
            SemanticEventView {
                sequence: sequence_after(sequence, leases.len()),
                kind: SemanticEventKindView::ControlLeaseChanged { lease: leases.last() },
            },
        )
    }
}

/// The number of the last of `count` events.
pub open spec fn sequence_after(sequence: u64, count: nat) -> u64
    decreases count,
{
    if count == 0 {
        sequence
    } else {
        next_sequence(sequence_after(sequence, (count - 1) as nat))
    }
}

pub open spec fn event_views(events: Seq<SemanticEvent>) -> Seq<SemanticEventView> {
    Seq::new(events.len(), |i: int| events[i]@)
}

/// Numbers the events that tell of changed leases.
pub fn number_lease_events(sequence: &mut u64, leases: &Vec<ControlLease>) -> (events: Vec<
    SemanticEvent,
>)
    ensures
        *final(sequence) == sequence_after(*old(sequence), leases@.len()),
        event_views(events@) == lease_events(*old(sequence), leases@),
{
    let mut events: Vec<SemanticEvent> = Vec::new();
    let mut index: usize = 0;
    proof {
        assert(event_views(events@) =~= lease_events(*sequence, leases@.take(0)));
    }
    while index < leases.len()
        invariant
            index <= leases@.len(),
            *sequence == sequence_after(*old(sequence), index as nat),
            event_views(events@) == lease_events(*old(sequence), leases@.take(index as int)),
        decreases leases@.len() - index,
    {
        let ghost before = events@;
        let event = number_event(
            sequence,
            SemanticEventKind::ControlLeaseChanged { lease: leases[index] },
        );
        events.push(event);
        index += 1;
        proof {
            assert(leases@.take(index as int).drop_last() =~= leases@.take(index - 1));
            assert(event_views(events@) =~= event_views(before).push(event@));
        }
    }
    proof {
        assert(leases@.take(index as int) =~= leases@);
    }
    events
}

/// How handing an event to a client went.
#[derive(Clone, Copy, Debug, PartialEq, Eq, Structural)]
pub enum Delivery {
    Delivered,
    Full,
    Disconnected,
}

/// Whether a client stays subscribed to semantic events, and whether it is
/// told that it has missed one.
pub fn semantic_delivery(delivery: Delivery) -> (result: (bool, bool))
    ensures
        result == (delivery == Delivery::Delivered, delivery == Delivery::Full),
{
    match delivery {
        Delivery::Delivered => (true, false),
        Delivery::Full => (false, true),
        Delivery::Disconnected => (false, false),
    }
}

/// Whether a client stays subscribed to terminal changes: one that has not
/// taken up the last wake finds all changes at the next.
pub fn change_delivery(delivery: Delivery) -> (stays: bool)
    ensures
        stays == (delivery != Delivery::Disconnected),
{
    match delivery {
        Delivery::Delivered | Delivery::Full => true,
        Delivery::Disconnected => false,
    }
}

/// The latest change of each terminal that a client has not been told of, in
/// the order of their numbers.
pub struct PendingChanges {
    changes: Vec<TerminalChange>,
}

pub open spec fn in_sequence(changes: Seq<TerminalChange>) -> bool {
    forall|i: int, j: int|
        0 <= i < j < changes.len() ==> (#[trigger] changes[i]).sequence <= (
        #[trigger] changes[j]).sequence
}

/// Whether no terminal occurs twice.
pub open spec fn one_each(changes: Seq<TerminalChange>) -> bool {
    forall|i: int, j: int|
        0 <= i < j < changes.len() ==> (#[trigger] changes[i]).terminal_session_id != (
        #[trigger] changes[j]).terminal_session_id
}

/// Whether `changes` holds, for each terminal, what `pending` has of it.
pub open spec fn lists(changes: Seq<TerminalChange>, pending: Map<u64, TerminalChange>) -> bool {
    forall|change: TerminalChange| #[trigger]
        changes.contains(change) <==> pending.contains_key(change.terminal_session_id.0)
            && pending[change.terminal_session_id.0] == change
}

spec fn pending_map(changes: Seq<TerminalChange>) -> Map<u64, TerminalChange> {
    Map::new(
        |id: u64|
            exists|i: int|
                0 <= i < changes.len() && (#[trigger] changes[i]).terminal_session_id.0 == id,
        |id: u64|
            changes[choose|i: int|
                0 <= i < changes.len() && (#[trigger] changes[i]).terminal_session_id.0 == id],
    )
}

impl View for PendingChanges {
    type V = Map<u64, TerminalChange>;

    closed spec fn view(&self) -> Map<u64, TerminalChange> {
        pending_map(self.changes@)
    }
}

proof fn lemma_pending_map(changes: Seq<TerminalChange>, index: int)
    requires
        one_each(changes),
        0 <= index < changes.len(),
    ensures
        pending_map(changes).contains_key(changes[index].terminal_session_id.0),
        pending_map(changes)[changes[index].terminal_session_id.0] == changes[index],
{
    let id = changes[index].terminal_session_id.0;
    let found = choose|i: int|
        0 <= i < changes.len() && (#[trigger] changes[i]).terminal_session_id.0 == id;
    assert(changes[index].terminal_session_id.0 == id);
    assert(changes[found].terminal_session_id == changes[index].terminal_session_id);
}

impl PendingChanges {
    #[verifier::type_invariant]
    spec fn well_formed(self) -> bool {
        in_sequence(self.changes@) && one_each(self.changes@)
    }

    pub fn new() -> (pending: Self)
        ensures
            pending@ == Map::<u64, TerminalChange>::empty(),
    {
        let pending = PendingChanges { changes: Vec::new() };
        proof {
            assert(pending@ =~= Map::empty());
        }
        pending
    }

    /// Forgets the change of a terminal.
    pub fn remove(&mut self, session: TerminalSessionId)
        ensures
            final(self)@ == old(self)@.remove(session.0),
    {
        proof {
            use_type_invariant(&*self);
        }
        let ghost before = self.changes@;
        let mut index: usize = 0;
        while index < self.changes.len()
            invariant
                index <= self.changes@.len(),
                self.changes@ == before,
                before == old(self).changes@,
                in_sequence(before),
                one_each(before),
                forall|i: int| 0 <= i < index ==> (#[trigger] before[i]).terminal_session_id
                    != session,
            decreases self.changes@.len() - index,
        {
            if self.changes[index].terminal_session_id == session {
                let mut changes: Vec<TerminalChange> = Vec::new();
                std::mem::swap(&mut changes, &mut self.changes);
                let _ = changes.remove(index);
                proof {
                    lemma_removed(before, index as int);
                }
                self.changes = changes;
                return ;
            }
            index += 1;
        }
        proof {
            assert(self@ =~= self@.remove(session.0));
        }
    }

    /// Notes a change, in place of an earlier one of the same terminal.
    pub fn note(&mut self, change: TerminalChange)
        ensures
            final(self)@ == old(self)@.insert(change.terminal_session_id.0, change),
    {
        self.remove(change.terminal_session_id);
        proof {
            use_type_invariant(&*self);
        }
        let ghost before = self.changes@;
        proof {
            assert forall|i: int| 0 <= i < before.len() implies (
            #[trigger] before[i]).terminal_session_id != change.terminal_session_id by {
                lemma_pending_map(before, i);
            }
        }
        let mut index: usize = self.changes.len();
        while index > 0 && self.changes[index - 1].sequence > change.sequence
            invariant
                index <= self.changes@.len(),
                self.changes@ == before,
                forall|i: int| index <= i < before.len() ==> (#[trigger] before[i]).sequence
                    > change.sequence,
            decreases index,
        {
            index -= 1;
        }
        let mut changes: Vec<TerminalChange> = Vec::new();
        std::mem::swap(&mut changes, &mut self.changes);
        changes.insert(index, change);
        proof {
            let after = changes@;
            assert forall|i: int| 0 <= i < after.len() implies #[trigger] after[i] == if i < index {
                before[i]
            } else if i == index {
                change
            } else {
                before[i - 1]
            } by {}
            assert(in_sequence(after)) by {
                assert forall|i: int, j: int| 0 <= i < j < after.len() implies (
                #[trigger] after[i]).sequence <= (#[trigger] after[j]).sequence by {
                    if index > 0 && i < index && j == index {
                        assert(before[i].sequence <= before[index - 1].sequence);
                    }
                }
            }
            assert(one_each(after));
            lemma_removed(after, index as int);
            assert(after.remove(index as int) =~= before);
            lemma_pending_map(after, index as int);
            assert(pending_map(after) =~= pending_map(before).insert(
                change.terminal_session_id.0,
                change,
            ));
        }
        self.changes = changes;
    }

    /// Takes all changes out, in the order of their numbers.
    pub fn drain(&mut self) -> (changes: Vec<TerminalChange>)
        ensures
            in_sequence(changes@),
            one_each(changes@),
            lists(changes@, old(self)@),
            final(self)@ == Map::<u64, TerminalChange>::empty(),
    {
        proof {
            use_type_invariant(&*self);
        }
        let mut changes: Vec<TerminalChange> = Vec::new();
        std::mem::swap(&mut changes, &mut self.changes);
        proof {
            assert(self@ =~= Map::empty());
            assert forall|change: TerminalChange| #[trigger]
                changes@.contains(change) <==> pending_map(changes@).contains_key(
                    change.terminal_session_id.0,
                ) && pending_map(changes@)[change.terminal_session_id.0] == change by {
                if changes@.contains(change) {
                    lemma_pending_map(changes@, changes@.index_of(change));
                }
            }
        }
        changes
    }
}

proof fn lemma_removed(changes: Seq<TerminalChange>, index: int)
    requires
        in_sequence(changes),
        one_each(changes),
        0 <= index < changes.len(),
    ensures
        in_sequence(changes.remove(index)),
        one_each(changes.remove(index)),
        pending_map(changes.remove(index)) == pending_map(changes).remove(
            changes[index].terminal_session_id.0,
        ),
{
    let rest = changes.remove(index);
    let id = changes[index].terminal_session_id.0;
    assert forall|i: int| 0 <= i < rest.len() implies #[trigger] rest[i] == if i < index {
        changes[i]
    } else {
        changes[i + 1]
    } by {}
    assert(one_each(rest));
    assert(in_sequence(rest));
    assert forall|other: u64| pending_map(rest).contains_key(other) <==> pending_map(
        changes,
    ).contains_key(other) && other != id by {
        if pending_map(rest).contains_key(other) {
            let i = choose|i: int|
                0 <= i < rest.len() && (#[trigger] rest[i]).terminal_session_id.0 == other;
            let j = if i < index {
                i
            } else {
                i + 1
            };
            assert(changes[j].terminal_session_id.0 == other);
            assert(changes[j].terminal_session_id != changes[index].terminal_session_id);
        }
        if pending_map(changes).contains_key(other) && other != id {
            let i = choose|i: int|
                0 <= i < changes.len() && (#[trigger] changes[i]).terminal_session_id.0 == other;
            let j = if i < index {
                i
            } else {
                i - 1
            };
            assert(rest[j].terminal_session_id.0 == other);
        }
    }
    assert forall|other: u64| pending_map(rest).contains_key(other) implies pending_map(
        rest,
    )[other] == pending_map(changes)[other] by {
        let i = choose|i: int|
            0 <= i < rest.len() && (#[trigger] rest[i]).terminal_session_id.0 == other;
        let j = if i < index {
            i
        } else {
            i + 1
        };
        lemma_pending_map(rest, i);
        lemma_pending_map(changes, j);
    }
    assert(pending_map(rest) =~= pending_map(changes).remove(id));
}

/// Where a response goes that a client has read.
#[derive(Debug, PartialEq, Eq)]
pub enum Routed {
    Change(TerminalChange),
    Event(SemanticEvent),
    Reply(Response),
    /// The client has missed something and must connect anew.
    Lost(String),
}

/// A gap between events, in words.
pub open spec fn gap_text(expected: u64, received: u64) -> Seq<char> {
    "Resident Core semantic event gap: expected "@ + decimal_chars(expected as nat)
        + ", received "@ + decimal_chars(received as nat)
        + "; reconnect and resnapshot required"@
}

/// That too many events wait to be taken up, in words.
pub fn overflow_message() -> (message: String)
    ensures
        message@
            == "Resident Core semantic event queue overflowed; reconnect and resnapshot required"@,
{
    "Resident Core semantic event queue overflowed; reconnect and resnapshot required".to_owned()
}

/// Sorts a response that arrived after the event with number `sequence`.
pub fn route_response(sequence: &mut u64, response: Response) -> (routed: Routed)
    ensures
        match response {
            Response::TerminalChanged(change) => routed == Routed::Change(change)
                && *final(sequence) == *old(sequence),
            Response::SemanticEvent(event) => if event.sequence == next_sequence(*old(sequence)) {
                routed == Routed::Event(event) && *final(sequence) == event.sequence
            } else {
                routed is Lost && routed->Lost_0@ == gap_text(
                    next_sequence(*old(sequence)),
                    event.sequence,
                ) && *final(sequence) == *old(sequence)
            },
            Response::ResnapshotRequired => routed is Lost && routed->Lost_0@
                == "Resident Core semantic event delivery overflowed; reconnect and resnapshot required"@
                && *final(sequence) == *old(sequence),
            _ => routed == Routed::Reply(response) && *final(sequence) == *old(sequence),
        },
{
    match response {
        Response::TerminalChanged(change) => Routed::Change(change),
        Response::SemanticEvent(event) => {
            let expected = sequence.saturating_add(1);
            if event.sequence != expected {
                let mut message = "Resident Core semantic event gap: expected ".to_owned();
                message.append(decimal(expected).as_str());
                message.append(", received ");
                message.append(decimal(event.sequence).as_str());
                message.append("; reconnect and resnapshot required");
                return Routed::Lost(message);
            }
            *sequence = event.sequence;
            Routed::Event(event)
        },
        Response::ResnapshotRequired => Routed::Lost(
            "Resident Core semantic event delivery overflowed; reconnect and resnapshot required".to_owned(),
        ),
        response => Routed::Reply(response),
    }
}

/// Events that are numbered one after the other reach a client that reads them
/// in that order; a client that missed one learns of it at the next.
pub proof fn law_events_arrive_in_order(sequence: u64, skipped: nat)
    requires
        sequence + skipped + 1 < u64::MAX,
    ensures
        sequence_after(sequence, (skipped + 1) as nat) == sequence + skipped + 1,
        sequence_after(sequence, (skipped + 1) as nat) == next_sequence(sequence) <==> skipped == 0,
    decreases skipped,
{
    reveal_with_fuel(sequence_after, 2);
    if skipped > 0 {
        law_events_arrive_in_order(sequence, (skipped - 1) as nat);
    }
}

/// The events of changed leases tell of each in turn, under numbers without a gap.
pub proof fn law_leases_are_told_in_turn(sequence: u64, leases: Seq<ControlLease>, index: int)
    requires
        sequence + leases.len() < u64::MAX,
        0 <= index < leases.len(),
    ensures
        lease_events(sequence, leases).len() == leases.len(),
        lease_events(sequence, leases)[index].sequence == sequence + index + 1,
        lease_events(sequence, leases)[index].kind == (
        SemanticEventKindView::ControlLeaseChanged { lease: leases[index] }),
    decreases leases.len(),
{
    law_events_arrive_in_order(sequence, (leases.len() - 1) as nat);
    lemma_lease_event_count(sequence, leases.drop_last());
    if index < leases.len() - 1 {
        law_leases_are_told_in_turn(sequence, leases.drop_last(), index);
    }
}

pub proof fn lemma_lease_event_count(sequence: u64, leases: Seq<ControlLease>)
    ensures
        lease_events(sequence, leases).len() == leases.len(),
    decreases leases.len(),
{
    if leases.len() > 0 {
        lemma_lease_event_count(sequence, leases.drop_last());
    }
}

/// Every change that waits is listed, no other is, and those with lesser numbers come
/// first.
pub proof fn law_waiting_changes_are_listed(
    changes: Seq<TerminalChange>,
    pending: Map<u64, TerminalChange>,
    session: TerminalSessionId,
    first: int,
    second: int,
)
    requires
        in_sequence(changes),
        one_each(changes),
        lists(changes, pending),
        pending.contains_key(session.0) ==> pending[session.0].terminal_session_id == session,
    ensures
        pending.contains_key(session.0) ==> changes.contains(pending[session.0]),
        0 <= first < changes.len() ==> pending.contains_key(changes[first].terminal_session_id.0)
            && pending[changes[first].terminal_session_id.0] == changes[first],
        0 <= first < second < changes.len() ==> changes[first].sequence <= changes[second].sequence
            && changes[first].terminal_session_id != changes[second].terminal_session_id,
{
    if 0 <= first < changes.len() {
        assert(changes.contains(changes[first]));
    }
}

} // verus!
