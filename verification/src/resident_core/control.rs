//! Which client may control which terminal session.

use super::protocol::{
    ControlLease, ControlLeaseDenial, Response, ResponseView, UiClientId,
};
use crate::core_model::{CoreSnapshot, SessionView, TerminalSessionId, TerminalSessionSnapshot};
use crate::sequences::views;
use crate::table::{ascending, Table};
use crate::text::{decimal, decimal_chars};
use vstd::prelude::*;
use vstd::string::*;

verus! {

/// The clients that are connected, and the lease of each terminal session.
pub struct ControlState {
    connected: Table<()>,
    leases: Table<ControlLease>,
}

#[verifier::ext_equal]
pub struct ControlView {
    pub connected: Set<u64>,
    pub leases: Map<u64, ControlLease>,
}

impl View for ControlState {
    type V = ControlView;

    closed spec fn view(&self) -> ControlView {
        ControlView { connected: self.connected@.dom(), leases: self.leases@ }
    }
}

/// The generation after `generation`.
pub open spec fn next_generation(generation: u64) -> u64 {
    if generation < u64::MAX {
        (generation + 1) as u64
    } else {
        generation
    }
}

/// The lease after `controller` took its place.
pub open spec fn handed(lease: ControlLease, controller: Option<UiClientId>) -> ControlLease {
    ControlLease { generation: next_generation(lease.generation), controller, ..lease }
}

/// The lease of a session that `client` has created.
pub open spec fn fresh_lease(session: u64, client: UiClientId) -> ControlLease {
    ControlLease {
        terminal_session_id: TerminalSessionId(session),
        generation: 1,
        controller: Some(client),
    }
}

/// The lease of a session that was there from the start.
pub open spec fn idle_lease(session: u64) -> ControlLease {
    ControlLease {
        terminal_session_id: TerminalSessionId(session),
        generation: 0,
        controller: None,
    }
}

/// The identities of sessions.
pub open spec fn session_set(sessions: Seq<SessionView>) -> Set<u64> {
    Set::new(|id: u64| exists|i: int| 0 <= i < sessions.len() && (#[trigger] sessions[i]).id.0 == id)
}

/// The objection to a request of `client` that needs control.
pub open spec fn control_denial(
    lease: ControlLease,
    client: UiClientId,
    generation: u64,
) -> Option<ControlLeaseDenial> {
    if lease.controller is None {
        Some(ControlLeaseDenial::NoController)
    } else if lease.controller != Some(client) {
        Some(ControlLeaseDenial::HeldByOther)
    } else if lease.generation != generation {
        Some(ControlLeaseDenial::StaleGeneration)
    } else {
        None
    }
}

/// Why a request that needs control is refused.
#[derive(Clone, Copy, Debug, PartialEq, Eq, Structural)]
pub enum ControlRefusal {
    NoSession,
    Denied { reason: ControlLeaseDenial, lease: ControlLease },
}

/// That a session does not exist, in words.
pub open spec fn missing_session(session: TerminalSessionId) -> Seq<char> {
    "Terminal Session "@ + decimal_chars(session.0 as nat) + " does not exist"@
}

pub fn missing_session_message(session: TerminalSessionId) -> (message: String)
    ensures
        message@ == missing_session(session),
{
    let mut message = "Terminal Session ".to_owned();
    message.append(decimal(session.0).as_str());
    message.append(" does not exist");
    message
}

impl ControlRefusal {
    pub open spec fn spec_response(self, session: TerminalSessionId) -> ResponseView {
        match self {
            ControlRefusal::NoSession => ResponseView::Error(missing_session(session)),
            ControlRefusal::Denied { reason, lease } => ResponseView::ControlLeaseDenied {
                reason,
                lease,
            },
        }
    }

    /// What the client is told.
    pub fn response(self, session: TerminalSessionId) -> (response: Response)
        ensures
            response@ == self.spec_response(session),
    {
        match self {
            ControlRefusal::NoSession => Response::Error(missing_session_message(session)),
            ControlRefusal::Denied { reason, lease } => Response::ControlLeaseDenied {
                reason,
                lease,
            },
        }
    }
}

impl ControlView {
    /// Whether every lease is filed under its session.
    pub open spec fn well_formed(self) -> bool {
        forall|session: u64| #[trigger]
            self.leases.contains_key(session) ==> self.leases[session].terminal_session_id.0
                == session
    }

    /// Whether every controller is connected.
    pub open spec fn controllers_connected(self) -> bool {
        forall|session: u64| #[trigger]
            self.leases.contains_key(session) ==> match self.leases[session].controller {
                Some(client) => self.connected.contains(client.0),
                None => true,
            }
    }

    /// After `client` connects: the first client controls every session that
    /// nobody controls.
    pub open spec fn attached(self, client: UiClientId) -> ControlView {
        ControlView {
            connected: self.connected.insert(client.0),
            leases: if self.connected =~= Set::empty() {
                self.leases.map_values(|lease: ControlLease| Revision::Take(client).of(lease))
            } else {
                self.leases
            },
        }
    }

    /// After `client` disconnects: nobody controls what it controlled.
    pub open spec fn detached(self, client: UiClientId) -> ControlView {
        ControlView {
            connected: self.connected.remove(client.0),
            leases: self.leases.map_values(
                |lease: ControlLease| Revision::Release(client).of(lease),
            ),
        }
    }

    /// Why `client` may not control a session, if so.
    pub open spec fn refusal(
        self,
        client: UiClientId,
        session: TerminalSessionId,
        generation: u64,
    ) -> Option<ControlRefusal> {
        if !self.leases.contains_key(session.0) {
            Some(ControlRefusal::NoSession)
        } else {
            let lease = self.leases[session.0];
            match control_denial(lease, client, generation) {
                Some(reason) => Some(ControlRefusal::Denied { reason, lease }),
                None => None,
            }
        }
    }

    /// Why `client` may not hand a session over to `target`, if so.
    pub open spec fn transfer_refusal(
        self,
        client: UiClientId,
        session: TerminalSessionId,
        generation: u64,
        target: UiClientId,
    ) -> Option<ControlRefusal> {
        match self.refusal(client, session, generation) {
            Some(refusal) => Some(refusal),
            None => if self.connected.contains(target.0) {
                None
            } else {
                Some(
                    ControlRefusal::Denied {
                        reason: ControlLeaseDenial::TargetUnavailable,
                        lease: self.leases[session.0],
                    },
                )
            },
        }
    }

    /// Why a session cannot be taken over, if so.
    pub open spec fn acquire_refusal(
        self,
        session: TerminalSessionId,
        generation: u64,
    ) -> Option<ControlRefusal> {
        if !self.leases.contains_key(session.0) {
            Some(ControlRefusal::NoSession)
        } else {
            let lease = self.leases[session.0];
            if lease.controller is Some {
                Some(ControlRefusal::Denied { reason: ControlLeaseDenial::HeldByOther, lease })
            } else if lease.generation != generation {
                Some(ControlRefusal::Denied { reason: ControlLeaseDenial::StaleGeneration, lease })
            } else {
                None
            }
        }
    }

    /// After a session changed hands.
    pub open spec fn handed_to(
        self,
        session: TerminalSessionId,
        controller: UiClientId,
    ) -> ControlView {
        ControlView {
            leases: self.leases.insert(
                session.0,
                handed(self.leases[session.0], Some(controller)),
            ),
            ..self
        }
    }

    /// With the leases of `sessions` alone.
    pub open spec fn retained(self, sessions: Set<u64>) -> ControlView {
        ControlView { leases: self.leases.restrict(sessions), ..self }
    }

    /// With a lease for each of `sessions`: those without one go to `client`.
    pub open spec fn reconciled(self, sessions: Set<u64>, client: UiClientId) -> ControlView {
        ControlView {
            leases: Map::new(
                |session: u64| sessions.contains(session),
                |session: u64|
                    if self.leases.contains_key(session) {
                        self.leases[session]
                    } else {
                        fresh_lease(session, client)
                    },
            ),
            ..self
        }
    }
}

/// Whether `lease` is the lease of its session.
pub open spec fn holds_lease(leases: Map<u64, ControlLease>, lease: ControlLease) -> bool {
    leases.contains_key(lease.terminal_session_id.0) && leases[lease.terminal_session_id.0] == lease
}

pub open spec fn in_session_order(leases: Seq<ControlLease>) -> bool {
    forall|i: int, j: int|
        0 <= i < j < leases.len() ==> (#[trigger] leases[i]).terminal_session_id.0 < (
        #[trigger] leases[j]).terminal_session_id.0
}

/// Whether `changes` lists the leases of `after` that `before` has not, in the
/// order of their sessions.
pub open spec fn lists_changes(
    changes: Seq<ControlLease>,
    before: Map<u64, ControlLease>,
    after: Map<u64, ControlLease>,
) -> bool {
    &&& in_session_order(changes)
    &&& forall|lease: ControlLease| #[trigger]
        changes.contains(lease) <==> holds_lease(after, lease) && !holds_lease(before, lease)
}

/// A way in which a client coming or going revises a lease.
#[derive(Clone, Copy)]
pub enum Revision {
    Take(UiClientId),
    Release(UiClientId),
}

impl Revision {
    pub open spec fn of(self, lease: ControlLease) -> ControlLease {
        match self {
            Revision::Take(client) => if lease.controller is None {
                handed(lease, Some(client))
            } else {
                lease
            },
            Revision::Release(client) => if lease.controller == Some(client) {
                handed(lease, None)
            } else {
                lease
            },
        }
    }

    fn revise(self, lease: ControlLease) -> (result: Option<ControlLease>)
        ensures
            match result {
                Some(revised) => revised == self.of(lease) && revised.controller
                    != lease.controller,
                None => self.of(lease) == lease,
            },
    {
        let (revised, controller) = match self {
            Revision::Take(client) => (lease.controller.is_none(), Some(client)),
            Revision::Release(client) => (is_controller(&lease, client), None),
        };
        if revised {
            Some(ControlLease {
                terminal_session_id: lease.terminal_session_id,
                generation: lease.generation.saturating_add(1),
                controller,
            })
        } else {
            None
        }
    }
}

fn is_controller(lease: &ControlLease, client: UiClientId) -> (result: bool)
    ensures
        result == (lease.controller == Some(client)),
{
    match lease.controller {
        Some(controller) => controller == client,
        None => false,
    }
}

/// The identities of `sessions`.
pub fn session_keys(sessions: &Vec<TerminalSessionSnapshot>) -> (keys: Vec<u64>)
    ensures
        keys@.len() == sessions@.len(),
        forall|i: int| 0 <= i < keys@.len() ==> #[trigger] keys@[i] == sessions@[i].id.0,
        keys@.to_set() == session_set(views(sessions@)),
{
    let mut keys: Vec<u64> = Vec::new();
    let mut index: usize = 0;
    while index < sessions.len()
        invariant
            index <= sessions@.len(),
            keys@.len() == index,
            forall|i: int| 0 <= i < index ==> #[trigger] keys@[i] == sessions@[i].id.0,
        decreases sessions@.len() - index,
    {
        keys.push(sessions[index].id.0);
        index += 1;
    }
    proof {
        let all = views(sessions@);
        assert forall|id: u64| keys@.to_set().contains(id) <==> session_set(all).contains(id) by {
            if keys@.contains(id) {
                let i = keys@.index_of(id);
                assert(all[i].id.0 == id);
            }
            if session_set(all).contains(id) {
                let i = choose|i: int| 0 <= i < all.len() && (#[trigger] all[i]).id.0 == id;
                assert(keys@[i] == id);
            }
        }
        assert(keys@.to_set() =~= session_set(all));
    }
    keys
}

impl ControlState {
    /// The state of a Resident Core that starts with `sessions`.
    pub fn new(snapshot: &CoreSnapshot) -> (state: Self)
        ensures
            state@.connected == Set::<u64>::empty(),
            state@.leases == Map::new(
                |session: u64| session_set(snapshot@.sessions).contains(session),
                |session: u64| idle_lease(session),
            ),
            state@.well_formed(),
    {
        let keys = session_keys(&snapshot.terminal_sessions);
        let mut leases: Table<ControlLease> = Table::new();
        let mut index: usize = 0;
        proof {
            assert(leases@ =~= idle_leases(keys@.take(0)));
        }
        while index < keys.len()
            invariant
                index <= keys@.len(),
                leases@ == idle_leases(keys@.take(index as int)),
            decreases keys@.len() - index,
        {
            leases.insert(
                keys[index],
                ControlLease {
                    terminal_session_id: TerminalSessionId(keys[index]),
                    generation: 0,
                    controller: None,
                },
            );
            index += 1;
            proof {
                let longer = keys@.take(index as int);
                assert(longer =~= keys@.take(index - 1).push(keys@[index - 1]));
                lemma_contains_push(keys@.take(index - 1), keys@[index - 1]);
                assert(leases@ =~= idle_leases(longer));
            }
        }
        let state = ControlState { connected: Table::new(), leases };
        proof {
            assert(keys@.take(index as int) =~= keys@);
            assert(state@.connected =~= Set::empty());
            assert(state@.leases =~= Map::new(
                |session: u64| session_set(snapshot@.sessions).contains(session),
                |session: u64| idle_lease(session),
            )) by {
                assert forall|session: u64| keys@.contains(session) <==> session_set(
                    snapshot@.sessions,
                ).contains(session) by {
                    assert(keys@.contains(session) == keys@.to_set().contains(session));
                }
            }
        }
        state
    }

    /// What `revision` changes, in the order of the sessions.
    fn revisions(&self, revision: Revision) -> (changes: Vec<ControlLease>)
        requires
            self@.well_formed(),
        ensures
            in_session_order(changes@),
            forall|lease: ControlLease| #[trigger]
                changes@.contains(lease) <==> self@.leases.contains_key(lease.terminal_session_id.0)
                    && lease == revision.of(self@.leases[lease.terminal_session_id.0]) && lease
                    != self@.leases[lease.terminal_session_id.0],
    {
        let mut changes: Vec<ControlLease> = Vec::new();
        let count = self.leases.len();
        let mut index: usize = 0;
        let ghost keys = self.leases.keys();
        while index < count
            invariant
                index <= count,
                count == keys.len(),
                keys == self.leases.keys(),
                ascending(keys),
                self@.well_formed(),
                forall|key: u64| #[trigger]
                    self.leases@.contains_key(key) <==> keys.contains(key),
                in_session_order(changes@),
                forall|i: int|
                    #![trigger changes@[i]]
                    0 <= i < changes@.len() ==> {
                        let lease = changes@[i];
                        let session = lease.terminal_session_id.0;
                        &&& exists|j: int| 0 <= j < index && keys[j] == session
                        &&& self.leases@.contains_key(session)
                        &&& lease == revision.of(self.leases@[session])
                        &&& lease != self.leases@[session]
                    },
                forall|j: int|
                    0 <= j < index && revision.of(self.leases@[#[trigger] keys[j]])
                        != self.leases@[keys[j]] ==> changes@.contains(
                        revision.of(self.leases@[keys[j]]),
                    ),
            decreases count - index,
        {
            let lease = *self.leases.value_at(index);
            let ghost before = changes@;
            proof {
                assert(self@.leases.contains_key(keys[index as int]));
                assert(lease.terminal_session_id.0 == keys[index as int]);
            }
            if let Some(revised) = revision.revise(lease) {
                changes.push(revised);
                proof {
                    assert(revised.terminal_session_id == lease.terminal_session_id);
                    assert(changes@[before.len() as int] == revised);
                    assert forall|i: int, j: int| 0 <= i < j < changes@.len() implies (
                    #[trigger] changes@[i]).terminal_session_id.0 < (
                    #[trigger] changes@[j]).terminal_session_id.0 by {
                        assert(changes@[i] == before[i]);
                        if j < before.len() {
                            assert(changes@[j] == before[j]);
                        }
                    }
                    assert forall|j: int|
                        0 <= j < index + 1 && revision.of(self.leases@[#[trigger] keys[j]])
                            != self.leases@[keys[j]] implies changes@.contains(
                        revision.of(self.leases@[keys[j]]),
                    ) by {
                        if j < index {
                            let k = before.index_of(revision.of(self.leases@[keys[j]]));
                            assert(changes@[k] == before[k]);
                        }
                    }
                    assert forall|i: int| 0 <= i < changes@.len() implies ({
                        let lease = #[trigger] changes@[i];
                        let session = lease.terminal_session_id.0;
                        &&& exists|j: int| 0 <= j < index + 1 && keys[j] == session
                        &&& self.leases@.contains_key(session)
                        &&& lease == revision.of(self.leases@[session])
                        &&& lease != self.leases@[session]
                    }) by {
                        if i < before.len() {
                            assert(changes@[i] == before[i]);
                        } else {
                            assert(keys[index as int] == revised.terminal_session_id.0);
                        }
                    }
                }
            }
            index += 1;
        }
        proof {
            assert forall|lease: ControlLease| self.leases@.contains_key(
                lease.terminal_session_id.0,
            ) && lease == revision.of(self.leases@[lease.terminal_session_id.0]) && lease
                != self.leases@[lease.terminal_session_id.0] implies #[trigger] changes@.contains(
                lease,
            ) by {
                let j = keys.index_of(lease.terminal_session_id.0);
                assert(revision.of(self.leases@[keys[j]]) == lease);
            }
        }
        changes
    }

    /// Files `changes` in place of the leases of their sessions.
    fn file(&mut self, changes: &Vec<ControlLease>)
        requires
            in_session_order(changes@),
            forall|i: int|
                0 <= i < changes@.len() ==> old(self)@.leases.contains_key(
                    (#[trigger] changes@[i]).terminal_session_id.0,
                ),
        ensures
            final(self)@.connected == old(self)@.connected,
            final(self)@.leases.dom() == old(self)@.leases.dom(),
            forall|i: int|
                0 <= i < changes@.len() ==> final(self)@.leases[(
                #[trigger] changes@[i]).terminal_session_id.0] == changes@[i],
            forall|session: u64|
                (forall|i: int|
                    0 <= i < changes@.len() ==> (#[trigger] changes@[i]).terminal_session_id.0
                        != session) ==> #[trigger] final(self)@.leases[session]
                    == old(self)@.leases[session],
    {
        let mut index: usize = 0;
        while index < changes.len()
            invariant
                index <= changes@.len(),
                in_session_order(changes@),
                forall|i: int|
                    0 <= i < changes@.len() ==> old(self)@.leases.contains_key(
                        (#[trigger] changes@[i]).terminal_session_id.0,
                    ),
                self@.connected == old(self)@.connected,
                self@.leases.dom() == old(self)@.leases.dom(),
                forall|i: int|
                    0 <= i < index ==> self@.leases[(
                    #[trigger] changes@[i]).terminal_session_id.0] == changes@[i],
                forall|session: u64|
                    (forall|i: int|
                        0 <= i < index ==> (#[trigger] changes@[i]).terminal_session_id.0
                            != session) ==> #[trigger] self@.leases[session]
                        == old(self)@.leases[session],
            decreases changes@.len() - index,
        {
            let lease = changes[index];
            let ghost before = self@;
            self.leases.insert(lease.terminal_session_id.0, lease);
            proof {
                assert(self@.leases.dom() =~= before.leases.dom());
                assert forall|session: u64|
                    (forall|i: int|
                        0 <= i < index + 1 ==> (#[trigger] changes@[i]).terminal_session_id.0
                            != session) implies #[trigger] self@.leases[session]
                    == old(self)@.leases[session] by {
                    assert(changes@[index as int].terminal_session_id.0 != session);
                }
            }
            index += 1;
        }
    }

    /// Revises every lease, and says which have changed.
    fn revise_all(&mut self, revision: Revision) -> (changes: Vec<ControlLease>)
        requires
            old(self)@.well_formed(),
        ensures
            final(self)@.connected == old(self)@.connected,
            final(self)@.leases == old(self)@.leases.map_values(
                |lease: ControlLease| revision.of(lease),
            ),
            lists_changes(changes@, old(self)@.leases, final(self)@.leases),
            final(self)@.well_formed(),
    {
        let changes = self.revisions(revision);
        let ghost before = self@.leases;
        proof {
            assert forall|i: int| 0 <= i < changes@.len() implies before.contains_key(
                (#[trigger] changes@[i]).terminal_session_id.0,
            ) by {
                assert(changes@.contains(changes@[i]));
            }
        }
        self.file(&changes);
        proof {
            let after = self@.leases;
            assert forall|session: u64| before.contains_key(session) implies #[trigger] after[session]
                == revision.of(before[session]) by {
                let revised = revision.of(before[session]);
                assert(revised.terminal_session_id.0 == session);
                if revised != before[session] {
                    assert(changes@.contains(revised));
                    let i = changes@.index_of(revised);
                    assert(changes@[i].terminal_session_id.0 == session);
                } else {
                    assert forall|i: int| 0 <= i < changes@.len() implies (
                    #[trigger] changes@[i]).terminal_session_id.0 != session by {
                        assert(changes@.contains(changes@[i]));
                    }
                }
            }
            assert(after =~= before.map_values(|lease: ControlLease| revision.of(lease)));
            assert forall|lease: ControlLease| #[trigger]
                changes@.contains(lease) <==> holds_lease(after, lease) && !holds_lease(
                    before,
                    lease,
                ) by {
                let session = lease.terminal_session_id.0;
                if after.contains_key(session) {
                    assert(after[session] == revision.of(before[session]));
                }
            }
        }
        changes
    }

    /// Connects `client`, and says which leases have changed.
    pub fn attach(&mut self, client: UiClientId) -> (changes: Vec<ControlLease>)
        requires
            old(self)@.well_formed(),
        ensures
            final(self)@ == old(self)@.attached(client),
            lists_changes(changes@, old(self)@.leases, final(self)@.leases),
            final(self)@.well_formed(),
    {
        let first = self.connected.len() == 0;
        let ghost before = self@;
        proof {
            if first {
                assert(before.connected =~= Set::empty());
            } else {
                let key = self.connected.keys()[0];
                assert(self.connected@.contains_key(key));
                assert(before.connected.contains(key));
            }
        }
        self.connected.insert(client.0, ());
        proof {
            assert(self@.connected =~= before.connected.insert(client.0));
        }
        if first {
            self.revise_all(Revision::Take(client))
        } else {
            let changes: Vec<ControlLease> = Vec::new();
            proof {
                assert(lists_changes(changes@, before.leases, self@.leases));
            }
            changes
        }
    }

    /// Disconnects `client`, and says which leases have changed.
    pub fn detach(&mut self, client: UiClientId) -> (changes: Vec<ControlLease>)
        requires
            old(self)@.well_formed(),
        ensures
            final(self)@ == old(self)@.detached(client),
            lists_changes(changes@, old(self)@.leases, final(self)@.leases),
            final(self)@.well_formed(),
    {
        let ghost before = self@;
        let _ = self.connected.remove(client.0);
        proof {
            assert(self@.connected =~= before.connected.remove(client.0));
        }
        self.revise_all(Revision::Release(client))
    }

    /// The lease of a session.
    pub fn control_lease(&self, session: TerminalSessionId) -> (lease: Option<ControlLease>)
        ensures
            lease == (if self@.leases.contains_key(session.0) {
                Some(self@.leases[session.0])
            } else {
                None
            }),
    {
        match self.leases.get(session.0) {
            Some(lease) => Some(*lease),
            None => None,
        }
    }

    /// Whether `client` may send input to a session or change its size.
    pub fn authorize(
        &self,
        client: UiClientId,
        session: TerminalSessionId,
        generation: u64,
    ) -> (result: Result<(), ControlRefusal>)
        ensures
            match self@.refusal(client, session, generation) {
                None => result is Ok,
                Some(refusal) => result is Err && result->Err_0 == refusal,
            },
    {
        match self.leases.get(session.0) {
            None => Err(ControlRefusal::NoSession),
            Some(lease) => {
                let lease = *lease;
                if lease.controller.is_none() {
                    Err(ControlRefusal::Denied { reason: ControlLeaseDenial::NoController, lease })
                } else if !is_controller(&lease, client) {
                    Err(ControlRefusal::Denied { reason: ControlLeaseDenial::HeldByOther, lease })
                } else if lease.generation != generation {
                    Err(
                        ControlRefusal::Denied {
                            reason: ControlLeaseDenial::StaleGeneration,
                            lease,
                        },
                    )
                } else {
                    Ok(())
                }
            },
        }
    }

    /// Hands the session's lease to `controller`.
    fn hand(&mut self, session: TerminalSessionId, controller: UiClientId) -> (lease: ControlLease)
        requires
            old(self)@.leases.contains_key(session.0),
        ensures
            final(self)@ == old(self)@.handed_to(session, controller),
            lease == final(self)@.leases[session.0],
            old(self)@.well_formed() ==> final(self)@.well_formed(),
    {
        let lease = match self.leases.get(session.0) {
            Some(lease) => ControlLease {
                terminal_session_id: lease.terminal_session_id,
                generation: lease.generation.saturating_add(1),
                controller: Some(controller),
            },
            None => ControlLease {
                terminal_session_id: session,
                generation: 0,
                controller: Some(controller),
            },
        };
        self.leases.insert(session.0, lease);
        lease
    }

    /// Hands a session over from `client` to `target`.
    pub fn transfer_control(
        &mut self,
        client: UiClientId,
        session: TerminalSessionId,
        generation: u64,
        target: UiClientId,
    ) -> (result: Result<ControlLease, ControlRefusal>)
        ensures
            match old(self)@.transfer_refusal(client, session, generation, target) {
                Some(refusal) => result is Err && result->Err_0 == refusal && final(self)@ == old(
                    self,
                )@,
                None => final(self)@ == old(self)@.handed_to(session, target) && result is Ok
                    && result->Ok_0 == final(self)@.leases[session.0],
            },
            old(self)@.well_formed() ==> final(self)@.well_formed(),
    {
        match self.authorize(client, session, generation) {
            Err(refusal) => Err(refusal),
            Ok(()) => {
                if !self.connected.contains(target.0) {
                    return match self.control_lease(session) {
                        Some(lease) => Err(
                            ControlRefusal::Denied {
                                reason: ControlLeaseDenial::TargetUnavailable,
                                lease,
                            },
                        ),
                        None => Err(ControlRefusal::NoSession),
                    };
                }
                Ok(self.hand(session, target))
            },
        }
    }

    /// Gives a session that nobody controls to `client`.
    pub fn acquire_control(
        &mut self,
        client: UiClientId,
        session: TerminalSessionId,
        generation: u64,
    ) -> (result: Result<ControlLease, ControlRefusal>)
        ensures
            match old(self)@.acquire_refusal(session, generation) {
                Some(refusal) => result is Err && result->Err_0 == refusal && final(self)@ == old(
                    self,
                )@,
                None => final(self)@ == old(self)@.handed_to(session, client) && result is Ok
                    && result->Ok_0 == final(self)@.leases[session.0],
            },
            old(self)@.well_formed() ==> final(self)@.well_formed(),
    {
        match self.control_lease(session) {
            None => Err(ControlRefusal::NoSession),
            Some(lease) => {
                if lease.controller.is_some() {
                    Err(ControlRefusal::Denied { reason: ControlLeaseDenial::HeldByOther, lease })
                } else if lease.generation != generation {
                    Err(
                        ControlRefusal::Denied {
                            reason: ControlLeaseDenial::StaleGeneration,
                            lease,
                        },
                    )
                } else {
                    Ok(self.hand(session, client))
                }
            },
        }
    }

    /// The leases of all sessions.
    pub fn leases(&self) -> (leases: Vec<ControlLease>)
        requires
            self@.well_formed(),
        ensures
            lists_changes(leases@, Map::empty(), self@.leases),
    {
        let mut leases: Vec<ControlLease> = Vec::new();
        let count = self.leases.len();
        let mut index: usize = 0;
        let ghost keys = self.leases.keys();
        while index < count
            invariant
                index <= count,
                count == keys.len(),
                keys == self.leases.keys(),
                ascending(keys),
                self@.well_formed(),
                forall|key: u64| #[trigger]
                    self.leases@.contains_key(key) <==> keys.contains(key),
                leases@.len() == index,
                forall|i: int|
                    0 <= i < index ==> #[trigger] leases@[i] == self.leases@[keys[i]]
                        && self.leases@.contains_key(keys[i])
                        && leases@[i].terminal_session_id.0 == keys[i],
            decreases count - index,
        {
            let lease = *self.leases.value_at(index);
            proof {
                assert(self@.leases.contains_key(keys[index as int]));
            }
            leases.push(lease);
            index += 1;
        }
        proof {
            assert forall|i: int, j: int| 0 <= i < j < leases@.len() implies (
            #[trigger] leases@[i]).terminal_session_id.0 < (
            #[trigger] leases@[j]).terminal_session_id.0 by {
                assert(keys[i] < keys[j]);
            }
            assert forall|lease: ControlLease| #[trigger]
                leases@.contains(lease) <==> holds_lease(self@.leases, lease) by {
                if leases@.contains(lease) {
                    let i = leases@.index_of(lease);
                    assert(leases@[i] == lease);
                }
                if holds_lease(self@.leases, lease) {
                    let i = keys.index_of(lease.terminal_session_id.0);
                    assert(leases@[i] == lease);
                }
            }
        }
        leases
    }

    /// Forgets the leases of sessions that are gone.
    pub fn retain_sessions(&mut self, snapshot: &CoreSnapshot)
        ensures
            final(self)@ == old(self)@.retained(session_set(snapshot@.sessions)),
            old(self)@.well_formed() ==> final(self)@.well_formed(),
    {
        let keys = session_keys(&snapshot.terminal_sessions);
        self.leases.retain(&keys);
    }

    /// Gives every session a lease after a command of `client`, and says which
    /// are new.
    pub fn reconcile(&mut self, snapshot: &CoreSnapshot, client: UiClientId) -> (created: Vec<
        ControlLease,
    >)
        requires
            old(self)@.well_formed(),
        ensures
            final(self)@ == old(self)@.reconciled(session_set(snapshot@.sessions), client),
            lists_changes(created@, old(self)@.leases, final(self)@.leases),
            final(self)@.well_formed(),
    {
        let ghost before = self@;
        let keys = session_keys(&snapshot.terminal_sessions);
        let ghost sessions = session_set(snapshot@.sessions);
        self.leases.retain(&keys);
        let mut created: Table<ControlLease> = Table::new();
        let mut index: usize = 0;
        proof {
            assert(self@.leases =~= reconciled_part(before, sessions, keys@.take(0), client));
            assert(created@ =~= created_part(before, keys@.take(0), client));
        }
        while index < keys.len()
            invariant
                index <= keys@.len(),
                sessions == keys@.to_set(),
                self@.connected == before.connected,
                self@.leases == reconciled_part(
                    before,
                    sessions,
                    keys@.take(index as int),
                    client,
                ),
                created@ == created_part(before, keys@.take(index as int), client),
            decreases keys@.len() - index,
        {
            let key = keys[index];
            proof {
                lemma_contains_push(keys@.take(index as int), key);
                assert(keys@.take(index + 1) =~= keys@.take(index as int).push(key));
                assert(keys@.contains(key));
                assert(sessions.contains(key));
            }
            if !self.leases.contains(key) {
                let lease = ControlLease {
                    terminal_session_id: TerminalSessionId(key),
                    generation: 1,
                    controller: Some(client),
                };
                self.leases.insert(key, lease);
                created.insert(key, lease);
            }
            index += 1;
            proof {
                let done = keys@.take(index as int);
                assert(self@.leases =~= reconciled_part(before, sessions, done, client));
                assert(created@ =~= created_part(before, done, client));
            }
        }
        proof {
            assert(keys@.take(index as int) =~= keys@);
            assert(self@.leases =~= before.reconciled(sessions, client).leases);
        }
        let none: Table<()> = Table::new();
        let listing = ControlState { connected: none, leases: created };
        let changes = listing.leases();
        proof {
            let after = self@.leases;
            assert forall|lease: ControlLease| #[trigger]
                changes@.contains(lease) <==> holds_lease(after, lease) && !holds_lease(
                    before.leases,
                    lease,
                ) by {
                let session = lease.terminal_session_id.0;
                assert(keys@.contains(session) == sessions.contains(session));
            }
        }
        changes
    }
}

spec fn idle_leases(keys: Seq<u64>) -> Map<u64, ControlLease> {
    Map::new(|session: u64| keys.contains(session), |session: u64| idle_lease(session))
}

/// The leases when those of `done` have been created.
spec fn reconciled_part(
    before: ControlView,
    sessions: Set<u64>,
    done: Seq<u64>,
    client: UiClientId,
) -> Map<u64, ControlLease> {
    Map::new(
        |session: u64|
            sessions.contains(session) && (before.leases.contains_key(session) || done.contains(
                session,
            )),
        |session: u64|
            if before.leases.contains_key(session) {
                before.leases[session]
            } else {
                fresh_lease(session, client)
            },
    )
}

/// The leases among `done` that were created.
spec fn created_part(before: ControlView, done: Seq<u64>, client: UiClientId) -> Map<
    u64,
    ControlLease,
> {
    Map::new(
        |session: u64| done.contains(session) && !before.leases.contains_key(session),
        |session: u64| fresh_lease(session, client),
    )
}

proof fn lemma_contains_push(keys: Seq<u64>, key: u64)
    ensures
        forall|other: u64| #[trigger]
            keys.push(key).contains(other) <==> keys.contains(other) || other == key,
{
    let longer = keys.push(key);
    assert(longer[keys.len() as int] == key);
    assert forall|other: u64| keys.contains(other) implies #[trigger] longer.contains(other) by {
        let i = keys.index_of(other);
        assert(longer[i] == other);
    }
}

/// Controllers stay among those who are connected, whatever is asked by a
/// client that is connected.
pub proof fn law_controllers_are_connected(
    state: ControlView,
    client: UiClientId,
    target: UiClientId,
    session: TerminalSessionId,
    sessions: Set<u64>,
)
    requires
        state.controllers_connected(),
    ensures
        state.attached(client).controllers_connected(),
        state.detached(client).controllers_connected(),
        state.retained(sessions).controllers_connected(),
        state.connected.contains(client.0) ==> state.reconciled(
            sessions,
            client,
        ).controllers_connected(),
        state.connected.contains(target.0) ==> state.handed_to(
            session,
            target,
        ).controllers_connected(),
{
    let attached = state.attached(client);
    assert forall|id: u64| #[trigger] attached.leases.contains_key(id) implies match
        attached.leases[id].controller {
        Some(controller) => attached.connected.contains(controller.0),
        None => true,
    } by {
        assert(state.leases.contains_key(id));
    }
    let detached = state.detached(client);
    assert forall|id: u64| #[trigger] detached.leases.contains_key(id) implies match
        detached.leases[id].controller {
        Some(controller) => detached.connected.contains(controller.0),
        None => true,
    } by {
        assert(state.leases.contains_key(id));
    }
    let retained = state.retained(sessions);
    assert forall|id: u64| #[trigger] retained.leases.contains_key(id) implies match
        retained.leases[id].controller {
        Some(controller) => retained.connected.contains(controller.0),
        None => true,
    } by {
        assert(state.leases.contains_key(id));
    }
    if state.connected.contains(client.0) {
        let reconciled = state.reconciled(sessions, client);
        assert forall|id: u64| #[trigger] reconciled.leases.contains_key(id) implies match
            reconciled.leases[id].controller {
            Some(controller) => reconciled.connected.contains(controller.0),
            None => true,
        } by {
            if state.leases.contains_key(id) {
                assert(reconciled.leases[id] == state.leases[id]);
            }
        }
    }
    if state.connected.contains(target.0) {
        let handed = state.handed_to(session, target);
        assert forall|id: u64| #[trigger] handed.leases.contains_key(id) implies match
            handed.leases[id].controller {
            Some(controller) => handed.connected.contains(controller.0),
            None => true,
        } by {
            if id != session.0 {
                assert(state.leases.contains_key(id));
            }
        }
    }
}

/// A lease that changes hands gets a new generation, so that what the former
/// controller still sends is refused; all other leases stay as they are.
pub proof fn law_former_controllers_are_refused(
    state: ControlView,
    session: TerminalSessionId,
    former: UiClientId,
    target: UiClientId,
    generation: u64,
)
    requires
        state.leases.contains_key(session.0),
        state.leases[session.0].generation < u64::MAX,
        generation <= state.leases[session.0].generation,
    ensures
        state.handed_to(session, target).leases[session.0].generation
            > state.leases[session.0].generation,
        state.handed_to(session, target).refusal(former, session, generation) is Some,
        forall|other: u64|
            other != session.0 ==> (state.handed_to(session, target).leases.contains_key(other)
                <==> state.leases.contains_key(other)) && state.handed_to(
                session,
                target,
            ).leases[other] == state.leases[other],
{
}

/// The first client to come controls what nobody controls, and takes nothing from
/// anyone; who comes later finds the leases as they are.
pub proof fn law_the_first_client_takes_what_is_free(
    state: ControlView,
    client: UiClientId,
    session: u64,
    other: UiClientId,
)
    requires
        state.leases.contains_key(session),
    ensures
        ({
            let after = state.attached(client);
            let before = state.leases[session];
            let lease = after.leases[session];
            &&& after.leases.contains_key(session)
            &&& after.connected.contains(client.0)
            &&& other != client ==> after.connected.contains(other.0) == state.connected.contains(
                other.0,
            )
            &&& lease.terminal_session_id == before.terminal_session_id
            &&& if before.controller is None && forall|id: u64|
                !#[trigger] state.connected.contains(id) {
                &&& lease.controller == Some(client)
                &&& before.generation < u64::MAX ==> lease.generation == before.generation + 1
            } else {
                lease == before
            }
        }),
{
    if forall|id: u64| !#[trigger] state.connected.contains(id) {
        assert(state.connected =~= Set::empty());
    }
}

/// A client that leaves controls nothing any more; what others control stays
/// theirs.
pub proof fn law_leaving_clients_give_up_control(
    state: ControlView,
    client: UiClientId,
    session: u64,
    other: UiClientId,
)
    requires
        state.leases.contains_key(session),
    ensures
        ({
            let after = state.detached(client);
            let before = state.leases[session];
            let lease = after.leases[session];
            &&& after.leases.contains_key(session)
            &&& !after.connected.contains(client.0)
            &&& other != client ==> after.connected.contains(other.0) == state.connected.contains(
                other.0,
            )
            &&& lease.controller != Some(client)
            &&& lease.terminal_session_id == before.terminal_session_id
            &&& if before.controller == Some(client) {
                &&& lease.controller is None
                &&& before.generation < u64::MAX ==> lease.generation == before.generation + 1
            } else {
                lease == before
            }
        }),
{
}

/// A client may act on a session exactly where it controls it and knows the
/// generation of its lease. Else it learns why not: that there is no such
/// session, that nobody controls it, that another does, or that its own lease has
/// been renewed.
pub proof fn law_only_the_controller_may_act(
    state: ControlView,
    client: UiClientId,
    session: TerminalSessionId,
    generation: u64,
)
    ensures
        ({
            let lease = state.leases[session.0];
            let refused = |reason: ControlLeaseDenial|
                state.refusal(client, session, generation) == Some(
                    ControlRefusal::Denied { reason, lease },
                );
            let known = state.leases.contains_key(session.0);
            &&& state.refusal(client, session, generation) is None <==> known && lease.controller
                == Some(client) && lease.generation == generation
            &&& state.refusal(client, session, generation) == Some(ControlRefusal::NoSession)
                <==> !known
            &&& known && lease.controller is None ==> refused(ControlLeaseDenial::NoController)
            &&& known && lease.controller is Some && lease.controller->0 != client ==> refused(
                ControlLeaseDenial::HeldByOther,
            )
            &&& known && lease.controller == Some(client) && lease.generation != generation
                ==> refused(ControlLeaseDenial::StaleGeneration)
        }),
{
}

/// Whoever may act on a session may hand it to a client that is connected, and to
/// no other; it then belongs to that client, under a generation of its own.
pub proof fn law_controllers_hand_over_to_connected_clients(
    state: ControlView,
    client: UiClientId,
    session: TerminalSessionId,
    generation: u64,
    target: UiClientId,
)
    ensures
        ({
            let lease = state.leases[session.0];
            let refusal = state.transfer_refusal(client, session, generation, target);
            let may_act = state.leases.contains_key(session.0) && lease.controller == Some(client)
                && lease.generation == generation;
            let after = state.handed_to(session, target);
            &&& refusal is None <==> may_act && state.connected.contains(target.0)
            &&& may_act && !state.connected.contains(target.0) ==> refusal == Some(
                ControlRefusal::Denied { reason: ControlLeaseDenial::TargetUnavailable, lease },
            )
            &&& !may_act ==> refusal == state.refusal(client, session, generation)
            &&& refusal is None && generation < u64::MAX ==> after.refusal(
                target,
                session,
                (generation + 1) as u64,
            ) is None
            &&& after.connected == state.connected
        }),
{
}

/// A session can be taken over exactly where nobody controls it, by whoever knows
/// the generation of its lease; it may then be acted on under the next.
pub proof fn law_free_sessions_can_be_taken(
    state: ControlView,
    client: UiClientId,
    session: TerminalSessionId,
    generation: u64,
)
    ensures
        ({
            let lease = state.leases[session.0];
            let refusal = state.acquire_refusal(session, generation);
            let known = state.leases.contains_key(session.0);
            &&& refusal is None <==> known && lease.controller is None && lease.generation
                == generation
            &&& refusal == Some(ControlRefusal::NoSession) <==> !known
            &&& known && lease.controller is Some ==> refusal == Some(
                ControlRefusal::Denied { reason: ControlLeaseDenial::HeldByOther, lease },
            )
            &&& known && lease.controller is None && lease.generation != generation ==> refusal
                == Some(
                ControlRefusal::Denied { reason: ControlLeaseDenial::StaleGeneration, lease },
            )
            &&& refusal is None && generation < u64::MAX ==> state.handed_to(
                session,
                client,
            ).refusal(client, session, (generation + 1) as u64) is None
        }),
{
}

/// After a command of a client it controls the sessions that the command created;
/// the others keep their leases, and those that are gone have none.
pub proof fn law_creators_control_what_they_create(
    state: ControlView,
    sessions: Seq<SessionView>,
    client: UiClientId,
    session: TerminalSessionId,
)
    ensures
        ({
            let after = state.reconciled(session_set(sessions), client);
            let retained = state.retained(session_set(sessions));
            let there = exists|i: int| 0 <= i < sessions.len() && (#[trigger] sessions[i]).id == session;
            &&& after.connected == state.connected
            &&& after.leases.contains_key(session.0) <==> there
            &&& there && state.leases.contains_key(session.0) ==> after.leases[session.0]
                == state.leases[session.0]
            &&& there && !state.leases.contains_key(session.0) ==> {
                &&& after.refusal(client, session, 1) is None
                &&& after.leases[session.0].terminal_session_id == session
            }
            &&& retained.connected == state.connected
            &&& retained.leases.contains_key(session.0) <==> there && state.leases.contains_key(
                session.0,
            )
            &&& retained.leases.contains_key(session.0) ==> retained.leases[session.0]
                == state.leases[session.0]
        }),
{
    if exists|i: int| 0 <= i < sessions.len() && (#[trigger] sessions[i]).id.0 == session.0 {
        let i = choose|i: int| 0 <= i < sessions.len() && (#[trigger] sessions[i]).id.0 == session.0;
        assert(sessions[i].id == session);
    }
}

} // verus!
