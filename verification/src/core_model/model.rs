//! The state machine that commands drive, one revision at a time.

use super::hierarchy::{
    find_space, going_on, remove_tab_and_empty_space, retain_sessions, set_layout, space_named,
    with_layout, with_tab, without_pane, without_tab, TabQuery,
};
use super::layout::{
    collect_terminal_session_ids, remove_pane, replace_pane_with_split, resize_split, RemovePane,
};
use super::{
    CommandView, CommitView, CoreCommand, CoreCommit, CoreEffect, CoreModelError, CoreSnapshot,
    CreatedResource, DirectoryPath, EffectView, HierarchyView, PaneId, PaneLayout, PaneSnapshot,
    ResourceKind, SessionView, SpaceId, SpaceSnapshot, SpaceView, SplitAxis, SplitId,
    SplitPlacement, SplitRatio, TabId, TabSnapshot, TabView, TerminalLaunch, TerminalSessionId,
    TerminalSessionSnapshot,
};
use crate::sequences::{
    first_index, lemma_views_insert, lemma_views_push, lemma_views_remove, lemma_views_update,
    views,
};
use crate::text::{blank, is_blank};
use vstd::prelude::*;
use vstd::string::*;

verus! {

/// The hierarchy, and the identity that the next resource will get.
#[verifier::ext_equal]
pub struct ModelView {
    pub snapshot: HierarchyView,
    pub next_id: u64,
}

/// What a command that is accepted does.
#[verifier::ext_equal]
pub struct Change {
    pub spaces: Seq<SpaceView>,
    pub sessions: Seq<SessionView>,
    pub ids_taken: nat,
    pub effects: Seq<EffectView>,
    pub created: CreatedResource,
}

/// Names have 1 to 120 characters, not all of them white space.
pub open spec fn valid_name(name: Seq<char>) -> bool {
    !is_blank(name) && name.len() <= 120
}

/// A Tab of one Pane.
pub open spec fn single_pane_tab(
    tab_id: TabId,
    name: Seq<char>,
    pane: PaneSnapshot,
) -> TabView {
    TabView { id: tab_id, name, name_is_custom: false, layout: PaneLayout::Pane(pane) }
}

pub open spec fn stop_effects(stopped: Seq<TerminalSessionId>) -> Seq<EffectView> {
    stopped.map_values(
        |terminal_session_id: TerminalSessionId| EffectView::StopTerminal { terminal_session_id },
    )
}

/// The sessions of the Panes of `tabs`, Tab by Tab.
pub open spec fn tab_session_ids(tabs: Seq<TabView>) -> Seq<TerminalSessionId>
    decreases tabs.len(),
{
    if tabs.len() == 0 {
        Seq::empty()
    } else {
        tab_session_ids(tabs.drop_last()) + tabs.last().layout.session_ids()
    }
}

impl ModelView {
    /// The identity that the resource after `offset` others will get.
    pub open spec fn id(self, offset: nat) -> u64 {
        (self.next_id + offset) as u64
    }

    /// A change of the Spaces alone.
    pub open spec fn rearranged(self, spaces: Seq<SpaceView>) -> Change {
        Change {
            spaces,
            sessions: self.snapshot.sessions,
            ids_taken: 0,
            effects: Seq::empty(),
            created: CreatedResource::Nothing,
        }
    }

    /// A change that starts a session in `directory`.
    pub open spec fn launching(
        self,
        spaces: Seq<SpaceView>,
        terminal_session_id: TerminalSessionId,
        directory: Seq<u8>,
        ids_taken: nat,
        created: CreatedResource,
    ) -> Change {
        Change {
            spaces,
            sessions: self.snapshot.sessions.push(
                SessionView { id: terminal_session_id, working_directory: directory },
            ),
            ids_taken,
            effects: seq![
                EffectView::LaunchTerminal { terminal_session_id, working_directory: directory },
            ],
            created,
        }
    }

    /// A change that ends the sessions `stopped`.
    pub open spec fn stopping(
        self,
        spaces: Seq<SpaceView>,
        stopped: Seq<TerminalSessionId>,
    ) -> Change {
        Change {
            spaces,
            sessions: going_on(self.snapshot.sessions, stopped),
            ids_taken: 0,
            effects: stop_effects(stopped),
            created: CreatedResource::Nothing,
        }
    }

    pub open spec fn create_space(self, name: Seq<char>, directory: Seq<u8>) -> Result<
        Change,
        CoreModelError,
    > {
        let space_id = SpaceId(self.id(0));
        let tab_id = TabId(self.id(1));
        let pane_id = PaneId(self.id(2));
        let terminal_session_id = TerminalSessionId(self.id(3));
        if !valid_name(name) {
            Err(CoreModelError::InvalidName)
        } else if directory.len() == 0 {
            Err(CoreModelError::InvalidDirectory)
        } else {
            Ok(
                self.launching(
                    self.snapshot.spaces.push(
                        SpaceView {
                            id: space_id,
                            name,
                            name_is_custom: false,
                            directory,
                            tabs: seq![
                                single_pane_tab(
                                    tab_id,
                                    "Terminal"@,
                                    PaneSnapshot { id: pane_id, terminal_session_id },
                                ),
                            ],
                        },
                    ),
                    terminal_session_id,
                    directory,
                    4,
                    CreatedResource::Space { space_id, tab_id, pane_id, terminal_session_id },
                ),
            )
        }
    }

    pub open spec fn rename_space(self, space_id: SpaceId, name: Seq<char>) -> Result<
        Change,
        CoreModelError,
    > {
        let spaces = self.snapshot.spaces;
        if !valid_name(name) {
            Err(CoreModelError::InvalidName)
        } else {
            match first_index(spaces, space_named(space_id)) {
                None => Err(
                    CoreModelError::NotFound { kind: ResourceKind::Space, id: space_id.0 },
                ),
                Some(space) => Ok(
                    self.rearranged(
                        spaces.update(
                            space,
                            SpaceView { name, name_is_custom: true, ..spaces[space] },
                        ),
                    ),
                ),
            }
        }
    }

    pub open spec fn create_tab(self, space_id: SpaceId, name: Seq<char>) -> Result<
        Change,
        CoreModelError,
    > {
        let spaces = self.snapshot.spaces;
        let tab_id = TabId(self.id(0));
        let pane_id = PaneId(self.id(1));
        let terminal_session_id = TerminalSessionId(self.id(2));
        if !valid_name(name) {
            Err(CoreModelError::InvalidName)
        } else {
            match first_index(spaces, space_named(space_id)) {
                None => Err(
                    CoreModelError::NotFound { kind: ResourceKind::Space, id: space_id.0 },
                ),
                Some(space) => Ok(
                    self.launching(
                        spaces.update(
                            space,
                            SpaceView {
                                tabs: spaces[space].tabs.push(
                                    single_pane_tab(
                                        tab_id,
                                        name,
                                        PaneSnapshot { id: pane_id, terminal_session_id },
                                    ),
                                ),
                                ..spaces[space]
                            },
                        ),
                        terminal_session_id,
                        spaces[space].directory,
                        3,
                        CreatedResource::Tab { tab_id, pane_id, terminal_session_id },
                    ),
                ),
            }
        }
    }

    pub open spec fn rename_tab(self, tab_id: TabId, name: Seq<char>) -> Result<
        Change,
        CoreModelError,
    > {
        let spaces = self.snapshot.spaces;
        let query = TabQuery::Named(tab_id);
        if !valid_name(name) {
            Err(CoreModelError::InvalidName)
        } else {
            match query.locate(spaces) {
                None => Err(query.spec_missing()),
                Some((space, tab)) => Ok(
                    self.rearranged(
                        with_tab(
                            spaces,
                            space,
                            tab,
                            TabView { name, name_is_custom: true, ..spaces[space].tabs[tab] },
                        ),
                    ),
                ),
            }
        }
    }

    pub open spec fn reorder_tab(self, tab_id: TabId, index: usize) -> Result<
        Change,
        CoreModelError,
    > {
        let spaces = self.snapshot.spaces;
        let query = TabQuery::Named(tab_id);
        match query.locate(spaces) {
            None => Err(query.spec_missing()),
            Some((space, tab)) => {
                let tabs = spaces[space].tabs;
                if index >= tabs.len() {
                    Err(
                        CoreModelError::TabIndexOutOfBounds {
                            index,
                            tab_count: tabs.len() as usize,
                        },
                    )
                } else {
                    Ok(
                        self.rearranged(
                            spaces.update(
                                space,
                                SpaceView {
                                    tabs: tabs.remove(tab).insert(index as int, tabs[tab]),
                                    ..spaces[space]
                                },
                            ),
                        ),
                    )
                }
            },
        }
    }

    pub open spec fn split_pane(
        self,
        pane_id: PaneId,
        axis: SplitAxis,
        placement: SplitPlacement,
        ratio: SplitRatio,
    ) -> Result<Change, CoreModelError> {
        let spaces = self.snapshot.spaces;
        let query = TabQuery::WithPane(pane_id);
        let new_pane_id = PaneId(self.id(0));
        let terminal_session_id = TerminalSessionId(self.id(1));
        let split_id = SplitId(self.id(2));
        match query.locate(spaces) {
            None => Err(query.spec_missing()),
            Some((space, tab)) => Ok(
                self.launching(
                    with_layout(
                        spaces,
                        space,
                        tab,
                        spaces[space].tabs[tab].layout.divided(
                            pane_id,
                            split_id,
                            axis,
                            ratio,
                            placement,
                            PaneSnapshot { id: new_pane_id, terminal_session_id },
                        ),
                    ),
                    terminal_session_id,
                    spaces[space].directory,
                    3,
                    CreatedResource::Pane { pane_id: new_pane_id, split_id, terminal_session_id },
                ),
            ),
        }
    }

    /// The Spaces after the Pane `pane_id` has left its place.
    pub open spec fn lifted(self, pane_id: PaneId) -> Seq<SpaceView> {
        let (space, tab) = TabQuery::WithPane(pane_id).locate(self.snapshot.spaces)->0;
        without_pane(self.snapshot.spaces, space, tab, pane_id)
    }

    /// The Pane `pane_id`.
    pub open spec fn pane(self, pane_id: PaneId) -> PaneSnapshot {
        let (space, tab) = TabQuery::WithPane(pane_id).locate(self.snapshot.spaces)->0;
        self.snapshot.spaces[space].tabs[tab].layout.find_pane(pane_id)->0
    }

    pub open spec fn move_pane(
        self,
        pane_id: PaneId,
        target_pane_id: PaneId,
        axis: SplitAxis,
        placement: SplitPlacement,
        ratio: SplitRatio,
    ) -> Result<Change, CoreModelError> {
        let spaces = self.snapshot.spaces;
        let source = TabQuery::WithPane(pane_id);
        let target = TabQuery::WithPane(target_pane_id);
        if pane_id == target_pane_id {
            Err(CoreModelError::CannotMovePaneOntoItself)
        } else if source.locate(spaces) is None {
            Err(source.spec_missing())
        } else if target.locate(spaces) is None {
            Err(target.spec_missing())
        } else {
            let lifted = self.lifted(pane_id);
            let (space, tab) = target.locate(lifted)->0;
            Ok(
                Change {
                    ids_taken: 1,
                    ..self.rearranged(
                        with_layout(
                            lifted,
                            space,
                            tab,
                            lifted[space].tabs[tab].layout.divided(
                                target_pane_id,
                                SplitId(self.id(0)),
                                axis,
                                ratio,
                                placement,
                                self.pane(pane_id),
                            ),
                        ),
                    )
                },
            )
        }
    }

    pub open spec fn resize_split(self, split_id: SplitId, ratio: SplitRatio) -> Result<
        Change,
        CoreModelError,
    > {
        let spaces = self.snapshot.spaces;
        let query = TabQuery::WithSplit(split_id);
        match query.locate(spaces) {
            None => Err(query.spec_missing()),
            Some((space, tab)) => Ok(
                self.rearranged(
                    with_layout(
                        spaces,
                        space,
                        tab,
                        spaces[space].tabs[tab].layout.resized(split_id, ratio),
                    ),
                ),
            ),
        }
    }

    pub open spec fn close_tab(self, tab_id: TabId) -> Result<Change, CoreModelError> {
        let spaces = self.snapshot.spaces;
        let query = TabQuery::Named(tab_id);
        match query.locate(spaces) {
            None => Err(query.spec_missing()),
            Some((space, tab)) => Ok(
                self.stopping(
                    without_tab(spaces, space, tab),
                    spaces[space].tabs[tab].layout.session_ids(),
                ),
            ),
        }
    }

    pub open spec fn close_space(self, space_id: SpaceId) -> Result<Change, CoreModelError> {
        let spaces = self.snapshot.spaces;
        match first_index(spaces, space_named(space_id)) {
            None => Err(CoreModelError::NotFound { kind: ResourceKind::Space, id: space_id.0 }),
            Some(space) => Ok(
                self.stopping(spaces.remove(space), tab_session_ids(spaces[space].tabs)),
            ),
        }
    }

    pub open spec fn close_pane(self, pane_id: PaneId) -> Result<Change, CoreModelError> {
        let query = TabQuery::WithPane(pane_id);
        match query.locate(self.snapshot.spaces) {
            None => Err(query.spec_missing()),
            Some(_) => Ok(
                self.stopping(
                    self.lifted(pane_id),
                    seq![self.pane(pane_id).terminal_session_id],
                ),
            ),
        }
    }

    /// What `command` does to this state, or why it is rejected.
    pub open spec fn change(self, command: CommandView) -> Result<Change, CoreModelError> {
        match command {
            CommandView::CreateSpace { name, directory } => self.create_space(name, directory),
            CommandView::RenameSpace { space_id, name } => self.rename_space(space_id, name),
            CommandView::CreateTab { space_id, name } => self.create_tab(space_id, name),
            CommandView::RenameTab { tab_id, name } => self.rename_tab(tab_id, name),
            CommandView::ReorderTab { tab_id, index } => self.reorder_tab(tab_id, index),
            CommandView::SplitPane { pane_id, axis, placement, ratio } => self.split_pane(
                pane_id,
                axis,
                placement,
                ratio,
            ),
            CommandView::MovePane { pane_id, target_pane_id, axis, placement, ratio } => {
                self.move_pane(pane_id, target_pane_id, axis, placement, ratio)
            },
            CommandView::ResizeSplit { split_id, ratio } => self.resize_split(split_id, ratio),
            CommandView::CloseTab { tab_id } => self.close_tab(tab_id),
            CommandView::CloseSpace { space_id } => self.close_space(space_id),
            CommandView::ClosePane { pane_id } => self.close_pane(pane_id),
        }
    }

    /// Whether identities are left for what `command` would create.
    pub open spec fn has_ids_for(self, command: CommandView) -> bool {
        self.change(command) matches Ok(change) ==> self.next_id + change.ids_taken <= u64::MAX
    }

    /// The revision that follows this one.
    pub open spec fn next_revision(self) -> u64 {
        if self.snapshot.revision == u64::MAX {
            u64::MAX
        } else {
            (self.snapshot.revision + 1) as u64
        }
    }

    /// The state after `change`.
    pub open spec fn after(self, change: Change) -> ModelView {
        ModelView {
            snapshot: HierarchyView {
                revision: self.next_revision(),
                spaces: change.spaces,
                sessions: change.sessions,
            },
            next_id: (self.next_id + change.ids_taken) as u64,
        }
    }

    /// What `command` against `expected_revision` comes to: the next state and
    /// what is reported of it, or a rejection.
    pub open spec fn applied(self, expected_revision: u64, command: CommandView) -> Result<
        (ModelView, CommitView),
        CoreModelError,
    > {
        if expected_revision != self.snapshot.revision {
            Err(
                CoreModelError::StaleRevision {
                    expected: expected_revision,
                    actual: self.snapshot.revision,
                },
            )
        } else {
            match self.change(command) {
                Err(error) => Err(error),
                Ok(change) => Ok(
                    (
                        self.after(change),
                        CommitView {
                            revision: self.next_revision(),
                            snapshot: self.after(change).snapshot,
                            effects: change.effects,
                            created: change.created,
                        },
                    ),
                ),
            }
        }
    }

    /// Whether `outcome`, with the state going from this one to `after`, is
    /// what `expected` says, before the revision is counted.
    pub open spec fn realizes(
        self,
        after: ModelView,
        expected: Result<Change, CoreModelError>,
        outcome: Result<(Vec<CoreEffect>, CreatedResource), CoreModelError>,
    ) -> bool {
        match expected {
            Err(error) => outcome matches Err(actual) && actual == error && after == self,
            Ok(change) => {
                &&& outcome matches Ok((effects, created))
                &&& views(effects@) == change.effects
                &&& created == change.created
                &&& after == (ModelView {
                    snapshot: HierarchyView {
                        revision: self.snapshot.revision,
                        spaces: change.spaces,
                        sessions: change.sessions,
                    },
                    next_id: (self.next_id + change.ids_taken) as u64,
                })
            },
        }
    }
}

pub fn validate_name(name: &str) -> (result: Result<(), CoreModelError>)
    ensures
        result is Ok <==> valid_name(name@),
        result matches Err(error) ==> error == CoreModelError::InvalidName,
{
    if blank(name) || name.unicode_len() > 120 {
        return Err(CoreModelError::InvalidName);
    }
    Ok(())
}

pub fn validate_directory(directory: &DirectoryPath) -> (result: Result<(), CoreModelError>)
    ensures
        result is Ok <==> directory@.len() > 0,
        result matches Err(error) ==> error == CoreModelError::InvalidDirectory,
{
    if directory.is_empty() {
        return Err(CoreModelError::InvalidDirectory);
    }
    Ok(())
}

/// The effects that stop the sessions `stopped`, in order.
fn stop_terminals(stopped: &Vec<TerminalSessionId>) -> (effects: Vec<CoreEffect>)
    ensures
        views(effects@) == stop_effects(stopped@),
{
    let mut effects: Vec<CoreEffect> = Vec::new();
    let mut index: usize = 0;
    while index < stopped.len()
        invariant
            index <= stopped@.len(),
            effects@.len() == index,
            forall|i: int|
                0 <= i < index ==> (#[trigger] effects@[i])@ == (EffectView::StopTerminal {
                    terminal_session_id: stopped@[i],
                }),
        decreases stopped@.len() - index,
    {
        effects.push(CoreEffect::StopTerminal { terminal_session_id: stopped[index] });
        index += 1;
    }
    proof {
        assert(views(effects@) =~= stop_effects(stopped@));
    }
    effects
}

/// The hierarchy and its commands.
pub struct CoreModel {
    snapshot: CoreSnapshot,
    next_id: u64,
}

impl View for CoreModel {
    type V = ModelView;

    closed spec fn view(&self) -> ModelView {
        ModelView { snapshot: self.snapshot@, next_id: self.next_id }
    }
}

impl Default for CoreModel {
    fn default() -> (model: Self)
        ensures
            model@ == empty_model(1),
    {
        Self::new()
    }
}

/// No resources at revision 0, with `first_id` for the first to come.
pub open spec fn empty_model(first_id: u64) -> ModelView {
    ModelView {
        snapshot: HierarchyView { revision: 0, spaces: Seq::empty(), sessions: Seq::empty() },
        next_id: first_id,
    }
}

impl CoreModel {
    pub fn new() -> (model: Self)
        ensures
            model@ == empty_model(1),
    {
        Self::with_id_namespace(1)
    }

    /// An empty hierarchy whose resources get identities from `first_id` on.
    pub fn with_id_namespace(first_id: u64) -> (model: Self)
        requires
            first_id != 0,
        ensures
            model@ == empty_model(first_id),
    {
        let model = Self {
            snapshot: CoreSnapshot {
                revision: 0,
                spaces: Vec::new(),
                terminal_sessions: Vec::new(),
            },
            next_id: first_id,
        };
        proof {
            assert(model@ =~= empty_model(first_id)) by {
                assert(model@.snapshot.spaces =~= Seq::empty());
                assert(model@.snapshot.sessions =~= Seq::empty());
            }
        }
        model
    }

    pub fn snapshot(&self) -> (snapshot: CoreSnapshot)
        ensures
            snapshot@ == self@.snapshot,
    {
        self.snapshot.clone()
    }

    /// How many identities are left to give out.
    pub fn remaining_ids(&self) -> (remaining: u64)
        ensures
            remaining == u64::MAX - self@.next_id,
    {
        u64::MAX - self.next_id
    }

    /// Whether identities are left for what `command` would create: a command
    /// that is rejected takes none.
    pub fn has_ids_for(&self, expected_revision: u64, command: &CoreCommand) -> (left: bool)
        ensures
            left == (expected_revision == self@.snapshot.revision ==> self@.has_ids_for(command@)),
    {
        if expected_revision != self.snapshot.revision || self.remaining_ids()
            >= command.identities() {
            return true;
        }
        let spaces = &self.snapshot.spaces;
        match command {
            CoreCommand::CreateSpace { name, directory } => validate_name(name.as_str()).is_err()
                || validate_directory(directory).is_err(),
            CoreCommand::CreateTab { space_id, name } => validate_name(name.as_str()).is_err()
                || find_space(spaces, *space_id).is_err(),
            CoreCommand::SplitPane { pane_id, .. } => {
                TabQuery::WithPane(*pane_id).find(spaces).is_err()
            },
            CoreCommand::MovePane { pane_id, target_pane_id, .. } => *pane_id == *target_pane_id
                || TabQuery::WithPane(*pane_id).find(spaces).is_err() || TabQuery::WithPane(
                *target_pane_id,
            ).find(spaces).is_err(),
            _ => true,
        }
    }

    /// Applies `command` where the hierarchy is at `expected_revision`.
    pub fn apply(&mut self, expected_revision: u64, command: CoreCommand) -> (result: Result<
        CoreCommit,
        CoreModelError,
    >)
        requires
            expected_revision == old(self)@.snapshot.revision ==> old(self)@.has_ids_for(command@),
        ensures
            match old(self)@.applied(expected_revision, command@) {
                Ok((after, commit)) => {
                    &&& result matches Ok(actual) && actual@ == commit
                    &&& final(self)@ == after
                },
                Err(error) => {
                    &&& result matches Err(actual) && actual == error
                    &&& final(self)@ == old(self)@
                },
            },
    {
        if expected_revision != self.snapshot.revision {
            return Err(
                CoreModelError::StaleRevision {
                    expected: expected_revision,
                    actual: self.snapshot.revision,
                },
            );
        }
        let ghost before = self@;
        match self.apply_command(command) {
            Ok((effects, created)) => {
                self.snapshot.revision = self.snapshot.revision.saturating_add(1);
                let commit = CoreCommit {
                    revision: self.snapshot.revision,
                    snapshot: self.snapshot.clone(),
                    effects,
                    created,
                };
                proof {
                    let change = before.change(command@)->Ok_0;
                    assert(self@ =~= before.after(change));
                }
                Ok(commit)
            },
            Err(error) => Err(error),
        }
    }

    fn apply_command(&mut self, command: CoreCommand) -> (result: Result<
        (Vec<CoreEffect>, CreatedResource),
        CoreModelError,
    >)
        requires
            old(self)@.has_ids_for(command@),
        ensures
            old(self)@.realizes(final(self)@, old(self)@.change(command@), result),
    {
        match command {
            CoreCommand::CreateSpace { name, directory } => self.create_space(name, directory),
            CoreCommand::RenameSpace { space_id, name } => self.rename_space(space_id, name),
            CoreCommand::CreateTab { space_id, name } => self.create_tab(space_id, name),
            CoreCommand::RenameTab { tab_id, name } => self.rename_tab(tab_id, name),
            CoreCommand::ReorderTab { tab_id, index } => self.reorder_tab(tab_id, index),
            CoreCommand::SplitPane { pane_id, axis, placement, ratio } => {
                self.split_pane(pane_id, axis, placement, ratio)
            },
            CoreCommand::MovePane { pane_id, target_pane_id, axis, placement, ratio } => {
                self.move_pane(pane_id, target_pane_id, axis, placement, ratio)
            },
            CoreCommand::ResizeSplit { split_id, ratio } => self.resize_split(split_id, ratio),
            CoreCommand::CloseTab { tab_id } => self.close_tab(tab_id),
            CoreCommand::CloseSpace { space_id } => self.close_space(space_id),
            CoreCommand::ClosePane { pane_id } => self.close_pane(pane_id),
        }
    }

    fn next_raw_id(&mut self) -> (id: u64)
        requires
            old(self)@.next_id < u64::MAX,
        ensures
            id == old(self)@.next_id,
            final(self)@ == (ModelView { next_id: (id + 1) as u64, ..old(self)@ }),
            final(self).snapshot == old(self).snapshot,
    {
        let id = self.next_id;
        self.next_id = id + 1;
        id
    }

    /// Adds the session that shows in a new Pane, and reports its launch.
    fn launch_terminal(
        &mut self,
        terminal_session_id: TerminalSessionId,
        directory: DirectoryPath,
    ) -> (effects: Vec<CoreEffect>)
        ensures
            views(effects@) == seq![
                EffectView::LaunchTerminal { terminal_session_id, working_directory: directory@ },
            ],
            final(self)@ == (ModelView {
                snapshot: HierarchyView {
                    sessions: old(self)@.snapshot.sessions.push(
                        SessionView { id: terminal_session_id, working_directory: directory@ },
                    ),
                    ..old(self)@.snapshot
                },
                ..old(self)@
            }),
    {
        let launch = TerminalLaunch::shell(directory);
        let session = TerminalSessionSnapshot { id: terminal_session_id, launch: launch.clone() };
        proof {
            lemma_views_push(self.snapshot.terminal_sessions@, session);
        }
        self.snapshot.terminal_sessions.push(session);
        let effects = vec![CoreEffect::LaunchTerminal { terminal_session_id, launch }];
        proof {
            assert(views(effects@) =~= seq![
                EffectView::LaunchTerminal { terminal_session_id, working_directory: directory@ },
            ]);
        }
        effects
    }

    fn create_space(&mut self, name: String, directory: DirectoryPath) -> (result: Result<
        (Vec<CoreEffect>, CreatedResource),
        CoreModelError,
    >)
        requires
            old(self)@.create_space(name@, directory@) matches Ok(change) ==> old(self)@.next_id
                + change.ids_taken <= u64::MAX,
        ensures
            old(self)@.realizes(
                final(self)@,
                old(self)@.create_space(name@, directory@),
                result,
            ),
    {
        if let Err(error) = validate_name(name.as_str()) {
            return Err(error);
        }
        if let Err(error) = validate_directory(&directory) {
            return Err(error);
        }
        let space_id = SpaceId(self.next_raw_id());
        let tab_id = TabId(self.next_raw_id());
        let pane_id = PaneId(self.next_raw_id());
        let terminal_session_id = TerminalSessionId(self.next_raw_id());
        let tab = TabSnapshot {
            id: tab_id,
            name: "Terminal".to_owned(),
            name_is_custom: false,
            layout: PaneLayout::Pane(PaneSnapshot { id: pane_id, terminal_session_id }),
        };
        let space = SpaceSnapshot {
            id: space_id,
            name,
            name_is_custom: false,
            directory: directory.clone(),
            tabs: vec![tab],
        };
        proof {
            assert(views(space.tabs@) =~= seq![tab@]);
            lemma_views_push(self.snapshot.spaces@, space);
        }
        self.snapshot.spaces.push(space);
        let effects = self.launch_terminal(terminal_session_id, directory);
        Ok((effects, CreatedResource::Space { space_id, tab_id, pane_id, terminal_session_id }))
    }

    fn rename_space(&mut self, space_id: SpaceId, name: String) -> (result: Result<
        (Vec<CoreEffect>, CreatedResource),
        CoreModelError,
    >)
        ensures
            old(self)@.realizes(final(self)@, old(self)@.rename_space(space_id, name@), result),
    {
        if let Err(error) = validate_name(name.as_str()) {
            return Err(error);
        }
        let space = match find_space(&self.snapshot.spaces, space_id) {
            Ok(space) => space,
            Err(error) => return Err(error),
        };
        self.snapshot.spaces[space].name = name;
        self.snapshot.spaces[space].name_is_custom = true;
        proof {
            let before = old(self).snapshot.spaces@;
            let after = self.snapshot.spaces@;
            assert(after =~= before.update(space as int, after[space as int]));
            lemma_views_update(before, space as int, after[space as int]);
        }
        Ok(nothing_created())
    }

    fn create_tab(&mut self, space_id: SpaceId, name: String) -> (result: Result<
        (Vec<CoreEffect>, CreatedResource),
        CoreModelError,
    >)
        requires
            old(self)@.create_tab(space_id, name@) matches Ok(change) ==> old(self)@.next_id
                + change.ids_taken <= u64::MAX,
        ensures
            old(self)@.realizes(final(self)@, old(self)@.create_tab(space_id, name@), result),
    {
        if let Err(error) = validate_name(name.as_str()) {
            return Err(error);
        }
        let space = match find_space(&self.snapshot.spaces, space_id) {
            Ok(space) => space,
            Err(error) => return Err(error),
        };
        let directory = self.snapshot.spaces[space].directory.clone();
        let tab_id = TabId(self.next_raw_id());
        let pane_id = PaneId(self.next_raw_id());
        let terminal_session_id = TerminalSessionId(self.next_raw_id());
        let tab = TabSnapshot {
            id: tab_id,
            name,
            name_is_custom: false,
            layout: PaneLayout::Pane(PaneSnapshot { id: pane_id, terminal_session_id }),
        };
        proof {
            lemma_views_push(self.snapshot.spaces@[space as int].tabs@, tab);
        }
        self.snapshot.spaces[space].tabs.push(tab);
        proof {
            let before = old(self).snapshot.spaces@;
            let after = self.snapshot.spaces@;
            assert(after =~= before.update(space as int, after[space as int]));
            lemma_views_update(before, space as int, after[space as int]);
        }
        let effects = self.launch_terminal(terminal_session_id, directory);
        Ok((effects, CreatedResource::Tab { tab_id, pane_id, terminal_session_id }))
    }

    fn rename_tab(&mut self, tab_id: TabId, name: String) -> (result: Result<
        (Vec<CoreEffect>, CreatedResource),
        CoreModelError,
    >)
        ensures
            old(self)@.realizes(final(self)@, old(self)@.rename_tab(tab_id, name@), result),
    {
        if let Err(error) = validate_name(name.as_str()) {
            return Err(error);
        }
        let (space, tab) = match TabQuery::Named(tab_id).find(&self.snapshot.spaces) {
            Ok(location) => location,
            Err(error) => return Err(error),
        };
        self.snapshot.spaces[space].tabs[tab].name = name;
        self.snapshot.spaces[space].tabs[tab].name_is_custom = true;
        proof {
            let before = old(self).snapshot.spaces@;
            let after = self.snapshot.spaces@;
            let tabs = before[space as int].tabs@;
            let new_tabs = after[space as int].tabs@;
            assert(new_tabs =~= tabs.update(tab as int, new_tabs[tab as int]));
            lemma_views_update(tabs, tab as int, new_tabs[tab as int]);
            assert(after =~= before.update(space as int, after[space as int]));
            lemma_views_update(before, space as int, after[space as int]);
        }
        Ok(nothing_created())
    }

    fn reorder_tab(&mut self, tab_id: TabId, index: usize) -> (result: Result<
        (Vec<CoreEffect>, CreatedResource),
        CoreModelError,
    >)
        ensures
            old(self)@.realizes(final(self)@, old(self)@.reorder_tab(tab_id, index), result),
    {
        let (space, tab) = match TabQuery::Named(tab_id).find(&self.snapshot.spaces) {
            Ok(location) => location,
            Err(error) => return Err(error),
        };
        let tab_count = self.snapshot.spaces[space].tabs.len();
        if index >= tab_count {
            return Err(CoreModelError::TabIndexOutOfBounds { index, tab_count });
        }
        let moved = self.snapshot.spaces[space].tabs.remove(tab);
        self.snapshot.spaces[space].tabs.insert(index, moved);
        proof {
            let before = old(self).snapshot.spaces@;
            let after = self.snapshot.spaces@;
            let tabs = before[space as int].tabs@;
            lemma_views_remove(tabs, tab as int);
            lemma_views_insert(tabs.remove(tab as int), index as int, moved);
            assert(after =~= before.update(space as int, after[space as int]));
            lemma_views_update(before, space as int, after[space as int]);
        }
        Ok(nothing_created())
    }

    fn split_pane(
        &mut self,
        pane_id: PaneId,
        axis: SplitAxis,
        placement: SplitPlacement,
        ratio: SplitRatio,
    ) -> (result: Result<(Vec<CoreEffect>, CreatedResource), CoreModelError>)
        requires
            old(self)@.split_pane(pane_id, axis, placement, ratio) matches Ok(change) ==> old(
                self,
            )@.next_id + change.ids_taken <= u64::MAX,
        ensures
            old(self)@.realizes(
                final(self)@,
                old(self)@.split_pane(pane_id, axis, placement, ratio),
                result,
            ),
    {
        let (space, tab) = match TabQuery::WithPane(pane_id).find(&self.snapshot.spaces) {
            Ok(location) => location,
            Err(error) => return Err(error),
        };
        let directory = self.snapshot.spaces[space].directory.clone();
        let new_pane_id = PaneId(self.next_raw_id());
        let terminal_session_id = TerminalSessionId(self.next_raw_id());
        let split_id = SplitId(self.next_raw_id());
        let mut layout = self.snapshot.spaces[space].tabs[tab].layout.clone();
        let _ = replace_pane_with_split(
            &mut layout,
            pane_id,
            split_id,
            axis,
            ratio,
            placement,
            PaneSnapshot { id: new_pane_id, terminal_session_id },
        );
        set_layout(&mut self.snapshot.spaces, space, tab, layout);
        let effects = self.launch_terminal(terminal_session_id, directory);
        Ok(
            (
                effects,
                CreatedResource::Pane { pane_id: new_pane_id, split_id, terminal_session_id },
            ),
        )
    }

    /// Takes the Pane `pane_id` out of its Tab.
    fn detach_pane(&mut self, pane_id: PaneId, space: usize, tab: usize) -> (pane: PaneSnapshot)
        requires
            TabQuery::WithPane(pane_id).locate(old(self)@.snapshot.spaces) == Some(
                (space as int, tab as int),
            ),
            space < old(self).snapshot.spaces@.len(),
            tab < old(self).snapshot.spaces@[space as int].tabs@.len(),
            old(self).snapshot.spaces@[space as int].tabs@[tab as int].layout.holds_pane(pane_id),
        ensures
            pane == old(self)@.pane(pane_id),
            final(self)@ == (ModelView {
                snapshot: HierarchyView {
                    spaces: old(self)@.lifted(pane_id),
                    ..old(self)@.snapshot
                },
                ..old(self)@
            }),
    {
        let layout = self.snapshot.spaces[space].tabs[tab].layout.clone();
        match remove_pane(layout, pane_id) {
            RemovePane::NotFound(_) => {
                proof {
                    assert(false);
                }
                PaneSnapshot { id: pane_id, terminal_session_id: TerminalSessionId(0) }
            },
            RemovePane::Removed { remaining, pane } => {
                match remaining {
                    Some(remaining) => {
                        set_layout(&mut self.snapshot.spaces, space, tab, remaining);
                    },
                    None => {
                        let _ = remove_tab_and_empty_space(&mut self.snapshot.spaces, space, tab);
                    },
                }
                pane
            },
        }
    }

    fn move_pane(
        &mut self,
        pane_id: PaneId,
        target_pane_id: PaneId,
        axis: SplitAxis,
        placement: SplitPlacement,
        ratio: SplitRatio,
    ) -> (result: Result<(Vec<CoreEffect>, CreatedResource), CoreModelError>)
        requires
            old(self)@.move_pane(pane_id, target_pane_id, axis, placement, ratio) matches Ok(
                change,
            ) ==> old(self)@.next_id + change.ids_taken <= u64::MAX,
        ensures
            old(self)@.realizes(
                final(self)@,
                old(self)@.move_pane(pane_id, target_pane_id, axis, placement, ratio),
                result,
            ),
    {
        if pane_id == target_pane_id {
            return Err(CoreModelError::CannotMovePaneOntoItself);
        }
        let (space, tab) = match TabQuery::WithPane(pane_id).find(&self.snapshot.spaces) {
            Ok(location) => location,
            Err(error) => return Err(error),
        };
        if let Err(error) = TabQuery::WithPane(target_pane_id).find(&self.snapshot.spaces) {
            return Err(error);
        }
        let pane = self.detach_pane(pane_id, space, tab);
        proof {
            super::laws::lemma_lifting_keeps_other_panes(old(self)@, pane_id, target_pane_id);
        }
        match TabQuery::WithPane(target_pane_id).find(&self.snapshot.spaces) {
            Ok((space, tab)) => {
                let split_id = SplitId(self.next_raw_id());
                let mut layout = self.snapshot.spaces[space].tabs[tab].layout.clone();
                let _ = replace_pane_with_split(
                    &mut layout,
                    target_pane_id,
                    split_id,
                    axis,
                    ratio,
                    placement,
                    pane,
                );
                set_layout(&mut self.snapshot.spaces, space, tab, layout);
            },
            Err(_) => {
                proof {
                    assert(false);
                }
            },
        }
        Ok(nothing_created())
    }

    fn resize_split(&mut self, split_id: SplitId, ratio: SplitRatio) -> (result: Result<
        (Vec<CoreEffect>, CreatedResource),
        CoreModelError,
    >)
        ensures
            old(self)@.realizes(final(self)@, old(self)@.resize_split(split_id, ratio), result),
    {
        let (space, tab) = match TabQuery::WithSplit(split_id).find(&self.snapshot.spaces) {
            Ok(location) => location,
            Err(error) => return Err(error),
        };
        let mut layout = self.snapshot.spaces[space].tabs[tab].layout.clone();
        let _ = resize_split(&mut layout, split_id, ratio);
        set_layout(&mut self.snapshot.spaces, space, tab, layout);
        Ok(nothing_created())
    }

    fn close_tab(&mut self, tab_id: TabId) -> (result: Result<
        (Vec<CoreEffect>, CreatedResource),
        CoreModelError,
    >)
        ensures
            old(self)@.realizes(final(self)@, old(self)@.close_tab(tab_id), result),
    {
        let (space, tab) = match TabQuery::Named(tab_id).find(&self.snapshot.spaces) {
            Ok(location) => location,
            Err(error) => return Err(error),
        };
        let closed = remove_tab_and_empty_space(&mut self.snapshot.spaces, space, tab);
        let mut stopped: Vec<TerminalSessionId> = Vec::new();
        collect_terminal_session_ids(&closed.layout, &mut stopped);
        proof {
            assert(stopped@ =~= closed.layout.session_ids());
        }
        retain_sessions(&mut self.snapshot.terminal_sessions, &stopped);
        Ok((stop_terminals(&stopped), CreatedResource::Nothing))
    }

    fn close_space(&mut self, space_id: SpaceId) -> (result: Result<
        (Vec<CoreEffect>, CreatedResource),
        CoreModelError,
    >)
        ensures
            old(self)@.realizes(final(self)@, old(self)@.close_space(space_id), result),
    {
        let index = match find_space(&self.snapshot.spaces, space_id) {
            Ok(index) => index,
            Err(error) => return Err(error),
        };
        proof {
            lemma_views_remove(self.snapshot.spaces@, index as int);
        }
        let space = self.snapshot.spaces.remove(index);
        let mut stopped: Vec<TerminalSessionId> = Vec::new();
        let mut tab: usize = 0;
        let ghost tabs = views(space.tabs@);
        while tab < space.tabs.len()
            invariant
                tab <= space.tabs@.len(),
                tabs == views(space.tabs@),
                stopped@ == tab_session_ids(tabs.take(tab as int)),
            decreases space.tabs@.len() - tab,
        {
            collect_terminal_session_ids(&space.tabs[tab].layout, &mut stopped);
            tab += 1;
            proof {
                assert(tabs.take(tab as int).drop_last() =~= tabs.take(tab - 1));
                assert(tabs.take(tab as int).last() == space.tabs@[tab - 1]@);
            }
        }
        proof {
            assert(tabs.take(tab as int) =~= tabs);
        }
        retain_sessions(&mut self.snapshot.terminal_sessions, &stopped);
        Ok((stop_terminals(&stopped), CreatedResource::Nothing))
    }

    fn close_pane(&mut self, pane_id: PaneId) -> (result: Result<
        (Vec<CoreEffect>, CreatedResource),
        CoreModelError,
    >)
        ensures
            old(self)@.realizes(final(self)@, old(self)@.close_pane(pane_id), result),
    {
        let (space, tab) = match TabQuery::WithPane(pane_id).find(&self.snapshot.spaces) {
            Ok(location) => location,
            Err(error) => return Err(error),
        };
        let pane = self.detach_pane(pane_id, space, tab);
        let stopped = vec![pane.terminal_session_id];
        proof {
            assert(stopped@ =~= seq![pane.terminal_session_id]);
        }
        retain_sessions(&mut self.snapshot.terminal_sessions, &stopped);
        Ok((stop_terminals(&stopped), CreatedResource::Nothing))
    }
}

/// A change that creates nothing and asks for nothing.
fn nothing_created() -> (outcome: (Vec<CoreEffect>, CreatedResource))
    ensures
        views(outcome.0@) == Seq::<EffectView>::empty(),
        outcome.1 == CreatedResource::Nothing,
{
    let effects: Vec<CoreEffect> = Vec::new();
    proof {
        assert(views(effects@) =~= Seq::<EffectView>::empty());
    }
    (effects, CreatedResource::Nothing)
}

} // verus!
