//! The resource hierarchy: Spaces hold Tabs, a Tab holds a binary layout of
//! Panes, and each Pane shows one terminal session.

use crate::sequences::views;
use crate::text::{decimal, decimal_chars};
use vstd::prelude::*;
use vstd::string::*;

pub mod edits;
pub mod hierarchy;
pub mod layout;
pub mod laws;
pub mod model;
pub mod naming;

pub use model::CoreModel;
pub use naming::{default_space_name, DirectoryFacts};

verus! {

#[derive(Clone, Copy, Debug, PartialEq, Eq, Hash, PartialOrd, Ord, Structural)]
pub struct SpaceId(pub u64);

#[derive(Clone, Copy, Debug, PartialEq, Eq, Hash, PartialOrd, Ord, Structural)]
pub struct TabId(pub u64);

#[derive(Clone, Copy, Debug, PartialEq, Eq, Hash, PartialOrd, Ord, Structural)]
pub struct PaneId(pub u64);

#[derive(Clone, Copy, Debug, PartialEq, Eq, Hash, PartialOrd, Ord, Structural)]
pub struct SplitId(pub u64);

#[derive(Clone, Copy, Debug, PartialEq, Eq, Hash, PartialOrd, Ord, Structural)]
pub struct TerminalSessionId(pub u64);

impl SpaceId {
    pub fn as_u64(self) -> (value: u64)
        ensures
            value == self.0,
    {
        self.0
    }

    pub fn from_u64(value: u64) -> (id: Self)
        ensures
            id == SpaceId(value),
    {
        Self(value)
    }
}

impl TabId {
    pub fn as_u64(self) -> (value: u64)
        ensures
            value == self.0,
    {
        self.0
    }

    pub fn from_u64(value: u64) -> (id: Self)
        ensures
            id == TabId(value),
    {
        Self(value)
    }
}

impl PaneId {
    pub fn as_u64(self) -> (value: u64)
        ensures
            value == self.0,
    {
        self.0
    }

    pub fn from_u64(value: u64) -> (id: Self)
        ensures
            id == PaneId(value),
    {
        Self(value)
    }
}

impl SplitId {
    pub fn as_u64(self) -> (value: u64)
        ensures
            value == self.0,
    {
        self.0
    }

    pub fn from_u64(value: u64) -> (id: Self)
        ensures
            id == SplitId(value),
    {
        Self(value)
    }
}

impl TerminalSessionId {
    pub fn as_u64(self) -> (value: u64)
        ensures
            value == self.0,
    {
        self.0
    }

    pub fn from_u64(value: u64) -> (id: Self)
        ensures
            id == TerminalSessionId(value),
    {
        Self(value)
    }
}

#[derive(Clone, Copy, Debug, PartialEq, Eq, Structural)]
pub enum SplitAxis {
    Horizontal,
    Vertical,
}

#[derive(Clone, Copy, Debug, PartialEq, Eq, Structural)]
pub enum SplitPlacement {
    Before,
    After,
}

/// The share of a split that its first side takes, in thousandths.
#[derive(Clone, Copy, Debug, PartialEq, Eq, Structural)]
pub struct SplitRatio(u16);

impl SplitRatio {
    pub const MIN_PARTS: u16 = 100;

    pub const MAX_PARTS: u16 = 900;

    pub closed spec fn parts(self) -> u16 {
        self.0
    }

    /// The ratio that `parts` stand for.
    pub closed spec fn of_parts(parts: u16) -> Self {
        SplitRatio(parts)
    }

    pub open spec fn valid_parts(parts: u16) -> bool {
        100 <= parts <= 900
    }

    #[verifier::type_invariant]
    spec fn inv(self) -> bool {
        Self::valid_parts(self.0)
    }

    pub fn new(parts_per_thousand: u16) -> (ratio: Result<Self, CoreModelError>)
        ensures
            ratio matches Ok(ratio) ==> ratio == Self::of_parts(parts_per_thousand),
            ratio matches Ok(ratio) ==> ratio.parts() == parts_per_thousand,
            ratio is Ok <==> Self::valid_parts(parts_per_thousand),
            ratio matches Err(error) ==> error == CoreModelError::InvalidSplitRatio(
                parts_per_thousand,
            ),
    {
        if parts_per_thousand < Self::MIN_PARTS || parts_per_thousand > Self::MAX_PARTS {
            return Err(CoreModelError::InvalidSplitRatio(parts_per_thousand));
        }
        Ok(Self(parts_per_thousand))
    }

    /// The ratio that gives both sides the same share.
    pub fn equal() -> (ratio: Self)
        ensures
            ratio.parts() == 500,
            ratio == Self::of_parts(500),
    {
        Self(500)
    }

    pub fn parts_per_thousand(self) -> (parts: u16)
        ensures
            parts == self.parts(),
            Self::valid_parts(parts),
    {
        proof {
            use_type_invariant(self);
        }
        self.0
    }

    /// A ratio is its parts.
    pub proof fn lemma_of_parts(self, parts: u16)
        ensures
            Self::of_parts(self.parts()) == self,
            Self::of_parts(parts).parts() == parts,
    {
    }
}

/// A directory, as the bytes of its path.
#[derive(Debug, PartialEq, Eq)]
pub struct DirectoryPath {
    pub bytes: Vec<u8>,
}

impl View for DirectoryPath {
    type V = Seq<u8>;

    open spec fn view(&self) -> Seq<u8> {
        self.bytes@
    }
}

impl Clone for DirectoryPath {
    fn clone(&self) -> (copy: Self)
        ensures
            copy@ == self@,
    {
        DirectoryPath { bytes: self.bytes.clone() }
    }
}

impl DirectoryPath {
    pub fn from_bytes(bytes: Vec<u8>) -> (path: Self)
        ensures
            path@ == bytes@,
    {
        DirectoryPath { bytes }
    }

    /// The path that `text` spells in UTF-8.
    pub fn from_text(text: &str) -> (path: Self)
        ensures
            path@ == vstd::utf8::encode_utf8(text@),
    {
        DirectoryPath { bytes: text.as_bytes_vec() }
    }

    pub fn is_empty(&self) -> (empty: bool)
        ensures
            empty == (self@.len() == 0),
    {
        self.bytes.len() == 0
    }
}

#[derive(Debug, PartialEq, Eq)]
pub struct TerminalLaunch {
    pub working_directory: DirectoryPath,
}

impl View for TerminalLaunch {
    type V = Seq<u8>;

    open spec fn view(&self) -> Seq<u8> {
        self.working_directory@
    }
}

impl Clone for TerminalLaunch {
    fn clone(&self) -> (copy: Self)
        ensures
            copy@ == self@,
    {
        TerminalLaunch { working_directory: self.working_directory.clone() }
    }
}

impl TerminalLaunch {
    /// The launch of a shell in `working_directory`.
    pub fn shell(working_directory: DirectoryPath) -> (launch: Self)
        ensures
            launch@ == working_directory@,
    {
        Self { working_directory }
    }
}

#[derive(Clone, Copy, Debug, PartialEq, Eq, Structural)]
pub struct PaneSnapshot {
    pub id: PaneId,
    pub terminal_session_id: TerminalSessionId,
}

#[derive(Debug, PartialEq, Eq)]
pub struct SplitSnapshot {
    pub id: SplitId,
    pub axis: SplitAxis,
    pub ratio: SplitRatio,
    pub first: Box<PaneLayout>,
    pub second: Box<PaneLayout>,
}

/// How a Tab divides its area among Panes.
#[derive(Debug, PartialEq, Eq)]
pub enum PaneLayout {
    Pane(PaneSnapshot),
    Split(SplitSnapshot),
}

impl Clone for PaneLayout {
    fn clone(&self) -> (copy: Self)
        ensures
            copy == *self,
        decreases self,
    {
        match self {
            PaneLayout::Pane(pane) => PaneLayout::Pane(*pane),
            PaneLayout::Split(split) => PaneLayout::Split(
                SplitSnapshot {
                    id: split.id,
                    axis: split.axis,
                    ratio: split.ratio,
                    first: Box::new((&*split.first).clone()),
                    second: Box::new((&*split.second).clone()),
                },
            ),
        }
    }
}

impl Clone for SplitSnapshot {
    fn clone(&self) -> (copy: Self)
        ensures
            copy == *self,
    {
        SplitSnapshot {
            id: self.id,
            axis: self.axis,
            ratio: self.ratio,
            first: Box::new((&*self.first).clone()),
            second: Box::new((&*self.second).clone()),
        }
    }
}

#[derive(Debug, PartialEq, Eq)]
pub struct TabSnapshot {
    pub id: TabId,
    pub name: String,
    pub name_is_custom: bool,
    pub layout: PaneLayout,
}

/// What a Tab is: its identity, its name and its layout.
#[verifier::ext_equal]
pub struct TabView {
    pub id: TabId,
    pub name: Seq<char>,
    pub name_is_custom: bool,
    pub layout: PaneLayout,
}

impl View for TabSnapshot {
    type V = TabView;

    open spec fn view(&self) -> TabView {
        TabView {
            id: self.id,
            name: self.name@,
            name_is_custom: self.name_is_custom,
            layout: self.layout,
        }
    }
}

impl Clone for TabSnapshot {
    fn clone(&self) -> (copy: Self)
        ensures
            copy@ == self@,
    {
        TabSnapshot {
            id: self.id,
            name: self.name.clone(),
            name_is_custom: self.name_is_custom,
            layout: self.layout.clone(),
        }
    }
}

#[derive(Debug, PartialEq, Eq)]
pub struct SpaceSnapshot {
    pub id: SpaceId,
    pub name: String,
    pub name_is_custom: bool,
    pub directory: DirectoryPath,
    pub tabs: Vec<TabSnapshot>,
}

/// What a Space is: its identity, its name, its directory and its Tabs.
#[verifier::ext_equal]
pub struct SpaceView {
    pub id: SpaceId,
    pub name: Seq<char>,
    pub name_is_custom: bool,
    pub directory: Seq<u8>,
    pub tabs: Seq<TabView>,
}

impl View for SpaceSnapshot {
    type V = SpaceView;

    open spec fn view(&self) -> SpaceView {
        SpaceView {
            id: self.id,
            name: self.name@,
            name_is_custom: self.name_is_custom,
            directory: self.directory@,
            tabs: views(self.tabs@),
        }
    }
}

impl Clone for SpaceSnapshot {
    fn clone(&self) -> (copy: Self)
        ensures
            copy@ == self@,
    {
        let tabs = self.tabs.clone();
        proof {
            assert(views(tabs@) =~= views(self.tabs@));
        }
        SpaceSnapshot {
            id: self.id,
            name: self.name.clone(),
            name_is_custom: self.name_is_custom,
            directory: self.directory.clone(),
            tabs,
        }
    }
}

#[derive(Debug, PartialEq, Eq)]
pub struct TerminalSessionSnapshot {
    pub id: TerminalSessionId,
    pub launch: TerminalLaunch,
}

/// What a terminal session is: its identity and the directory it starts in.
#[verifier::ext_equal]
pub struct SessionView {
    pub id: TerminalSessionId,
    pub working_directory: Seq<u8>,
}

impl View for TerminalSessionSnapshot {
    type V = SessionView;

    open spec fn view(&self) -> SessionView {
        SessionView { id: self.id, working_directory: self.launch@ }
    }
}

impl Clone for TerminalSessionSnapshot {
    fn clone(&self) -> (copy: Self)
        ensures
            copy@ == self@,
    {
        TerminalSessionSnapshot { id: self.id, launch: self.launch.clone() }
    }
}

#[derive(Debug, PartialEq, Eq)]
pub struct CoreSnapshot {
    pub revision: u64,
    pub spaces: Vec<SpaceSnapshot>,
    pub terminal_sessions: Vec<TerminalSessionSnapshot>,
}

/// The whole hierarchy at one revision.
#[verifier::ext_equal]
pub struct HierarchyView {
    pub revision: u64,
    pub spaces: Seq<SpaceView>,
    pub sessions: Seq<SessionView>,
}

impl View for CoreSnapshot {
    type V = HierarchyView;

    open spec fn view(&self) -> HierarchyView {
        HierarchyView {
            revision: self.revision,
            spaces: views(self.spaces@),
            sessions: views(self.terminal_sessions@),
        }
    }
}

impl Clone for CoreSnapshot {
    fn clone(&self) -> (copy: Self)
        ensures
            copy@ == self@,
    {
        let spaces = self.spaces.clone();
        let terminal_sessions = self.terminal_sessions.clone();
        proof {
            assert(views(spaces@) =~= views(self.spaces@));
            assert(views(terminal_sessions@) =~= views(self.terminal_sessions@));
        }
        CoreSnapshot { revision: self.revision, spaces, terminal_sessions }
    }
}

#[derive(Debug, PartialEq, Eq)]
pub enum CoreCommand {
    CreateSpace { name: String, directory: DirectoryPath },
    RenameSpace { space_id: SpaceId, name: String },
    CreateTab { space_id: SpaceId, name: String },
    RenameTab { tab_id: TabId, name: String },
    ReorderTab { tab_id: TabId, index: usize },
    SplitPane { pane_id: PaneId, axis: SplitAxis, placement: SplitPlacement, ratio: SplitRatio },
    MovePane {
        pane_id: PaneId,
        target_pane_id: PaneId,
        axis: SplitAxis,
        placement: SplitPlacement,
        ratio: SplitRatio,
    },
    ResizeSplit { split_id: SplitId, ratio: SplitRatio },
    CloseTab { tab_id: TabId },
    CloseSpace { space_id: SpaceId },
    ClosePane { pane_id: PaneId },
}

/// What a command asks for.
#[verifier::ext_equal]
pub enum CommandView {
    CreateSpace { name: Seq<char>, directory: Seq<u8> },
    RenameSpace { space_id: SpaceId, name: Seq<char> },
    CreateTab { space_id: SpaceId, name: Seq<char> },
    RenameTab { tab_id: TabId, name: Seq<char> },
    ReorderTab { tab_id: TabId, index: usize },
    SplitPane { pane_id: PaneId, axis: SplitAxis, placement: SplitPlacement, ratio: SplitRatio },
    MovePane {
        pane_id: PaneId,
        target_pane_id: PaneId,
        axis: SplitAxis,
        placement: SplitPlacement,
        ratio: SplitRatio,
    },
    ResizeSplit { split_id: SplitId, ratio: SplitRatio },
    CloseTab { tab_id: TabId },
    CloseSpace { space_id: SpaceId },
    ClosePane { pane_id: PaneId },
}

impl View for CoreCommand {
    type V = CommandView;

    open spec fn view(&self) -> CommandView {
        match *self {
            CoreCommand::CreateSpace { name, directory } => CommandView::CreateSpace {
                name: name@,
                directory: directory@,
            },
            CoreCommand::RenameSpace { space_id, name } => CommandView::RenameSpace {
                space_id,
                name: name@,
            },
            CoreCommand::CreateTab { space_id, name } => CommandView::CreateTab {
                space_id,
                name: name@,
            },
            CoreCommand::RenameTab { tab_id, name } => CommandView::RenameTab {
                tab_id,
                name: name@,
            },
            CoreCommand::ReorderTab { tab_id, index } => CommandView::ReorderTab { tab_id, index },
            CoreCommand::SplitPane { pane_id, axis, placement, ratio } => CommandView::SplitPane {
                pane_id,
                axis,
                placement,
                ratio,
            },
            CoreCommand::MovePane { pane_id, target_pane_id, axis, placement, ratio } => {
                CommandView::MovePane { pane_id, target_pane_id, axis, placement, ratio }
            },
            CoreCommand::ResizeSplit { split_id, ratio } => CommandView::ResizeSplit {
                split_id,
                ratio,
            },
            CoreCommand::CloseTab { tab_id } => CommandView::CloseTab { tab_id },
            CoreCommand::CloseSpace { space_id } => CommandView::CloseSpace { space_id },
            CoreCommand::ClosePane { pane_id } => CommandView::ClosePane { pane_id },
        }
    }
}

impl CommandView {
    /// How many identities the command takes where it is accepted.
    pub open spec fn identities(self) -> u64 {
        match self {
            CommandView::CreateSpace { .. } => 4,
            CommandView::CreateTab { .. } => 3,
            CommandView::SplitPane { .. } => 3,
            CommandView::MovePane { .. } => 1,
            _ => 0,
        }
    }
}

impl CoreCommand {
    /// How many identities the command takes where it is accepted.
    pub fn identities(&self) -> (count: u64)
        ensures
            count == self@.identities(),
    {
        match self {
            CoreCommand::CreateSpace { .. } => 4,
            CoreCommand::CreateTab { .. } => 3,
            CoreCommand::SplitPane { .. } => 3,
            CoreCommand::MovePane { .. } => 1,
            _ => 0,
        }
    }
}

impl Clone for CoreCommand {
    fn clone(&self) -> (copy: Self)
        ensures
            copy@ == self@,
    {
        match self {
            CoreCommand::CreateSpace { name, directory } => CoreCommand::CreateSpace {
                name: name.clone(),
                directory: directory.clone(),
            },
            CoreCommand::RenameSpace { space_id, name } => CoreCommand::RenameSpace {
                space_id: *space_id,
                name: name.clone(),
            },
            CoreCommand::CreateTab { space_id, name } => CoreCommand::CreateTab {
                space_id: *space_id,
                name: name.clone(),
            },
            CoreCommand::RenameTab { tab_id, name } => CoreCommand::RenameTab {
                tab_id: *tab_id,
                name: name.clone(),
            },
            CoreCommand::ReorderTab { tab_id, index } => CoreCommand::ReorderTab {
                tab_id: *tab_id,
                index: *index,
            },
            CoreCommand::SplitPane { pane_id, axis, placement, ratio } => CoreCommand::SplitPane {
                pane_id: *pane_id,
                axis: *axis,
                placement: *placement,
                ratio: *ratio,
            },
            CoreCommand::MovePane { pane_id, target_pane_id, axis, placement, ratio } => {
                CoreCommand::MovePane {
                    pane_id: *pane_id,
                    target_pane_id: *target_pane_id,
                    axis: *axis,
                    placement: *placement,
                    ratio: *ratio,
                }
            },
            CoreCommand::ResizeSplit { split_id, ratio } => CoreCommand::ResizeSplit {
                split_id: *split_id,
                ratio: *ratio,
            },
            CoreCommand::CloseTab { tab_id } => CoreCommand::CloseTab { tab_id: *tab_id },
            CoreCommand::CloseSpace { space_id } => CoreCommand::CloseSpace { space_id: *space_id },
            CoreCommand::ClosePane { pane_id } => CoreCommand::ClosePane { pane_id: *pane_id },
        }
    }
}

/// Work that a commit leaves to the terminal runtime.
#[derive(Debug, PartialEq, Eq)]
pub enum CoreEffect {
    LaunchTerminal { terminal_session_id: TerminalSessionId, launch: TerminalLaunch },
    StopTerminal { terminal_session_id: TerminalSessionId },
}

#[verifier::ext_equal]
pub enum EffectView {
    LaunchTerminal { terminal_session_id: TerminalSessionId, working_directory: Seq<u8> },
    StopTerminal { terminal_session_id: TerminalSessionId },
}

impl View for CoreEffect {
    type V = EffectView;

    open spec fn view(&self) -> EffectView {
        match *self {
            CoreEffect::LaunchTerminal { terminal_session_id, launch } => {
                EffectView::LaunchTerminal { terminal_session_id, working_directory: launch@ }
            },
            CoreEffect::StopTerminal { terminal_session_id } => EffectView::StopTerminal {
                terminal_session_id,
            },
        }
    }
}

impl Clone for CoreEffect {
    fn clone(&self) -> (copy: Self)
        ensures
            copy@ == self@,
    {
        match self {
            CoreEffect::LaunchTerminal { terminal_session_id, launch } => {
                CoreEffect::LaunchTerminal {
                    terminal_session_id: *terminal_session_id,
                    launch: launch.clone(),
                }
            },
            CoreEffect::StopTerminal { terminal_session_id } => CoreEffect::StopTerminal {
                terminal_session_id: *terminal_session_id,
            },
        }
    }
}

/// The resources that a command brought into being.
#[derive(Clone, Copy, Debug, PartialEq, Eq, Structural)]
pub enum CreatedResource {
    Nothing,
    Space {
        space_id: SpaceId,
        tab_id: TabId,
        pane_id: PaneId,
        terminal_session_id: TerminalSessionId,
    },
    Tab { tab_id: TabId, pane_id: PaneId, terminal_session_id: TerminalSessionId },
    Pane { pane_id: PaneId, split_id: SplitId, terminal_session_id: TerminalSessionId },
}

#[derive(Debug, PartialEq, Eq)]
pub struct CoreCommit {
    pub revision: u64,
    pub snapshot: CoreSnapshot,
    pub effects: Vec<CoreEffect>,
    pub created: CreatedResource,
}

#[verifier::ext_equal]
pub struct CommitView {
    pub revision: u64,
    pub snapshot: HierarchyView,
    pub effects: Seq<EffectView>,
    pub created: CreatedResource,
}

impl View for CoreCommit {
    type V = CommitView;

    open spec fn view(&self) -> CommitView {
        CommitView {
            revision: self.revision,
            snapshot: self.snapshot@,
            effects: views(self.effects@),
            created: self.created,
        }
    }
}

impl Clone for CoreCommit {
    fn clone(&self) -> (copy: Self)
        ensures
            copy@ == self@,
    {
        let effects = self.effects.clone();
        proof {
            assert(views(effects@) =~= views(self.effects@));
        }
        CoreCommit {
            revision: self.revision,
            snapshot: self.snapshot.clone(),
            effects,
            created: self.created,
        }
    }
}

#[derive(Clone, Copy, Debug, PartialEq, Eq, Structural)]
pub enum ResourceKind {
    Space,
    Tab,
    Pane,
    Split,
    TerminalSession,
}

impl ResourceKind {
    pub open spec fn spec_label(self) -> Seq<char> {
        match self {
            ResourceKind::Space => "Space"@,
            ResourceKind::Tab => "Tab"@,
            ResourceKind::Pane => "Pane"@,
            ResourceKind::Split => "Split"@,
            ResourceKind::TerminalSession => "TerminalSession"@,
        }
    }

    pub fn label(self) -> (label: &'static str)
        ensures
            label@ == self.spec_label(),
    {
        match self {
            ResourceKind::Space => "Space",
            ResourceKind::Tab => "Tab",
            ResourceKind::Pane => "Pane",
            ResourceKind::Split => "Split",
            ResourceKind::TerminalSession => "TerminalSession",
        }
    }
}

/// Why a command was rejected.
#[derive(Clone, Copy, Debug, PartialEq, Eq, Structural)]
pub enum CoreModelError {
    StaleRevision { expected: u64, actual: u64 },
    NotFound { kind: ResourceKind, id: u64 },
    InvalidName,
    InvalidDirectory,
    InvalidSplitRatio(u16),
    TabIndexOutOfBounds { index: usize, tab_count: usize },
    CannotMovePaneOntoItself,
}

impl CoreModelError {
    pub open spec fn spec_message(self) -> Seq<char> {
        match self {
            CoreModelError::StaleRevision { expected, actual } => "stale Core revision "@
                + decimal_chars(expected as nat) + "; current revision is "@ + decimal_chars(
                actual as nat,
            ),
            CoreModelError::NotFound { kind, id } => kind.spec_label() + " "@ + decimal_chars(
                id as nat,
            ) + " does not exist"@,
            CoreModelError::InvalidName => "names must contain 1 to 120 characters"@,
            CoreModelError::InvalidDirectory => "a Space directory cannot be empty"@,
            CoreModelError::InvalidSplitRatio(ratio) => "split ratio "@ + decimal_chars(
                ratio as nat,
            ) + " is outside 100..=900"@,
            CoreModelError::TabIndexOutOfBounds { index, tab_count } => "Tab index "@
                + decimal_chars(index as nat) + " is outside 0.."@ + decimal_chars(
                tab_count as nat,
            ),
            CoreModelError::CannotMovePaneOntoItself => "a Pane cannot be moved relative to itself"@,
        }
    }

    /// The rejection as a sentence for people.
    pub fn message(self) -> (message: String)
        ensures
            message@ == self.spec_message(),
    {
        match self {
            CoreModelError::StaleRevision { expected, actual } => {
                let mut message = "stale Core revision ".to_owned();
                message.append(decimal(expected).as_str());
                message.append("; current revision is ");
                message.append(decimal(actual).as_str());
                message
            },
            CoreModelError::NotFound { kind, id } => {
                let mut message = kind.label().to_owned();
                message.append(" ");
                message.append(decimal(id).as_str());
                message.append(" does not exist");
                message
            },
            CoreModelError::InvalidName => "names must contain 1 to 120 characters".to_owned(),
            CoreModelError::InvalidDirectory => "a Space directory cannot be empty".to_owned(),
            CoreModelError::InvalidSplitRatio(ratio) => {
                let mut message = "split ratio ".to_owned();
                message.append(decimal(ratio as u64).as_str());
                message.append(" is outside 100..=900");
                message
            },
            CoreModelError::TabIndexOutOfBounds { index, tab_count } => {
                let mut message = "Tab index ".to_owned();
                message.append(decimal(index as u64).as_str());
                message.append(" is outside 0..");
                message.append(decimal(tab_count as u64).as_str());
                message
            },
            CoreModelError::CannotMovePaneOntoItself => {
                "a Pane cannot be moved relative to itself".to_owned()
            },
        }
    }
}

/// What is missing is named with its kind and its number, and a revision that is out
/// of date beside the one that is not.
pub proof fn law_rejections_name_what_they_are_about(
    kind: ResourceKind,
    id: u64,
    expected: u64,
    actual: u64,
)
    ensures
        (CoreModelError::NotFound { kind, id }).spec_message() == (match kind {
            ResourceKind::Space => "Space"@,
            ResourceKind::Tab => "Tab"@,
            ResourceKind::Pane => "Pane"@,
            ResourceKind::Split => "Split"@,
            ResourceKind::TerminalSession => "TerminalSession"@,
        }) + " "@ + decimal_chars(id as nat) + " does not exist"@,
        (CoreModelError::StaleRevision { expected, actual }).spec_message()
            == "stale Core revision "@ + decimal_chars(expected as nat) + "; current revision is "@
            + decimal_chars(actual as nat),
        CoreModelError::InvalidName.spec_message() == "names must contain 1 to 120 characters"@,
        CoreModelError::InvalidDirectory.spec_message() == "a Space directory cannot be empty"@,
        CoreModelError::CannotMovePaneOntoItself.spec_message()
            == "a Pane cannot be moved relative to itself"@,
{
}

/// A seam leaves each side at least a tenth.
pub proof fn law_seams_leave_room(parts: u16)
    ensures
        SplitRatio::valid_parts(parts) <==> parts >= 100 && 1000 - parts >= 100,
{
}

} // verus!
