//! Snapshots of the hierarchy that outlive the process: their binary form,
//! the pair of files that holds them, and when they are saved.

use crate::core_model::{
    CoreModelError, DirectoryPath, PaneId, SpaceId, SplitAxis, SplitId, SplitRatio, TabId,
};
use crate::sequences::views;
use crate::text::{decimal, decimal_chars};
use vstd::prelude::*;
use vstd::string::*;

pub mod format;
pub mod layout;
pub mod schedule;
pub mod snapshot;
pub mod store;

verus! {

/// Whether a restored terminal starts its process again.
#[derive(Clone, Copy, Debug, PartialEq, Eq, Structural)]
pub enum RestoreDisposition {
    Relaunch,
    RemainEnded,
}

/// How the terminal of a restored Pane starts.
#[derive(Debug, PartialEq, Eq)]
pub struct PersistedLaunch {
    pub working_directory: DirectoryPath,
    pub restore_disposition: RestoreDisposition,
}

#[derive(Debug, PartialEq, Eq)]
pub struct PersistedPane {
    pub id: PaneId,
    pub launch: PersistedLaunch,
}

#[derive(Debug, PartialEq, Eq)]
pub struct PersistedSplit {
    pub id: SplitId,
    pub axis: SplitAxis,
    pub ratio: SplitRatio,
    pub first: Box<PersistedPaneLayout>,
    pub second: Box<PersistedPaneLayout>,
}

#[derive(Debug, PartialEq, Eq)]
pub enum PersistedPaneLayout {
    Pane(PersistedPane),
    Split(PersistedSplit),
}

#[derive(Debug, PartialEq, Eq)]
pub struct PersistedTab {
    pub id: TabId,
    pub name: String,
    pub layout: PersistedPaneLayout,
}

#[derive(Debug, PartialEq, Eq)]
pub struct PersistedSpace {
    pub id: SpaceId,
    pub name: String,
    pub directory: DirectoryPath,
    pub tabs: Vec<PersistedTab>,
}

#[derive(Debug, PartialEq, Eq)]
pub struct PersistedCoreLayout {
    pub next_id: u64,
    pub spaces: Vec<PersistedSpace>,
}

/// A layout, and how many it follows.
#[derive(Debug, PartialEq, Eq)]
pub struct SnapshotRecord {
    pub generation: u64,
    pub layout: PersistedCoreLayout,
}

#[allow(inconsistent_fields)]
#[verifier::ext_equal]
pub enum StoredLayout {
    Pane { id: PaneId, directory: Seq<u8>, disposition: RestoreDisposition },
    Split {
        id: SplitId,
        axis: SplitAxis,
        ratio: SplitRatio,
        first: Box<StoredLayout>,
        second: Box<StoredLayout>,
    },
}

#[verifier::ext_equal]
pub struct StoredTab {
    pub id: TabId,
    pub name: Seq<char>,
    pub layout: StoredLayout,
}

#[verifier::ext_equal]
pub struct StoredSpace {
    pub id: SpaceId,
    pub name: Seq<char>,
    pub directory: Seq<u8>,
    pub tabs: Seq<StoredTab>,
}

#[verifier::ext_equal]
pub struct StoredHierarchy {
    pub next_id: u64,
    pub spaces: Seq<StoredSpace>,
}

#[verifier::ext_equal]
pub struct StoredRecord {
    pub generation: u64,
    pub layout: StoredHierarchy,
}

impl PersistedPaneLayout {
    pub open spec fn stored(self) -> StoredLayout
        decreases self,
    {
        match self {
            PersistedPaneLayout::Pane(pane) => StoredLayout::Pane {
                id: pane.id,
                directory: pane.launch.working_directory@,
                disposition: pane.launch.restore_disposition,
            },
            PersistedPaneLayout::Split(split) => StoredLayout::Split {
                id: split.id,
                axis: split.axis,
                ratio: split.ratio,
                first: Box::new(split.first.stored()),
                second: Box::new(split.second.stored()),
            },
        }
    }
}

impl View for PersistedPaneLayout {
    type V = StoredLayout;

    open spec fn view(&self) -> StoredLayout {
        self.stored()
    }
}

impl View for PersistedTab {
    type V = StoredTab;

    open spec fn view(&self) -> StoredTab {
        StoredTab { id: self.id, name: self.name@, layout: self.layout@ }
    }
}

impl View for PersistedSpace {
    type V = StoredSpace;

    open spec fn view(&self) -> StoredSpace {
        StoredSpace {
            id: self.id,
            name: self.name@,
            directory: self.directory@,
            tabs: views(self.tabs@),
        }
    }
}

impl View for PersistedCoreLayout {
    type V = StoredHierarchy;

    open spec fn view(&self) -> StoredHierarchy {
        StoredHierarchy { next_id: self.next_id, spaces: views(self.spaces@) }
    }
}

impl View for SnapshotRecord {
    type V = StoredRecord;

    open spec fn view(&self) -> StoredRecord {
        StoredRecord { generation: self.generation, layout: self.layout@ }
    }
}

impl Clone for PersistedPaneLayout {
    fn clone(&self) -> (copy: Self)
        ensures
            copy@ == self@,
        decreases self,
    {
        match self {
            PersistedPaneLayout::Pane(pane) => PersistedPaneLayout::Pane(
                PersistedPane {
                    id: pane.id,
                    launch: PersistedLaunch {
                        working_directory: pane.launch.working_directory.clone(),
                        restore_disposition: pane.launch.restore_disposition,
                    },
                },
            ),
            PersistedPaneLayout::Split(split) => PersistedPaneLayout::Split(
                PersistedSplit {
                    id: split.id,
                    axis: split.axis,
                    ratio: split.ratio,
                    first: Box::new((&*split.first).clone()),
                    second: Box::new((&*split.second).clone()),
                },
            ),
        }
    }
}

impl Clone for PersistedTab {
    fn clone(&self) -> (copy: Self)
        ensures
            copy@ == self@,
    {
        PersistedTab { id: self.id, name: self.name.clone(), layout: self.layout.clone() }
    }
}

impl Clone for PersistedSpace {
    fn clone(&self) -> (copy: Self)
        ensures
            copy@ == self@,
    {
        let tabs = self.tabs.clone();
        proof {
            assert(views(tabs@) =~= views(self.tabs@));
        }
        PersistedSpace {
            id: self.id,
            name: self.name.clone(),
            directory: self.directory.clone(),
            tabs,
        }
    }
}

impl Clone for PersistedCoreLayout {
    fn clone(&self) -> (copy: Self)
        ensures
            copy@ == self@,
    {
        let spaces = self.spaces.clone();
        proof {
            assert(views(spaces@) =~= views(self.spaces@));
        }
        PersistedCoreLayout { next_id: self.next_id, spaces }
    }
}

impl Clone for SnapshotRecord {
    fn clone(&self) -> (copy: Self)
        ensures
            copy@ == self@,
    {
        SnapshotRecord { generation: self.generation, layout: self.layout.clone() }
    }
}

/// Why a record has no binary form, or bytes are not a record.
#[derive(Clone, Copy, Debug, PartialEq, Eq, Structural)]
pub enum Corruption {
    Oversized,
    Magic,
    OlderSchema(u32),
    Generation,
    Truncated,
    TrailingBytes,
    Checksum,
    TooManyItems,
    ValueTooLarge,
    NotUtf8,
    OddPath,
    LayoutTooDeep,
    DispositionTag(u8),
    AxisTag(u8),
    LayoutTag(u8),
    SplitRatio(u16),
}

impl Corruption {
    pub open spec fn spec_message(self) -> Seq<char> {
        match self {
            Corruption::Oversized => "snapshot is oversized"@,
            Corruption::Magic => "invalid snapshot magic"@,
            Corruption::OlderSchema(schema) => "unsupported older snapshot schema "@
                + decimal_chars(schema as nat),
            Corruption::Generation => "snapshot generation is outside the supported range"@,
            Corruption::Truncated => "snapshot is truncated"@,
            Corruption::TrailingBytes => "snapshot has trailing bytes"@,
            Corruption::Checksum => "snapshot checksum mismatch"@,
            Corruption::TooManyItems => "snapshot collection exceeds 16384 items"@,
            Corruption::ValueTooLarge => "snapshot value exceeds 1048576 bytes"@,
            Corruption::NotUtf8 => "snapshot string is not UTF-8"@,
            Corruption::OddPath => "snapshot Windows path has an odd byte length"@,
            Corruption::LayoutTooDeep => "snapshot Pane layout is too deeply nested"@,
            Corruption::DispositionTag(tag) => "invalid Restore Disposition tag "@ + decimal_chars(
                tag as nat,
            ),
            Corruption::AxisTag(tag) => "invalid split axis tag "@ + decimal_chars(tag as nat),
            Corruption::LayoutTag(tag) => "invalid Pane layout tag "@ + decimal_chars(tag as nat),
            Corruption::SplitRatio(parts) => CoreModelError::InvalidSplitRatio(
                parts,
            ).spec_message(),
        }
    }

    pub fn message(self) -> (message: String)
        ensures
            message@ == self.spec_message(),
    {
        match self {
            Corruption::Oversized => "snapshot is oversized".to_owned(),
            Corruption::Magic => "invalid snapshot magic".to_owned(),
            Corruption::OlderSchema(schema) => {
                let mut message = "unsupported older snapshot schema ".to_owned();
                message.append(decimal(schema as u64).as_str());
                message
            },
            Corruption::Generation => {
                "snapshot generation is outside the supported range".to_owned()
            },
            Corruption::Truncated => "snapshot is truncated".to_owned(),
            Corruption::TrailingBytes => "snapshot has trailing bytes".to_owned(),
            Corruption::Checksum => "snapshot checksum mismatch".to_owned(),
            Corruption::TooManyItems => "snapshot collection exceeds 16384 items".to_owned(),
            Corruption::ValueTooLarge => "snapshot value exceeds 1048576 bytes".to_owned(),
            Corruption::NotUtf8 => "snapshot string is not UTF-8".to_owned(),
            Corruption::OddPath => "snapshot Windows path has an odd byte length".to_owned(),
            Corruption::LayoutTooDeep => "snapshot Pane layout is too deeply nested".to_owned(),
            Corruption::DispositionTag(tag) => {
                let mut message = "invalid Restore Disposition tag ".to_owned();
                message.append(decimal(tag as u64).as_str());
                message
            },
            Corruption::AxisTag(tag) => {
                let mut message = "invalid split axis tag ".to_owned();
                message.append(decimal(tag as u64).as_str());
                message
            },
            Corruption::LayoutTag(tag) => {
                let mut message = "invalid Pane layout tag ".to_owned();
                message.append(decimal(tag as u64).as_str());
                message
            },
            Corruption::SplitRatio(parts) => CoreModelError::InvalidSplitRatio(parts).message(),
        }
    }
}

} // verus!
