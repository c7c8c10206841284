//! The forms of commands and of what comes of them.

use super::format::{lemma_tagged, mapped, Id, Parsed, Tag, Wire, WireError};
use crate::bytes::Decoder;
use crate::core_model::{
    CommandView, CoreCommand, CoreModelError, CreatedResource, DirectoryPath, PaneId, ResourceKind,
    SpaceId, SplitAxis, SplitId, SplitPlacement, SplitRatio, TabId, TerminalSessionId,
};
use vstd::prelude::*;
use vstd::string::*;

verus! {

pub type NamedForm = (Id, String);

pub type SplitPaneForm = (Id, (SplitAxis, (SplitPlacement, SplitRatio)));

pub type MovePaneForm = (Id, SplitPaneForm);

impl Wire for CoreCommand {
    open spec fn form(value: CommandView) -> Seq<u8> {
        match value {
            CommandView::CreateSpace { name, directory } => seq![0u8]
                + <(String, DirectoryPath)>::form((name, directory)),
            CommandView::RenameSpace { space_id, name } => seq![1u8] + NamedForm::form(
                (Id(space_id.0), name),
            ),
            CommandView::CreateTab { space_id, name } => seq![2u8] + NamedForm::form(
                (Id(space_id.0), name),
            ),
            CommandView::RenameTab { tab_id, name } => seq![3u8] + NamedForm::form(
                (Id(tab_id.0), name),
            ),
            CommandView::ReorderTab { tab_id, index } => seq![4u8] + <(Id, usize)>::form(
                (Id(tab_id.0), index),
            ),
            CommandView::SplitPane { pane_id, axis, placement, ratio } => seq![5u8]
                + SplitPaneForm::form((Id(pane_id.0), (axis, (placement, ratio)))),
            CommandView::MovePane { pane_id, target_pane_id, axis, placement, ratio } => seq![6u8]
                + MovePaneForm::form(
                (Id(pane_id.0), (Id(target_pane_id.0), (axis, (placement, ratio)))),
            ),
            CommandView::ResizeSplit { split_id, ratio } => seq![7u8] + <(Id, SplitRatio)>::form(
                (Id(split_id.0), ratio),
            ),
            CommandView::ClosePane { pane_id } => seq![8u8] + Id::form(Id(pane_id.0)),
            CommandView::CloseTab { tab_id } => seq![9u8] + Id::form(Id(tab_id.0)),
            CommandView::CloseSpace { space_id } => seq![10u8] + Id::form(Id(space_id.0)),
        }
    }

    open spec fn refusal(value: CommandView) -> Option<WireError> {
        match value {
            CommandView::CreateSpace { name, directory } => <(String, DirectoryPath)>::refusal(
                (name, directory),
            ),
            CommandView::RenameSpace { name, .. } => String::refusal(name),
            CommandView::CreateTab { name, .. } => String::refusal(name),
            CommandView::RenameTab { name, .. } => String::refusal(name),
            CommandView::ReorderTab { index, .. } => usize::refusal(index),
            _ => None,
        }
    }

    open spec fn parse(input: Seq<u8>) -> Parsed<CommandView> {
        match u8::parse(input) {
            Err(error) => Err(error),
            Ok((tag, rest)) => if tag == 0 {
                mapped(
                    <(String, DirectoryPath)>::parse(rest),
                    |fields: (Seq<char>, Seq<u8>)|
                        CommandView::CreateSpace { name: fields.0, directory: fields.1 },
                )
            } else if tag == 1 {
                mapped(
                    NamedForm::parse(rest),
                    |fields: (Id, Seq<char>)|
                        CommandView::RenameSpace { space_id: SpaceId(fields.0.0), name: fields.1 },
                )
            } else if tag == 2 {
                mapped(
                    NamedForm::parse(rest),
                    |fields: (Id, Seq<char>)|
                        CommandView::CreateTab { space_id: SpaceId(fields.0.0), name: fields.1 },
                )
            } else if tag == 3 {
                mapped(
                    NamedForm::parse(rest),
                    |fields: (Id, Seq<char>)|
                        CommandView::RenameTab { tab_id: TabId(fields.0.0), name: fields.1 },
                )
            } else if tag == 4 {
                mapped(
                    <(Id, usize)>::parse(rest),
                    |fields: (Id, usize)|
                        CommandView::ReorderTab { tab_id: TabId(fields.0.0), index: fields.1 },
                )
            } else if tag == 5 {
                mapped(
                    SplitPaneForm::parse(rest),
                    |fields: (Id, (SplitAxis, (SplitPlacement, SplitRatio)))|
                        CommandView::SplitPane {
                            pane_id: PaneId(fields.0.0),
                            axis: fields.1.0,
                            placement: fields.1.1.0,
                            ratio: fields.1.1.1,
                        },
                )
            } else if tag == 6 {
                mapped(
                    MovePaneForm::parse(rest),
                    |fields: (Id, (Id, (SplitAxis, (SplitPlacement, SplitRatio))))|
                        CommandView::MovePane {
                            pane_id: PaneId(fields.0.0),
                            target_pane_id: PaneId(fields.1.0.0),
                            axis: fields.1.1.0,
                            placement: fields.1.1.1.0,
                            ratio: fields.1.1.1.1,
                        },
                )
            } else if tag == 7 {
                mapped(
                    <(Id, SplitRatio)>::parse(rest),
                    |fields: (Id, SplitRatio)|
                        CommandView::ResizeSplit {
                            split_id: SplitId(fields.0.0),
                            ratio: fields.1,
                        },
                )
            } else if tag == 8 {
                mapped(
                    Id::parse(rest),
                    |id: Id| CommandView::ClosePane { pane_id: PaneId(id.0) },
                )
            } else if tag == 9 {
                mapped(Id::parse(rest), |id: Id| CommandView::CloseTab { tab_id: TabId(id.0) })
            } else if tag == 10 {
                mapped(
                    Id::parse(rest),
                    |id: Id| CommandView::CloseSpace { space_id: SpaceId(id.0) },
                )
            } else {
                Err(WireError::InvalidTag(Tag::CoreCommand))
            },
        }
    }

    open spec fn readable(value: CommandView) -> bool {
        match value {
            CommandView::CreateSpace { .. } => true,
            CommandView::RenameSpace { space_id, .. } => space_id.0 != 0,
            CommandView::CreateTab { space_id, .. } => space_id.0 != 0,
            CommandView::RenameTab { tab_id, .. } => tab_id.0 != 0,
            CommandView::ReorderTab { tab_id, .. } => tab_id.0 != 0,
            CommandView::SplitPane { pane_id, ratio, .. } => pane_id.0 != 0
                && SplitRatio::readable(ratio),
            CommandView::MovePane { pane_id, target_pane_id, ratio, .. } => pane_id.0 != 0
                && target_pane_id.0 != 0 && SplitRatio::readable(ratio),
            CommandView::ResizeSplit { split_id, ratio } => split_id.0 != 0
                && SplitRatio::readable(ratio),
            CommandView::ClosePane { pane_id } => pane_id.0 != 0,
            CommandView::CloseTab { tab_id } => tab_id.0 != 0,
            CommandView::CloseSpace { space_id } => space_id.0 != 0,
        }
    }

    open spec fn received(value: CommandView) -> CommandView {
        value
    }

    proof fn round_trip(value: CommandView, rest: Seq<u8>) {
        match value {
            CommandView::CreateSpace { name, directory } => {
                <(String, DirectoryPath)>::round_trip((name, directory), rest);
                lemma_tagged(0, <(String, DirectoryPath)>::form((name, directory)), rest);
            },
            CommandView::RenameSpace { space_id, name } => {
                NamedForm::round_trip((Id(space_id.0), name), rest);
                lemma_tagged(1, NamedForm::form((Id(space_id.0), name)), rest);
            },
            CommandView::CreateTab { space_id, name } => {
                NamedForm::round_trip((Id(space_id.0), name), rest);
                lemma_tagged(2, NamedForm::form((Id(space_id.0), name)), rest);
            },
            CommandView::RenameTab { tab_id, name } => {
                NamedForm::round_trip((Id(tab_id.0), name), rest);
                lemma_tagged(3, NamedForm::form((Id(tab_id.0), name)), rest);
            },
            CommandView::ReorderTab { tab_id, index } => {
                <(Id, usize)>::round_trip((Id(tab_id.0), index), rest);
                lemma_tagged(4, <(Id, usize)>::form((Id(tab_id.0), index)), rest);
            },
            CommandView::SplitPane { pane_id, axis, placement, ratio } => {
                let fields = (Id(pane_id.0), (axis, (placement, ratio)));
                SplitPaneForm::round_trip(fields, rest);
                lemma_tagged(5, SplitPaneForm::form(fields), rest);
            },
            CommandView::MovePane { pane_id, target_pane_id, axis, placement, ratio } => {
                let fields = (Id(pane_id.0), (Id(target_pane_id.0), (axis, (placement, ratio))));
                MovePaneForm::round_trip(fields, rest);
                lemma_tagged(6, MovePaneForm::form(fields), rest);
            },
            CommandView::ResizeSplit { split_id, ratio } => {
                <(Id, SplitRatio)>::round_trip((Id(split_id.0), ratio), rest);
                lemma_tagged(7, <(Id, SplitRatio)>::form((Id(split_id.0), ratio)), rest);
            },
            CommandView::ClosePane { pane_id } => {
                Id::round_trip(Id(pane_id.0), rest);
                lemma_tagged(8, Id::form(Id(pane_id.0)), rest);
            },
            CommandView::CloseTab { tab_id } => {
                Id::round_trip(Id(tab_id.0), rest);
                lemma_tagged(9, Id::form(Id(tab_id.0)), rest);
            },
            CommandView::CloseSpace { space_id } => {
                Id::round_trip(Id(space_id.0), rest);
                lemma_tagged(10, Id::form(Id(space_id.0)), rest);
            },
        }
    }

    fn put(&self, output: &mut Vec<u8>) -> (result: Result<(), WireError>) {
        let result = match self {
            CoreCommand::CreateSpace { name, directory } => {
                output.push(0);
                match name.put(output) {
                    Ok(_) => directory.put(output),
                    Err(error) => Err(error),
                }
            },
            CoreCommand::RenameSpace { space_id, name } => {
                let _ = (1u8, Id(space_id.0)).put(output);
                name.put(output)
            },
            CoreCommand::CreateTab { space_id, name } => {
                let _ = (2u8, Id(space_id.0)).put(output);
                name.put(output)
            },
            CoreCommand::RenameTab { tab_id, name } => {
                let _ = (3u8, Id(tab_id.0)).put(output);
                name.put(output)
            },
            CoreCommand::ReorderTab { tab_id, index } => {
                let _ = (4u8, Id(tab_id.0)).put(output);
                index.put(output)
            },
            CoreCommand::SplitPane { pane_id, axis, placement, ratio } => {
                (5u8, (Id(pane_id.0), (*axis, (*placement, *ratio)))).put(output)
            },
            CoreCommand::MovePane { pane_id, target_pane_id, axis, placement, ratio } => {
                (
                    6u8,
                    (Id(pane_id.0), (Id(target_pane_id.0), (*axis, (*placement, *ratio)))),
                ).put(output)
            },
            CoreCommand::ResizeSplit { split_id, ratio } => {
                (7u8, (Id(split_id.0), *ratio)).put(output)
            },
            CoreCommand::ClosePane { pane_id } => (8u8, Id(pane_id.0)).put(output),
            CoreCommand::CloseTab { tab_id } => (9u8, Id(tab_id.0)).put(output),
            CoreCommand::CloseSpace { space_id } => (10u8, Id(space_id.0)).put(output),
        };
        proof {
            if result is Ok {
                assert(output@ =~= old(output)@ + Self::form(self@));
            }
        }
        result
    }

    fn get(decoder: &mut Decoder<'_>) -> (result: Result<CoreCommand, WireError>) {
        match u8::get(decoder) {
            Err(error) => Err(error),
            Ok(0) => match <(String, DirectoryPath)>::get(decoder) {
                Ok((name, directory)) => Ok(CoreCommand::CreateSpace { name, directory }),
                Err(error) => Err(error),
            },
            Ok(1) => match NamedForm::get(decoder) {
                Ok((id, name)) => Ok(CoreCommand::RenameSpace { space_id: SpaceId(id.0), name }),
                Err(error) => Err(error),
            },
            Ok(2) => match NamedForm::get(decoder) {
                Ok((id, name)) => Ok(CoreCommand::CreateTab { space_id: SpaceId(id.0), name }),
                Err(error) => Err(error),
            },
            Ok(3) => match NamedForm::get(decoder) {
                Ok((id, name)) => Ok(CoreCommand::RenameTab { tab_id: TabId(id.0), name }),
                Err(error) => Err(error),
            },
            Ok(4) => match <(Id, usize)>::get(decoder) {
                Ok((id, index)) => Ok(CoreCommand::ReorderTab { tab_id: TabId(id.0), index }),
                Err(error) => Err(error),
            },
            Ok(5) => match SplitPaneForm::get(decoder) {
                Ok((id, (axis, (placement, ratio)))) => Ok(
                    CoreCommand::SplitPane { pane_id: PaneId(id.0), axis, placement, ratio },
                ),
                Err(error) => Err(error),
            },
            Ok(6) => match MovePaneForm::get(decoder) {
                Ok((id, (target, (axis, (placement, ratio))))) => Ok(
                    CoreCommand::MovePane {
                        pane_id: PaneId(id.0),
                        target_pane_id: PaneId(target.0),
                        axis,
                        placement,
                        ratio,
                    },
                ),
                Err(error) => Err(error),
            },
            Ok(7) => match <(Id, SplitRatio)>::get(decoder) {
                Ok((id, ratio)) => Ok(CoreCommand::ResizeSplit { split_id: SplitId(id.0), ratio }),
                Err(error) => Err(error),
            },
            Ok(8) => match Id::get(decoder) {
                Ok(id) => Ok(CoreCommand::ClosePane { pane_id: PaneId(id.0) }),
                Err(error) => Err(error),
            },
            Ok(9) => match Id::get(decoder) {
                Ok(id) => Ok(CoreCommand::CloseTab { tab_id: TabId(id.0) }),
                Err(error) => Err(error),
            },
            Ok(10) => match Id::get(decoder) {
                Ok(id) => Ok(CoreCommand::CloseSpace { space_id: SpaceId(id.0) }),
                Err(error) => Err(error),
            },
            Ok(_) => Err(WireError::InvalidTag(Tag::CoreCommand)),
        }
    }
}

/// Reads a command.
pub fn decode_core_command(decoder: &mut Decoder<'_>) -> (result: Result<CoreCommand, WireError>)
    ensures
        match CoreCommand::parse(old(decoder)@) {
            Ok((command, rest)) => result is Ok && result->Ok_0@ == command && final(decoder)@
                == rest,
            Err(error) => result is Err && result->Err_0 == error,
        },
{
    CoreCommand::get(decoder)
}

impl View for CreatedResource {
    type V = CreatedResource;

    open spec fn view(&self) -> CreatedResource {
        *self
    }
}

pub type ThreeIds = (Id, (Id, Id));

pub type FourIds = (Id, ThreeIds);

impl Wire for CreatedResource {
    open spec fn form(value: CreatedResource) -> Seq<u8> {
        match value {
            CreatedResource::Nothing => seq![0u8],
            CreatedResource::Space { space_id, tab_id, pane_id, terminal_session_id } => seq![1u8]
                + FourIds::form(
                (Id(space_id.0), (Id(tab_id.0), (Id(pane_id.0), Id(terminal_session_id.0)))),
            ),
            CreatedResource::Tab { tab_id, pane_id, terminal_session_id } => seq![2u8]
                + ThreeIds::form((Id(tab_id.0), (Id(pane_id.0), Id(terminal_session_id.0)))),
            CreatedResource::Pane { pane_id, split_id, terminal_session_id } => seq![3u8]
                + ThreeIds::form((Id(pane_id.0), (Id(split_id.0), Id(terminal_session_id.0)))),
        }
    }

    open spec fn refusal(value: CreatedResource) -> Option<WireError> {
        None
    }

    open spec fn parse(input: Seq<u8>) -> Parsed<CreatedResource> {
        match u8::parse(input) {
            Err(error) => Err(error),
            Ok((tag, rest)) => if tag == 0 {
                Ok((CreatedResource::Nothing, rest))
            } else if tag == 1 {
                mapped(
                    FourIds::parse(rest),
                    |ids: (Id, (Id, (Id, Id)))|
                        CreatedResource::Space {
                            space_id: SpaceId(ids.0.0),
                            tab_id: TabId(ids.1.0.0),
                            pane_id: PaneId(ids.1.1.0.0),
                            terminal_session_id: TerminalSessionId(ids.1.1.1.0),
                        },
                )
            } else if tag == 2 {
                mapped(
                    ThreeIds::parse(rest),
                    |ids: (Id, (Id, Id))|
                        CreatedResource::Tab {
                            tab_id: TabId(ids.0.0),
                            pane_id: PaneId(ids.1.0.0),
                            terminal_session_id: TerminalSessionId(ids.1.1.0),
                        },
                )
            } else if tag == 3 {
                mapped(
                    ThreeIds::parse(rest),
                    |ids: (Id, (Id, Id))|
                        CreatedResource::Pane {
                            pane_id: PaneId(ids.0.0),
                            split_id: SplitId(ids.1.0.0),
                            terminal_session_id: TerminalSessionId(ids.1.1.0),
                        },
                )
            } else {
                Err(WireError::InvalidTag(Tag::CreatedResource))
            },
        }
    }

    open spec fn readable(value: CreatedResource) -> bool {
        match value {
            CreatedResource::Nothing => true,
            CreatedResource::Space { space_id, tab_id, pane_id, terminal_session_id } => space_id.0
                != 0 && tab_id.0 != 0 && pane_id.0 != 0 && terminal_session_id.0 != 0,
            CreatedResource::Tab { tab_id, pane_id, terminal_session_id } => tab_id.0 != 0
                && pane_id.0 != 0 && terminal_session_id.0 != 0,
            CreatedResource::Pane { pane_id, split_id, terminal_session_id } => pane_id.0 != 0
                && split_id.0 != 0 && terminal_session_id.0 != 0,
        }
    }

    open spec fn received(value: CreatedResource) -> CreatedResource {
        value
    }

    proof fn round_trip(value: CreatedResource, rest: Seq<u8>) {
        match value {
            CreatedResource::Nothing => {
                u8::round_trip(0, rest);
            },
            CreatedResource::Space { space_id, tab_id, pane_id, terminal_session_id } => {
                let ids = (
                    Id(space_id.0),
                    (Id(tab_id.0), (Id(pane_id.0), Id(terminal_session_id.0))),
                );
                FourIds::round_trip(ids, rest);
                lemma_tagged(1, FourIds::form(ids), rest);
            },
            CreatedResource::Tab { tab_id, pane_id, terminal_session_id } => {
                let ids = (Id(tab_id.0), (Id(pane_id.0), Id(terminal_session_id.0)));
                ThreeIds::round_trip(ids, rest);
                lemma_tagged(2, ThreeIds::form(ids), rest);
            },
            CreatedResource::Pane { pane_id, split_id, terminal_session_id } => {
                let ids = (Id(pane_id.0), (Id(split_id.0), Id(terminal_session_id.0)));
                ThreeIds::round_trip(ids, rest);
                lemma_tagged(3, ThreeIds::form(ids), rest);
            },
        }
    }

    fn put(&self, output: &mut Vec<u8>) -> (result: Result<(), WireError>) {
        match *self {
            CreatedResource::Nothing => 0u8.put(output),
            CreatedResource::Space { space_id, tab_id, pane_id, terminal_session_id } => {
                (
                    1u8,
                    (Id(space_id.0), (Id(tab_id.0), (Id(pane_id.0), Id(terminal_session_id.0)))),
                ).put(output)
            },
            CreatedResource::Tab { tab_id, pane_id, terminal_session_id } => {
                (2u8, (Id(tab_id.0), (Id(pane_id.0), Id(terminal_session_id.0)))).put(output)
            },
            CreatedResource::Pane { pane_id, split_id, terminal_session_id } => {
                (3u8, (Id(pane_id.0), (Id(split_id.0), Id(terminal_session_id.0)))).put(output)
            },
        }
    }

    fn get(decoder: &mut Decoder<'_>) -> (result: Result<CreatedResource, WireError>) {
        match u8::get(decoder) {
            Err(error) => Err(error),
            Ok(0) => Ok(CreatedResource::Nothing),
            Ok(1) => match FourIds::get(decoder) {
                Ok((space, (tab, (pane, session)))) => Ok(
                    CreatedResource::Space {
                        space_id: SpaceId(space.0),
                        tab_id: TabId(tab.0),
                        pane_id: PaneId(pane.0),
                        terminal_session_id: TerminalSessionId(session.0),
                    },
                ),
                Err(error) => Err(error),
            },
            Ok(2) => match ThreeIds::get(decoder) {
                Ok((tab, (pane, session))) => Ok(
                    CreatedResource::Tab {
                        tab_id: TabId(tab.0),
                        pane_id: PaneId(pane.0),
                        terminal_session_id: TerminalSessionId(session.0),
                    },
                ),
                Err(error) => Err(error),
            },
            Ok(3) => match ThreeIds::get(decoder) {
                Ok((pane, (split, session))) => Ok(
                    CreatedResource::Pane {
                        pane_id: PaneId(pane.0),
                        split_id: SplitId(split.0),
                        terminal_session_id: TerminalSessionId(session.0),
                    },
                ),
                Err(error) => Err(error),
            },
            Ok(_) => Err(WireError::InvalidTag(Tag::CreatedResource)),
        }
    }
}

impl View for ResourceKind {
    type V = ResourceKind;

    open spec fn view(&self) -> ResourceKind {
        *self
    }
}

impl Wire for ResourceKind {
    open spec fn form(value: ResourceKind) -> Seq<u8> {
        match value {
            ResourceKind::Space => seq![0u8],
            ResourceKind::Tab => seq![1u8],
            ResourceKind::Pane => seq![2u8],
            ResourceKind::Split => seq![3u8],
            ResourceKind::TerminalSession => seq![4u8],
        }
    }

    open spec fn refusal(value: ResourceKind) -> Option<WireError> {
        None
    }

    open spec fn parse(input: Seq<u8>) -> Parsed<ResourceKind> {
        match u8::parse(input) {
            Err(error) => Err(error),
            Ok((tag, rest)) => if tag == 0 {
                Ok((ResourceKind::Space, rest))
            } else if tag == 1 {
                Ok((ResourceKind::Tab, rest))
            } else if tag == 2 {
                Ok((ResourceKind::Pane, rest))
            } else if tag == 3 {
                Ok((ResourceKind::Split, rest))
            } else if tag == 4 {
                Ok((ResourceKind::TerminalSession, rest))
            } else {
                Err(WireError::InvalidTag(Tag::ResourceKind))
            },
        }
    }

    open spec fn readable(value: ResourceKind) -> bool {
        true
    }

    open spec fn received(value: ResourceKind) -> ResourceKind {
        value
    }

    proof fn round_trip(value: ResourceKind, rest: Seq<u8>) {
        u8::round_trip(Self::form(value)[0], rest);
    }

    fn put(&self, output: &mut Vec<u8>) -> (result: Result<(), WireError>) {
        match self {
            ResourceKind::Space => 0u8.put(output),
            ResourceKind::Tab => 1u8.put(output),
            ResourceKind::Pane => 2u8.put(output),
            ResourceKind::Split => 3u8.put(output),
            ResourceKind::TerminalSession => 4u8.put(output),
        }
    }

    fn get(decoder: &mut Decoder<'_>) -> (result: Result<ResourceKind, WireError>) {
        match u8::get(decoder) {
            Err(error) => Err(error),
            Ok(0) => Ok(ResourceKind::Space),
            Ok(1) => Ok(ResourceKind::Tab),
            Ok(2) => Ok(ResourceKind::Pane),
            Ok(3) => Ok(ResourceKind::Split),
            Ok(4) => Ok(ResourceKind::TerminalSession),
            Ok(_) => Err(WireError::InvalidTag(Tag::ResourceKind)),
        }
    }
}

impl View for CoreModelError {
    type V = CoreModelError;

    open spec fn view(&self) -> CoreModelError {
        *self
    }
}

impl Wire for CoreModelError {
    open spec fn form(value: CoreModelError) -> Seq<u8> {
        match value {
            CoreModelError::StaleRevision { expected, actual } => seq![0u8] + <(u64, u64)>::form(
                (expected, actual),
            ),
            CoreModelError::NotFound { kind, id } => seq![1u8] + <(ResourceKind, u64)>::form(
                (kind, id),
            ),
            CoreModelError::InvalidName => seq![2u8],
            CoreModelError::InvalidDirectory => seq![3u8],
            CoreModelError::InvalidSplitRatio(ratio) => seq![4u8] + u16::form(ratio),
            CoreModelError::TabIndexOutOfBounds { index, tab_count } => seq![5u8]
                + <(usize, usize)>::form((index, tab_count)),
            CoreModelError::CannotMovePaneOntoItself => seq![6u8],
        }
    }

    open spec fn refusal(value: CoreModelError) -> Option<WireError> {
        match value {
            CoreModelError::TabIndexOutOfBounds { index, tab_count } => <(usize, usize)>::refusal(
                (index, tab_count),
            ),
            _ => None,
        }
    }

    open spec fn parse(input: Seq<u8>) -> Parsed<CoreModelError> {
        match u8::parse(input) {
            Err(error) => Err(error),
            Ok((tag, rest)) => if tag == 0 {
                mapped(
                    <(u64, u64)>::parse(rest),
                    |fields: (u64, u64)|
                        CoreModelError::StaleRevision { expected: fields.0, actual: fields.1 },
                )
            } else if tag == 1 {
                mapped(
                    <(ResourceKind, u64)>::parse(rest),
                    |fields: (ResourceKind, u64)|
                        CoreModelError::NotFound { kind: fields.0, id: fields.1 },
                )
            } else if tag == 2 {
                Ok((CoreModelError::InvalidName, rest))
            } else if tag == 3 {
                Ok((CoreModelError::InvalidDirectory, rest))
            } else if tag == 4 {
                mapped(
                    u16::parse(rest),
                    |ratio: u16| CoreModelError::InvalidSplitRatio(ratio),
                )
            } else if tag == 5 {
                mapped(
                    <(usize, usize)>::parse(rest),
                    |fields: (usize, usize)|
                        CoreModelError::TabIndexOutOfBounds {
                            index: fields.0,
                            tab_count: fields.1,
                        },
                )
            } else if tag == 6 {
                Ok((CoreModelError::CannotMovePaneOntoItself, rest))
            } else {
                Err(WireError::InvalidTag(Tag::CoreModelError))
            },
        }
    }

    open spec fn readable(value: CoreModelError) -> bool {
        true
    }

    open spec fn received(value: CoreModelError) -> CoreModelError {
        value
    }

    proof fn round_trip(value: CoreModelError, rest: Seq<u8>) {
        match value {
            CoreModelError::StaleRevision { expected, actual } => {
                <(u64, u64)>::round_trip((expected, actual), rest);
                lemma_tagged(0, <(u64, u64)>::form((expected, actual)), rest);
            },
            CoreModelError::NotFound { kind, id } => {
                <(ResourceKind, u64)>::round_trip((kind, id), rest);
                lemma_tagged(1, <(ResourceKind, u64)>::form((kind, id)), rest);
            },
            CoreModelError::InvalidName => {
                u8::round_trip(2, rest);
            },
            CoreModelError::InvalidDirectory => {
                u8::round_trip(3, rest);
            },
            CoreModelError::InvalidSplitRatio(ratio) => {
                u16::round_trip(ratio, rest);
                lemma_tagged(4, u16::form(ratio), rest);
            },
            CoreModelError::TabIndexOutOfBounds { index, tab_count } => {
                <(usize, usize)>::round_trip((index, tab_count), rest);
                lemma_tagged(5, <(usize, usize)>::form((index, tab_count)), rest);
            },
            CoreModelError::CannotMovePaneOntoItself => {
                u8::round_trip(6, rest);
            },
        }
    }

    fn put(&self, output: &mut Vec<u8>) -> (result: Result<(), WireError>) {
        match *self {
            CoreModelError::StaleRevision { expected, actual } => {
                (0u8, (expected, actual)).put(output)
            },
            CoreModelError::NotFound { kind, id } => (1u8, (kind, id)).put(output),
            CoreModelError::InvalidName => 2u8.put(output),
            CoreModelError::InvalidDirectory => 3u8.put(output),
            CoreModelError::InvalidSplitRatio(ratio) => (4u8, ratio).put(output),
            CoreModelError::TabIndexOutOfBounds { index, tab_count } => {
                (5u8, (index, tab_count)).put(output)
            },
            CoreModelError::CannotMovePaneOntoItself => 6u8.put(output),
        }
    }

    fn get(decoder: &mut Decoder<'_>) -> (result: Result<CoreModelError, WireError>) {
        match u8::get(decoder) {
            Err(error) => Err(error),
            Ok(0) => match <(u64, u64)>::get(decoder) {
                Ok((expected, actual)) => Ok(CoreModelError::StaleRevision { expected, actual }),
                Err(error) => Err(error),
            },
            Ok(1) => match <(ResourceKind, u64)>::get(decoder) {
                Ok((kind, id)) => Ok(CoreModelError::NotFound { kind, id }),
                Err(error) => Err(error),
            },
            Ok(2) => Ok(CoreModelError::InvalidName),
            Ok(3) => Ok(CoreModelError::InvalidDirectory),
            Ok(4) => match u16::get(decoder) {
                Ok(ratio) => Ok(CoreModelError::InvalidSplitRatio(ratio)),
                Err(error) => Err(error),
            },
            Ok(5) => match <(usize, usize)>::get(decoder) {
                Ok((index, tab_count)) => Ok(
                    CoreModelError::TabIndexOutOfBounds { index, tab_count },
                ),
                Err(error) => Err(error),
            },
            Ok(6) => Ok(CoreModelError::CannotMovePaneOntoItself),
            Ok(_) => Err(WireError::InvalidTag(Tag::CoreModelError)),
        }
    }
}

} // verus!
