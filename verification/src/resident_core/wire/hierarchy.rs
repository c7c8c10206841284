//! The forms of a hierarchy and its parts.

use super::format::{put_list, Id, Items, Parsed, Tag, Wire, WireError, WireItem, mapped};
use crate::bytes::Decoder;
use crate::core_model::{
    CoreSnapshot, DirectoryPath, HierarchyView, PaneId, PaneLayout, PaneSnapshot, SessionView,
    SpaceId, SpaceSnapshot, SpaceView, SplitAxis, SplitId, SplitPlacement, SplitRatio,
    SplitSnapshot, TabId, TabSnapshot, TabView, TerminalLaunch, TerminalSessionId,
    TerminalSessionSnapshot,
};
use vstd::prelude::*;

verus! {

/// How deep splits may be nested.
pub const MAX_LAYOUT_DEPTH: usize = 64;

impl View for SplitAxis {
    type V = SplitAxis;

    open spec fn view(&self) -> SplitAxis {
        *self
    }
}

impl Wire for SplitAxis {
    open spec fn form(value: SplitAxis) -> Seq<u8> {
        match value {
            SplitAxis::Horizontal => seq![0u8],
            SplitAxis::Vertical => seq![1u8],
        }
    }

    open spec fn refusal(value: SplitAxis) -> Option<WireError> {
        None
    }

    open spec fn parse(input: Seq<u8>) -> Parsed<SplitAxis> {
        match u8::parse(input) {
            Ok((tag, rest)) => if tag == 0 {
                Ok((SplitAxis::Horizontal, rest))
            } else if tag == 1 {
                Ok((SplitAxis::Vertical, rest))
            } else {
                Err(WireError::InvalidTag(Tag::SplitAxis))
            },
            Err(error) => Err(error),
        }
    }

    open spec fn readable(value: SplitAxis) -> bool {
        true
    }

    open spec fn received(value: SplitAxis) -> SplitAxis {
        value
    }

    proof fn round_trip(value: SplitAxis, rest: Seq<u8>) {
        u8::round_trip(Self::form(value)[0], rest);
    }

    fn put(&self, output: &mut Vec<u8>) -> (result: Result<(), WireError>) {
        match self {
            SplitAxis::Horizontal => 0u8.put(output),
            SplitAxis::Vertical => 1u8.put(output),
        }
    }

    fn get(decoder: &mut Decoder<'_>) -> (result: Result<SplitAxis, WireError>) {
        match u8::get(decoder) {
            Ok(0) => Ok(SplitAxis::Horizontal),
            Ok(1) => Ok(SplitAxis::Vertical),
            Ok(_) => Err(WireError::InvalidTag(Tag::SplitAxis)),
            Err(error) => Err(error),
        }
    }
}

impl View for SplitPlacement {
    type V = SplitPlacement;

    open spec fn view(&self) -> SplitPlacement {
        *self
    }
}

impl Wire for SplitPlacement {
    open spec fn form(value: SplitPlacement) -> Seq<u8> {
        match value {
            SplitPlacement::Before => seq![0u8],
            SplitPlacement::After => seq![1u8],
        }
    }

    open spec fn refusal(value: SplitPlacement) -> Option<WireError> {
        None
    }

    open spec fn parse(input: Seq<u8>) -> Parsed<SplitPlacement> {
        match u8::parse(input) {
            Ok((tag, rest)) => if tag == 0 {
                Ok((SplitPlacement::Before, rest))
            } else if tag == 1 {
                Ok((SplitPlacement::After, rest))
            } else {
                Err(WireError::InvalidTag(Tag::SplitPlacement))
            },
            Err(error) => Err(error),
        }
    }

    open spec fn readable(value: SplitPlacement) -> bool {
        true
    }

    open spec fn received(value: SplitPlacement) -> SplitPlacement {
        value
    }

    proof fn round_trip(value: SplitPlacement, rest: Seq<u8>) {
        u8::round_trip(Self::form(value)[0], rest);
    }

    fn put(&self, output: &mut Vec<u8>) -> (result: Result<(), WireError>) {
        match self {
            SplitPlacement::Before => 0u8.put(output),
            SplitPlacement::After => 1u8.put(output),
        }
    }

    fn get(decoder: &mut Decoder<'_>) -> (result: Result<SplitPlacement, WireError>) {
        match u8::get(decoder) {
            Ok(0) => Ok(SplitPlacement::Before),
            Ok(1) => Ok(SplitPlacement::After),
            Ok(_) => Err(WireError::InvalidTag(Tag::SplitPlacement)),
            Err(error) => Err(error),
        }
    }
}

impl View for SplitRatio {
    type V = SplitRatio;

    open spec fn view(&self) -> SplitRatio {
        *self
    }
}

impl Wire for SplitRatio {
    open spec fn form(value: SplitRatio) -> Seq<u8> {
        u16::form(value.parts())
    }

    open spec fn refusal(value: SplitRatio) -> Option<WireError> {
        None
    }

    open spec fn parse(input: Seq<u8>) -> Parsed<SplitRatio> {
        match u16::parse(input) {
            Ok((parts, rest)) => if SplitRatio::valid_parts(parts) {
                Ok((SplitRatio::of_parts(parts), rest))
            } else {
                Err(WireError::InvalidSplitRatio(parts))
            },
            Err(error) => Err(error),
        }
    }

    open spec fn readable(value: SplitRatio) -> bool {
        SplitRatio::valid_parts(value.parts())
    }

    open spec fn received(value: SplitRatio) -> SplitRatio {
        value
    }

    proof fn round_trip(value: SplitRatio, rest: Seq<u8>) {
        u16::round_trip(value.parts(), rest);
        value.lemma_of_parts(value.parts());
    }

    fn put(&self, output: &mut Vec<u8>) -> (result: Result<(), WireError>) {
        self.parts_per_thousand().put(output)
    }

    fn get(decoder: &mut Decoder<'_>) -> (result: Result<SplitRatio, WireError>) {
        match u16::get(decoder) {
            Ok(parts) => match SplitRatio::new(parts) {
                Ok(ratio) => Ok(ratio),
                Err(_) => Err(WireError::InvalidSplitRatio(parts)),
            },
            Err(error) => Err(error),
        }
    }
}

impl View for PaneLayout {
    type V = PaneLayout;

    open spec fn view(&self) -> PaneLayout {
        *self
    }
}

/// The fields of a Pane: its identity and its session's.
pub type PaneForm = (Id, Id);

/// The fields of a split before its two sides.
pub type SplitForm = (Id, (SplitAxis, SplitRatio));

pub open spec fn pane_fields(pane: PaneSnapshot) -> (Id, Id) {
    (Id(pane.id.0), Id(pane.terminal_session_id.0))
}

pub open spec fn split_fields(split: SplitSnapshot) -> (Id, (SplitAxis, SplitRatio)) {
    (Id(split.id.0), (split.axis, split.ratio))
}

pub open spec fn layout_form(layout: PaneLayout) -> Seq<u8>
    decreases layout,
{
    match layout {
        PaneLayout::Pane(pane) => seq![0u8] + PaneForm::form(pane_fields(pane)),
        PaneLayout::Split(split) => seq![1u8] + (SplitForm::form(split_fields(split)) + (
        layout_form(*split.first) + layout_form(*split.second))),
    }
}

/// The objection to a layout at nesting `depth`.
pub open spec fn layout_refusal(layout: PaneLayout, depth: nat) -> Option<WireError>
    decreases layout,
{
    if depth >= MAX_LAYOUT_DEPTH {
        Some(WireError::LayoutTooDeep)
    } else {
        match layout {
            PaneLayout::Pane(_) => None,
            PaneLayout::Split(split) => match layout_refusal(*split.first, depth + 1) {
                Some(error) => Some(error),
                None => layout_refusal(*split.second, depth + 1),
            },
        }
    }
}

pub open spec fn layout_readable(layout: PaneLayout) -> bool
    decreases layout,
{
    match layout {
        PaneLayout::Pane(pane) => PaneForm::readable(pane_fields(pane)),
        PaneLayout::Split(split) => SplitForm::readable(split_fields(split)) && layout_readable(
            *split.first,
        ) && layout_readable(*split.second),
    }
}

/// The layout at the front of `input`, at nesting `depth`.
pub open spec fn parse_layout(input: Seq<u8>, depth: nat) -> Parsed<PaneLayout>
    decreases MAX_LAYOUT_DEPTH - depth,
{
    if depth >= MAX_LAYOUT_DEPTH {
        Err(WireError::LayoutTooDeep)
    } else {
        match u8::parse(input) {
            Err(error) => Err(error),
            Ok((tag, rest)) => if tag == 0 {
                mapped(
                    PaneForm::parse(rest),
                    |fields: (Id, Id)|
                        PaneLayout::Pane(
                            PaneSnapshot {
                                id: PaneId(fields.0.0),
                                terminal_session_id: TerminalSessionId(fields.1.0),
                            },
                        ),
                )
            } else if tag == 1 {
                match SplitForm::parse(rest) {
                    Err(error) => Err(error),
                    Ok((fields, rest)) => match parse_layout(rest, depth + 1) {
                        Err(error) => Err(error),
                        Ok((first, rest)) => match parse_layout(rest, depth + 1) {
                            Err(error) => Err(error),
                            Ok((second, rest)) => Ok(
                                (
                                    PaneLayout::Split(
                                        SplitSnapshot {
                                            id: SplitId(fields.0.0),
                                            axis: fields.1.0,
                                            ratio: fields.1.1,
                                            first: Box::new(first),
                                            second: Box::new(second),
                                        },
                                    ),
                                    rest,
                                ),
                            ),
                        },
                    },
                }
            } else {
                Err(WireError::InvalidTag(Tag::PaneLayout))
            },
        }
    }
}

/// How a split is read, part by part.
proof fn lemma_split_parts(
    split: SplitSnapshot,
    depth: nat,
    input: Seq<u8>,
    after_tag: Seq<u8>,
    after_fields: Seq<u8>,
    after_first: Seq<u8>,
    rest: Seq<u8>,
)
    requires
        depth < MAX_LAYOUT_DEPTH,
        u8::parse(input) == Parsed::<u8>::Ok((1, after_tag)),
        SplitForm::parse(after_tag) == Parsed::<(Id, (SplitAxis, SplitRatio))>::Ok(
            (split_fields(split), after_fields),
        ),
        parse_layout(after_fields, depth + 1) == Parsed::<PaneLayout>::Ok(
            (*split.first, after_first),
        ),
        parse_layout(after_first, depth + 1) == Parsed::<PaneLayout>::Ok((*split.second, rest)),
    ensures
        parse_layout(input, depth) == Parsed::<PaneLayout>::Ok((PaneLayout::Split(split), rest)),
{
}

proof fn lemma_pane_parts(
    pane: PaneSnapshot,
    depth: nat,
    input: Seq<u8>,
    after_tag: Seq<u8>,
    rest: Seq<u8>,
)
    requires
        depth < MAX_LAYOUT_DEPTH,
        u8::parse(input) == Parsed::<u8>::Ok((0, after_tag)),
        PaneForm::parse(after_tag) == Parsed::<(Id, Id)>::Ok((pane_fields(pane), rest)),
    ensures
        parse_layout(input, depth) == Parsed::<PaneLayout>::Ok((PaneLayout::Pane(pane), rest)),
{
}

proof fn lemma_layout_round_trip(layout: PaneLayout, depth: nat, rest: Seq<u8>)
    requires
        layout_refusal(layout, depth) is None,
        layout_readable(layout),
    ensures
        parse_layout(layout_form(layout) + rest, depth) == Parsed::<PaneLayout>::Ok(
            (layout, rest),
        ),
    decreases layout,
{
    let input = layout_form(layout) + rest;
    match layout {
        PaneLayout::Pane(pane) => {
            let after_tag = PaneForm::form(pane_fields(pane)) + rest;
            assert(input =~= seq![0u8] + after_tag);
            u8::round_trip(0, after_tag);
            PaneForm::round_trip(pane_fields(pane), rest);
            lemma_pane_parts(pane, depth, input, after_tag, rest);
        },
        PaneLayout::Split(split) => {
            let after_first = layout_form(*split.second) + rest;
            let after_fields = layout_form(*split.first) + after_first;
            let after_tag = SplitForm::form(split_fields(split)) + after_fields;
            assert(input =~= seq![1u8] + after_tag);
            u8::round_trip(1, after_tag);
            SplitForm::round_trip(split_fields(split), after_fields);
            lemma_layout_round_trip(*split.first, depth + 1, after_first);
            lemma_layout_round_trip(*split.second, depth + 1, rest);
            lemma_split_parts(
                split,
                depth,
                input,
                after_tag,
                after_fields,
                after_first,
                rest,
            );
        },
    }
}

pub fn put_pane_layout(output: &mut Vec<u8>, layout: &PaneLayout, depth: usize) -> (result: Result<
    (),
    WireError,
>)
    ensures
        match layout_refusal(*layout, depth as nat) {
            None => result is Ok && final(output)@ == old(output)@ + layout_form(*layout),
            Some(error) => result == Err::<(), WireError>(error),
        },
    decreases layout,
{
    if depth >= MAX_LAYOUT_DEPTH {
        return Err(WireError::LayoutTooDeep);
    }
    match layout {
        PaneLayout::Pane(pane) => {
            let _ = (0u8, (Id(pane.id.0), Id(pane.terminal_session_id.0))).put(output);
            proof {
                assert(output@ =~= old(output)@ + layout_form(*layout));
            }
        },
        PaneLayout::Split(split) => {
            let _ = (1u8, (Id(split.id.0), (split.axis, split.ratio))).put(output);
            if let Err(error) = put_pane_layout(output, &split.first, depth + 1) {
                return Err(error);
            }
            if let Err(error) = put_pane_layout(output, &split.second, depth + 1) {
                return Err(error);
            }
            proof {
                assert(output@ =~= old(output)@ + layout_form(*layout));
            }
        },
    }
    Ok(())
}

pub fn decode_pane_layout(decoder: &mut Decoder<'_>, depth: usize) -> (result: Result<
    PaneLayout,
    WireError,
>)
    ensures
        match parse_layout(old(decoder)@, depth as nat) {
            Ok((layout, rest)) => result is Ok && result->Ok_0 == layout && final(decoder)@
                == rest,
            Err(error) => result is Err && result->Err_0 == error,
        },
    decreases MAX_LAYOUT_DEPTH - depth,
{
    if depth >= MAX_LAYOUT_DEPTH {
        return Err(WireError::LayoutTooDeep);
    }
    match u8::get(decoder) {
        Err(error) => Err(error),
        Ok(0) => match PaneForm::get(decoder) {
            Err(error) => Err(error),
            Ok((id, session)) => Ok(
                PaneLayout::Pane(
                    PaneSnapshot {
                        id: PaneId(id.0),
                        terminal_session_id: TerminalSessionId(session.0),
                    },
                ),
            ),
        },
        Ok(1) => {
            let (id, (axis, ratio)) = match SplitForm::get(decoder) {
                Err(error) => return Err(error),
                Ok(fields) => fields,
            };
            let first = match decode_pane_layout(decoder, depth + 1) {
                Err(error) => return Err(error),
                Ok(first) => first,
            };
            let second = match decode_pane_layout(decoder, depth + 1) {
                Err(error) => return Err(error),
                Ok(second) => second,
            };
            Ok(
                PaneLayout::Split(
                    SplitSnapshot {
                        id: SplitId(id.0),
                        axis,
                        ratio,
                        first: Box::new(first),
                        second: Box::new(second),
                    },
                ),
            )
        },
        Ok(_) => Err(WireError::InvalidTag(Tag::PaneLayout)),
    }
}

impl Wire for PaneLayout {
    open spec fn form(value: PaneLayout) -> Seq<u8> {
        layout_form(value)
    }

    open spec fn refusal(value: PaneLayout) -> Option<WireError> {
        layout_refusal(value, 0)
    }

    open spec fn parse(input: Seq<u8>) -> Parsed<PaneLayout> {
        parse_layout(input, 0)
    }

    open spec fn readable(value: PaneLayout) -> bool {
        layout_readable(value)
    }

    open spec fn received(value: PaneLayout) -> PaneLayout {
        value
    }

    proof fn round_trip(value: PaneLayout, rest: Seq<u8>) {
        lemma_layout_round_trip(value, 0, rest);
    }

    fn put(&self, output: &mut Vec<u8>) -> (result: Result<(), WireError>) {
        put_pane_layout(output, self, 0)
    }

    fn get(decoder: &mut Decoder<'_>) -> (result: Result<PaneLayout, WireError>) {
        decode_pane_layout(decoder, 0)
    }
}

/// The fields of a Tab. That a name was chosen is not among them.
pub type TabForm = (Id, (String, PaneLayout));

pub open spec fn tab_fields(tab: TabView) -> (Id, (Seq<char>, PaneLayout)) {
    (Id(tab.id.0), (tab.name, tab.layout))
}

pub open spec fn tab_of(fields: (Id, (Seq<char>, PaneLayout))) -> TabView {
    TabView {
        id: TabId(fields.0.0),
        name: fields.1.0,
        name_is_custom: false,
        layout: fields.1.1,
    }
}

impl Wire for TabSnapshot {
    open spec fn form(value: TabView) -> Seq<u8> {
        TabForm::form(tab_fields(value))
    }

    open spec fn refusal(value: TabView) -> Option<WireError> {
        TabForm::refusal(tab_fields(value))
    }

    open spec fn parse(input: Seq<u8>) -> Parsed<TabView> {
        mapped(TabForm::parse(input), |fields: (Id, (Seq<char>, PaneLayout))| tab_of(fields))
    }

    open spec fn readable(value: TabView) -> bool {
        TabForm::readable(tab_fields(value))
    }

    open spec fn received(value: TabView) -> TabView {
        TabView { name_is_custom: false, ..value }
    }

    proof fn round_trip(value: TabView, rest: Seq<u8>) {
        TabForm::round_trip(tab_fields(value), rest);
    }

    fn put(&self, output: &mut Vec<u8>) -> (result: Result<(), WireError>) {
        let _ = Id(self.id.0).put(output);
        if let Err(error) = self.name.put(output) {
            return Err(error);
        }
        if let Err(error) = self.layout.put(output) {
            return Err(error);
        }
        proof {
            assert(output@ =~= old(output)@ + Self::form(self@));
        }
        Ok(())
    }

    fn get(decoder: &mut Decoder<'_>) -> (result: Result<TabSnapshot, WireError>) {
        match TabForm::get(decoder) {
            Err(error) => Err(error),
            Ok((id, (name, layout))) => Ok(
                TabSnapshot { id: TabId(id.0), name, name_is_custom: false, layout },
            ),
        }
    }
}

impl WireItem for TabSnapshot {
    open spec fn spec_too_many() -> WireError {
        WireError::TooManyTabs
    }

    fn too_many() -> (error: WireError) {
        WireError::TooManyTabs
    }
}

/// The fields of a Space. That a name was chosen is not among them.
pub type SpaceForm = (Id, (String, (DirectoryPath, Items<TabSnapshot>)));

pub open spec fn space_fields(space: SpaceView) -> (Id, (Seq<char>, (Seq<u8>, Seq<TabView>))) {
    (Id(space.id.0), (space.name, (space.directory, space.tabs)))
}

pub open spec fn space_of(fields: (Id, (Seq<char>, (Seq<u8>, Seq<TabView>)))) -> SpaceView {
    SpaceView {
        id: SpaceId(fields.0.0),
        name: fields.1.0,
        name_is_custom: false,
        directory: fields.1.1.0,
        tabs: fields.1.1.1,
    }
}

impl Wire for SpaceSnapshot {
    open spec fn form(value: SpaceView) -> Seq<u8> {
        SpaceForm::form(space_fields(value))
    }

    open spec fn refusal(value: SpaceView) -> Option<WireError> {
        SpaceForm::refusal(space_fields(value))
    }

    open spec fn parse(input: Seq<u8>) -> Parsed<SpaceView> {
        mapped(
            SpaceForm::parse(input),
            |fields: (Id, (Seq<char>, (Seq<u8>, Seq<TabView>)))| space_of(fields),
        )
    }

    open spec fn readable(value: SpaceView) -> bool {
        SpaceForm::readable(space_fields(value))
    }

    open spec fn received(value: SpaceView) -> SpaceView {
        SpaceView {
            name_is_custom: false,
            tabs: Items::<TabSnapshot>::received(value.tabs),
            ..value
        }
    }

    proof fn round_trip(value: SpaceView, rest: Seq<u8>) {
        SpaceForm::round_trip(space_fields(value), rest);
    }

    fn put(&self, output: &mut Vec<u8>) -> (result: Result<(), WireError>) {
        let _ = Id(self.id.0).put(output);
        if let Err(error) = self.name.put(output) {
            return Err(error);
        }
        if let Err(error) = self.directory.put(output) {
            return Err(error);
        }
        if let Err(error) = put_list(&self.tabs, output) {
            return Err(error);
        }
        proof {
            assert(output@ =~= old(output)@ + Self::form(self@));
        }
        Ok(())
    }

    fn get(decoder: &mut Decoder<'_>) -> (result: Result<SpaceSnapshot, WireError>) {
        match SpaceForm::get(decoder) {
            Err(error) => Err(error),
            Ok((id, (name, (directory, tabs)))) => Ok(
                SpaceSnapshot {
                    id: SpaceId(id.0),
                    name,
                    name_is_custom: false,
                    directory,
                    tabs: tabs.0,
                },
            ),
        }
    }
}

impl WireItem for SpaceSnapshot {
    open spec fn spec_too_many() -> WireError {
        WireError::TooManySpaces
    }

    fn too_many() -> (error: WireError) {
        WireError::TooManySpaces
    }
}

/// A launch is its directory and a byte that is written as 0, and read as 0 or
/// 1 without being heeded.
impl Wire for TerminalLaunch {
    open spec fn form(value: Seq<u8>) -> Seq<u8> {
        DirectoryPath::form(value) + seq![0u8]
    }

    open spec fn refusal(value: Seq<u8>) -> Option<WireError> {
        DirectoryPath::refusal(value)
    }

    open spec fn parse(input: Seq<u8>) -> Parsed<Seq<u8>> {
        match <(DirectoryPath, u8)>::parse(input) {
            Err(error) => Err(error),
            Ok(((directory, tag), rest)) => if tag <= 1 {
                Ok((directory, rest))
            } else {
                Err(WireError::InvalidTag(Tag::RemovedRestoreDisposition))
            },
        }
    }

    open spec fn readable(value: Seq<u8>) -> bool {
        true
    }

    open spec fn received(value: Seq<u8>) -> Seq<u8> {
        value
    }

    proof fn round_trip(value: Seq<u8>, rest: Seq<u8>) {
        <(DirectoryPath, u8)>::round_trip((value, 0u8), rest);
    }

    fn put(&self, output: &mut Vec<u8>) -> (result: Result<(), WireError>) {
        if let Err(error) = self.working_directory.put(output) {
            return Err(error);
        }
        output.push(0);
        proof {
            assert(output@ =~= old(output)@ + Self::form(self@));
        }
        Ok(())
    }

    fn get(decoder: &mut Decoder<'_>) -> (result: Result<TerminalLaunch, WireError>) {
        match <(DirectoryPath, u8)>::get(decoder) {
            Err(error) => Err(error),
            Ok((working_directory, tag)) => if tag <= 1 {
                Ok(TerminalLaunch { working_directory })
            } else {
                Err(WireError::InvalidTag(Tag::RemovedRestoreDisposition))
            },
        }
    }
}

pub type SessionForm = (Id, TerminalLaunch);

impl Wire for TerminalSessionSnapshot {
    open spec fn form(value: SessionView) -> Seq<u8> {
        SessionForm::form((Id(value.id.0), value.working_directory))
    }

    open spec fn refusal(value: SessionView) -> Option<WireError> {
        SessionForm::refusal((Id(value.id.0), value.working_directory))
    }

    open spec fn parse(input: Seq<u8>) -> Parsed<SessionView> {
        mapped(
            SessionForm::parse(input),
            |fields: (Id, Seq<u8>)|
                SessionView { id: TerminalSessionId(fields.0.0), working_directory: fields.1 },
        )
    }

    open spec fn readable(value: SessionView) -> bool {
        value.id.0 != 0
    }

    open spec fn received(value: SessionView) -> SessionView {
        value
    }

    proof fn round_trip(value: SessionView, rest: Seq<u8>) {
        SessionForm::round_trip((Id(value.id.0), value.working_directory), rest);
    }

    fn put(&self, output: &mut Vec<u8>) -> (result: Result<(), WireError>) {
        let _ = Id(self.id.0).put(output);
        if let Err(error) = self.launch.put(output) {
            return Err(error);
        }
        proof {
            assert(output@ =~= old(output)@ + Self::form(self@));
        }
        Ok(())
    }

    fn get(decoder: &mut Decoder<'_>) -> (result: Result<TerminalSessionSnapshot, WireError>) {
        match SessionForm::get(decoder) {
            Err(error) => Err(error),
            Ok((id, launch)) => Ok(
                TerminalSessionSnapshot { id: TerminalSessionId(id.0), launch },
            ),
        }
    }
}

impl WireItem for TerminalSessionSnapshot {
    open spec fn spec_too_many() -> WireError {
        WireError::TooManyTerminalSessions
    }

    fn too_many() -> (error: WireError) {
        WireError::TooManyTerminalSessions
    }
}

pub type SnapshotForm = (u64, (Items<SpaceSnapshot>, Items<TerminalSessionSnapshot>));

pub open spec fn snapshot_fields(snapshot: HierarchyView) -> (
    u64,
    (Seq<SpaceView>, Seq<SessionView>),
) {
    (snapshot.revision, (snapshot.spaces, snapshot.sessions))
}

impl Wire for CoreSnapshot {
    open spec fn form(value: HierarchyView) -> Seq<u8> {
        SnapshotForm::form(snapshot_fields(value))
    }

    open spec fn refusal(value: HierarchyView) -> Option<WireError> {
        SnapshotForm::refusal(snapshot_fields(value))
    }

    open spec fn parse(input: Seq<u8>) -> Parsed<HierarchyView> {
        mapped(
            SnapshotForm::parse(input),
            |fields: (u64, (Seq<SpaceView>, Seq<SessionView>))|
                HierarchyView { revision: fields.0, spaces: fields.1.0, sessions: fields.1.1 },
        )
    }

    open spec fn readable(value: HierarchyView) -> bool {
        SnapshotForm::readable(snapshot_fields(value))
    }

    open spec fn received(value: HierarchyView) -> HierarchyView {
        HierarchyView { spaces: Items::<SpaceSnapshot>::received(value.spaces), ..value }
    }

    proof fn round_trip(value: HierarchyView, rest: Seq<u8>) {
        SnapshotForm::round_trip(snapshot_fields(value), rest);
        assert(Items::<TerminalSessionSnapshot>::received(value.sessions) =~= value.sessions);
    }

    fn put(&self, output: &mut Vec<u8>) -> (result: Result<(), WireError>) {
        let _ = self.revision.put(output);
        if let Err(error) = put_list(&self.spaces, output) {
            return Err(error);
        }
        if let Err(error) = put_list(&self.terminal_sessions, output) {
            return Err(error);
        }
        proof {
            assert(output@ =~= old(output)@ + Self::form(self@));
        }
        Ok(())
    }

    fn get(decoder: &mut Decoder<'_>) -> (result: Result<CoreSnapshot, WireError>) {
        match SnapshotForm::get(decoder) {
            Err(error) => Err(error),
            Ok((revision, (spaces, terminal_sessions))) => Ok(
                CoreSnapshot {
                    revision,
                    spaces: spaces.0,
                    terminal_sessions: terminal_sessions.0,
                },
            ),
        }
    }
}

} // verus!
