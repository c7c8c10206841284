//! Where the parts of a stored hierarchy stand in its file.

use super::format::{items_form, items_refusal, layout_refusal, Items, Stored};
use super::snapshot::snapshot_file;
use super::{
    Corruption, PersistedCoreLayout, PersistedPaneLayout, PersistedSpace, PersistedTab, RestoreDisposition,
    StoredHierarchy, StoredLayout, StoredRecord, StoredSpace, StoredTab,
};
use crate::bytes::{
    counted, eight, four, lemma_byte_ranges, lemma_eight, lemma_four, lemma_joined, lemma_joined_four,
    lemma_joined_six, lemma_parse_le, lemma_two, two, worded,
};
use crate::core_model::{DirectoryPath, SplitAxis};
use crate::crypto::sha256;
use vstd::prelude::*;
use vstd::utf8::encode_utf8;

verus! {

/// A file is eight letters that name the format, the schema, the generation, the
/// length of what is stored and its checksum, and what is stored.
pub proof fn law_files_begin_with_their_generation(record: StoredRecord)
    requires
        snapshot_file(record) is Ok,
    ensures
        ({
            let payload = PersistedCoreLayout::form(record.layout);
            &&& snapshot_file(record)->Ok_0 == seq![
                'A' as u8,
                'T' as u8,
                'S' as u8,
                'T' as u8,
                'A' as u8,
                'T' as u8,
                'E' as u8,
                '1' as u8,
            ] + four(1) + eight(record.generation) + four(payload.len()) + sha256(payload) + payload
            &&& snapshot_file(record)->Ok_0.len() <= 16777216
        }),
{
    let payload = PersistedCoreLayout::form(record.layout);
    let letters = seq![0x41u8, 0x54, 0x53, 0x54, 0x41, 0x54, 0x45, 0x31];
    lemma_four(1);
    lemma_four(payload.len());
    lemma_eight(record.generation);
    lemma_joined_six(
        letters,
        four(1),
        eight(record.generation),
        four(payload.len()),
        sha256(payload),
        payload,
    );
}

/// A stored hierarchy is the next identity and the Spaces, each with its name, its
/// directory and its Tabs, and each of those with its name and its layout.
pub proof fn law_stored_hierarchies_stand_from_the_outside_in(
    hierarchy: StoredHierarchy,
    space: StoredSpace,
    tab: StoredTab,
)
    ensures
        PersistedCoreLayout::form(hierarchy) == eight(hierarchy.next_id) + four(
            hierarchy.spaces.len(),
        ) + items_form::<PersistedSpace>(hierarchy.spaces),
        PersistedSpace::form(space) == eight(space.id.0) + worded(space.name) + counted(
            space.directory,
        ) + four(space.tabs.len()) + items_form::<PersistedTab>(space.tabs),
        PersistedTab::form(tab) == eight(tab.id.0) + worded(tab.name) + PersistedPaneLayout::form(
            tab.layout,
        ),
{
    lemma_eight(hierarchy.next_id);
    lemma_four(hierarchy.spaces.len());
    lemma_joined(
        eight(hierarchy.next_id),
        four(hierarchy.spaces.len()),
        items_form::<PersistedSpace>(hierarchy.spaces),
    );
    lemma_eight(space.id.0);
    lemma_four(encode_utf8(space.name).len());
    lemma_four(space.directory.len());
    lemma_four(space.tabs.len());
    let tabs = items_form::<PersistedTab>(space.tabs);
    lemma_joined_four(
        eight(space.id.0),
        worded(space.name),
        counted(space.directory),
        four(space.tabs.len()) + tabs,
    );
    lemma_joined(
        eight(space.id.0) + worded(space.name) + counted(space.directory),
        four(space.tabs.len()),
        tabs,
    );
    lemma_eight(tab.id.0);
    lemma_four(encode_utf8(tab.name).len());
    lemma_joined(eight(tab.id.0), worded(tab.name), PersistedPaneLayout::form(tab.layout));
}

/// A stored layout is a Pane with its directory and whether its terminal is
/// launched again, or a split with its axis and its ratio and then its two sides.
pub proof fn law_stored_layouts_stand_from_the_outside_in(layout: StoredLayout)
    ensures
        PersistedPaneLayout::form(layout) == match layout {
            StoredLayout::Pane { id, directory, disposition } => seq![0u8] + eight(id.0) + counted(
                directory,
            ) + seq![
                if disposition == RestoreDisposition::Relaunch {
                    0u8
                } else {
                    1u8
                },
            ],
            StoredLayout::Split { id, axis, ratio, first, second } => seq![1u8] + eight(id.0)
                + seq![
                if axis == SplitAxis::Horizontal {
                    0u8
                } else {
                    1u8
                },
            ] + two(ratio.parts()) + PersistedPaneLayout::form(*first) + PersistedPaneLayout::form(
                *second,
            ),
        },
{
    match layout {
        StoredLayout::Pane { id, directory, disposition } => {
            lemma_eight(id.0);
            lemma_four(directory.len());
            let kept = seq![
                if disposition == RestoreDisposition::Relaunch {
                    0u8
                } else {
                    1u8
                },
            ];
            lemma_joined_four(seq![0u8], eight(id.0), counted(directory), kept);
        },
        StoredLayout::Split { id, axis, ratio, first, second } => {
            lemma_eight(id.0);
            lemma_two(ratio.parts());
            let turned = seq![
                if axis == SplitAxis::Horizontal {
                    0u8
                } else {
                    1u8
                },
            ];
            let sides = PersistedPaneLayout::form(*first) + PersistedPaneLayout::form(*second);
            let seam = eight(id.0) + (turned + two(ratio.parts()));
            lemma_joined(seq![1u8], seam, sides);
            lemma_joined_four(seq![1u8], eight(id.0), turned, two(ratio.parts()));
            lemma_joined(
                seq![1u8] + eight(id.0) + turned + two(ratio.parts()),
                PersistedPaneLayout::form(*first),
                PersistedPaneLayout::form(*second),
            );
        },
    }
}

/// A value can be stored where it has no more bytes than a mebibyte, and is not read
/// where it claims to have more.
pub proof fn law_large_values_are_not_stored(
    path: Seq<u8>,
    text: Seq<char>,
    claimed: nat,
    rest: Seq<u8>,
)
    requires
        claimed < 0x1_0000_0000,
    ensures
        DirectoryPath::refusal(path) is None <==> path.len() <= 1048576,
        String::refusal(text) is None <==> encode_utf8(text).len() <= 1048576,
        path.len() > 1048576 ==> DirectoryPath::refusal(path) == Some(Corruption::ValueTooLarge),
        claimed > 1048576 ==> DirectoryPath::parse(four(claimed) + rest) is Err
            && String::parse(four(claimed) + rest) is Err,
        claimed <= 1048576 && claimed <= rest.len() ==> DirectoryPath::parse(four(claimed) + rest)
            == Ok::<(Seq<u8>, Seq<u8>), Corruption>(
            (rest.subrange(0, claimed as int), rest.subrange(claimed as int, rest.len() as int)),
        ),
{
    lemma_byte_ranges();
    lemma_four(claimed);
    lemma_parse_le(claimed, 4, rest);
}

/// A list can be stored where it has up to sixteen thousand items, and each of them
/// can; it is not read where it claims to have more.
pub proof fn law_long_lists_are_not_stored(
    spaces: Seq<StoredSpace>,
    index: int,
    claimed: nat,
    rest: Seq<u8>,
)
    requires
        claimed < 0x1_0000_0000,
    ensures
        spaces.len() > 16384 ==> Items::<PersistedSpace>::refusal(spaces) == Some(
            Corruption::TooManyItems,
        ),
        Items::<PersistedSpace>::refusal(spaces) is None && 0 <= index < spaces.len()
            ==> PersistedSpace::refusal(spaces[index]) is None,
        spaces.len() <= 16384 && (forall|i: int|
            0 <= i < spaces.len() ==> PersistedSpace::refusal(#[trigger] spaces[i]) is None)
            ==> Items::<PersistedSpace>::refusal(spaces) is None,
        claimed > 16384 ==> Items::<PersistedSpace>::parse(four(claimed) + rest) is Err,
{
    lemma_items_accepted::<PersistedSpace>(spaces, index);
    lemma_byte_ranges();
    lemma_four(claimed);
    lemma_parse_le(claimed, 4, rest);
}

proof fn lemma_items_accepted<T: Stored>(values: Seq<T::V>, index: int)
    ensures
        items_refusal::<T>(values) is None && 0 <= index < values.len() ==> T::refusal(
            values[index],
        ) is None,
        (forall|i: int| 0 <= i < values.len() ==> T::refusal(#[trigger] values[i]) is None)
            ==> items_refusal::<T>(values) is None,
    decreases values.len(),
{
    if values.len() > 0 {
        let shorter = values.drop_last();
        lemma_items_accepted::<T>(shorter, index);
        if forall|i: int| 0 <= i < values.len() ==> T::refusal(#[trigger] values[i]) is None {
            assert forall|i: int| 0 <= i < shorter.len() implies T::refusal(
                #[trigger] shorter[i],
            ) is None by {
                assert(T::refusal(values[i]) is None);
            }
            assert(T::refusal(values[values.len() - 1]) is None);
        }
    }
}

/// How deep the Splits of a stored layout stand in one another.
pub open spec fn nesting(layout: StoredLayout) -> nat
    decreases layout,
{
    match layout {
        StoredLayout::Pane { .. } => 0,
        StoredLayout::Split { first, second, .. } => 1 + if nesting(*first) < nesting(*second) {
            nesting(*second)
        } else {
            nesting(*first)
        },
    }
}

/// Whether every directory in a stored layout is one that can be stored.
pub open spec fn directories_fit(layout: StoredLayout) -> bool
    decreases layout,
{
    match layout {
        StoredLayout::Pane { directory, .. } => directory.len() <= 1048576,
        StoredLayout::Split { first, second, .. } => directories_fit(*first) && directories_fit(
            *second,
        ),
    }
}

/// A layout can be stored where no more than 256 Splits stand in one another and
/// every directory in it can be.
pub proof fn law_deep_layouts_are_not_stored(layout: StoredLayout)
    ensures
        PersistedPaneLayout::refusal(layout) is None <==> nesting(layout) <= 256
            && directories_fit(layout),
{
    lemma_nesting(layout, 0);
}

proof fn lemma_nesting(layout: StoredLayout, depth: nat)
    ensures
        layout_refusal(layout, depth) is None <==> depth + nesting(layout) <= 256
            && directories_fit(layout),
    decreases layout,
{
    if let StoredLayout::Split { first, second, .. } = layout {
        lemma_nesting(*first, depth + 1);
        lemma_nesting(*second, depth + 1);
    }
}

} // verus!
