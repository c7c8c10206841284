//! Fonts, colors and the sections of the settings.

use crate::text::{fold, folded, same_ignoring_case};
use vstd::prelude::*;
use vstd::string::*;

verus! {

/// A font family, and whether its characters are all as wide.
#[derive(Debug, PartialEq, Eq)]
pub struct FontFacts {
    pub family: String,
    pub fixed_pitch: bool,
}

/// Whether a font can show a terminal: it is of fixed pitch, and is not the one
/// that holds the icons.
pub open spec fn is_terminal_candidate(font: FontFacts) -> bool {
    folded(font.family@) != folded("lucide"@) && font.fixed_pitch
}

pub fn font_is_terminal_candidate(font: &FontFacts) -> (candidate: bool)
    ensures
        candidate == is_terminal_candidate(*font),
{
    !same_ignoring_case(font.family.as_str(), "lucide") && font.fixed_pitch
}

/// Whether one of `available` is named `family` and can show a terminal.
pub open spec fn offers(available: Seq<FontFacts>, family: Seq<char>) -> bool {
    exists|i: int|
        0 <= i < available.len() && folded((#[trigger] available[i]).family@) == folded(family)
            && is_terminal_candidate(available[i])
}

/// Whether a family is installed and can show a terminal.
pub fn font_is_available(family: &str, available: &Vec<FontFacts>) -> (found: bool)
    ensures
        found == offers(available@, family@),
{
    let mut index: usize = 0;
    while index < available.len()
        invariant
            index <= available@.len(),
            forall|i: int|
                0 <= i < index ==> !(folded((#[trigger] available@[i]).family@) == folded(family@)
                    && is_terminal_candidate(available@[i])),
        decreases available@.len() - index,
    {
        if same_ignoring_case(available[index].family.as_str(), family)
            && font_is_terminal_candidate(&available[index]) {
            proof {
                assert(folded(available@[index as int].family@) == folded(family@));
            }
            return true;
        }
        index += 1;
    }
    false
}

/// The font for the terminals: the one that is asked for, or the first of the
/// `preferred` that is there, or the first that can show one.
pub open spec fn chosen_family(
    requested: Option<String>,
    preferred: Seq<String>,
    available: Seq<FontFacts>,
) -> Option<Seq<char>> {
    if requested is Some && offers(available, requested->0@) {
        Some(requested->0@)
    } else {
        match first_offered(preferred, available) {
            Some(family) => Some(family),
            None => first_candidate(available),
        }
    }
}

pub open spec fn first_offered(preferred: Seq<String>, available: Seq<FontFacts>) -> Option<
    Seq<char>,
>
    decreases preferred.len(),
{
    if preferred.len() == 0 {
        None
    } else if offers(available, preferred[0]@) {
        Some(preferred[0]@)
    } else {
        first_offered(preferred.skip(1), available)
    }
}

pub open spec fn first_candidate(available: Seq<FontFacts>) -> Option<Seq<char>>
    decreases available.len(),
{
    if available.len() == 0 {
        None
    } else if is_terminal_candidate(available[0]) {
        Some(available[0].family@)
    } else {
        first_candidate(available.skip(1))
    }
}

/// The font for the terminals, or why there is none.
pub fn choose_family(
    requested: Option<String>,
    preferred: &Vec<String>,
    available: &Vec<FontFacts>,
) -> (family: Result<String, String>)
    ensures
        match chosen_family(requested, preferred@, available@) {
            Some(chosen) => family is Ok && family->Ok_0@ == chosen,
            None => family is Err && family->Err_0@
                == "no installed fixed-pitch font is available; set AGENT_TERMINAL_FONT to an installed monospace family"@,
        },
{
    if let Some(requested) = requested {
        if font_is_available(requested.as_str(), available) {
            return Ok(requested);
        }
    }
    let mut index: usize = 0;
    proof {
        assert(preferred@.skip(0) =~= preferred@);
    }
    while index < preferred.len()
        invariant
            index <= preferred@.len(),
            first_offered(preferred@, available@) == first_offered(
                preferred@.skip(index as int),
                available@,
            ),
            !(requested is Some && offers(available@, requested->0@)),
        decreases preferred@.len() - index,
    {
        proof {
            assert(preferred@.skip(index as int)[0] == preferred@[index as int]);
            assert(preferred@.skip(index as int).skip(1) =~= preferred@.skip(index + 1));
        }
        if font_is_available(preferred[index].as_str(), available) {
            return Ok(preferred[index].clone());
        }
        index += 1;
    }
    let mut place: usize = 0;
    proof {
        assert(available@.skip(0) =~= available@);
    }
    while place < available.len()
        invariant
            place <= available@.len(),
            first_candidate(available@) == first_candidate(available@.skip(place as int)),
            first_offered(preferred@, available@) is None,
            !(requested is Some && offers(available@, requested->0@)),
        decreases available@.len() - place,
    {
        proof {
            assert(available@.skip(place as int)[0] == available@[place as int]);
            assert(available@.skip(place as int).skip(1) =~= available@.skip(place + 1));
        }
        if font_is_terminal_candidate(&available[place]) {
            return Ok(available[place].family.clone());
        }
        place += 1;
    }
    Err(
        "no installed fixed-pitch font is available; set AGENT_TERMINAL_FONT to an installed monospace family".to_owned(),
    )
}

/// Whether one text stands before another in a dictionary.
pub open spec fn earlier(left: Seq<char>, right: Seq<char>) -> bool
    decreases left.len(),
{
    if right.len() == 0 {
        false
    } else if left.len() == 0 {
        true
    } else if left[0] != right[0] {
        left[0] < right[0]
    } else {
        earlier(left.skip(1), right.skip(1))
    }
}

proof fn lemma_earlier_total(left: Seq<char>, right: Seq<char>)
    ensures
        earlier(left, right) || earlier(right, left) || left == right,
        !(earlier(left, right) && earlier(right, left)),
        !earlier(left, left),
    decreases left.len(),
{
    if left.len() > 0 && right.len() > 0 && left[0] == right[0] {
        lemma_earlier_total(left.skip(1), right.skip(1));
        if left.skip(1) == right.skip(1) {
            assert(left =~= seq![left[0]] + left.skip(1));
            assert(right =~= seq![right[0]] + right.skip(1));
        }
    } else if left.len() == 0 && right.len() == 0 {
        assert(left =~= right);
    }
    if left.len() > 0 {
        lemma_earlier_total(left.skip(1), left.skip(1));
    }
}

proof fn lemma_earlier_transitive(first: Seq<char>, second: Seq<char>, third: Seq<char>)
    requires
        earlier(first, second),
        earlier(second, third),
    ensures
        earlier(first, third),
    decreases first.len(),
{
    if first.len() > 0 && first[0] == second[0] && second[0] == third[0] {
        lemma_earlier_transitive(first.skip(1), second.skip(1), third.skip(1));
    }
}

fn stands_earlier(left: &Vec<char>, right: &Vec<char>) -> (result: bool)
    ensures
        result == earlier(left@, right@),
{
    let mut index: usize = 0;
    proof {
        assert(left@.skip(0) =~= left@);
        assert(right@.skip(0) =~= right@);
    }
    while index < left.len() && index < right.len()
        invariant
            index <= left@.len(),
            index <= right@.len(),
            earlier(left@, right@) == earlier(left@.skip(index as int), right@.skip(index as int)),
        decreases left@.len() - index,
    {
        proof {
            assert(left@.skip(index as int)[0] == left@[index as int]);
            assert(right@.skip(index as int)[0] == right@[index as int]);
            assert(left@.skip(index as int).skip(1) =~= left@.skip(index + 1));
            assert(right@.skip(index as int).skip(1) =~= right@.skip(index + 1));
        }
        if left[index] != right[index] {
            return left[index] < right[index];
        }
        index += 1;
    }
    index < right.len()
}

/// Whether the families in `fonts` stand in the order of a dictionary that
/// knows no capital letters, each once.
pub open spec fn in_font_order(fonts: Seq<String>) -> bool {
    forall|i: int, j: int|
        0 <= i < j < fonts.len() ==> earlier(
            folded((#[trigger] fonts[i])@),
            folded((#[trigger] fonts[j])@),
        )
}

/// Whether `fonts[index]` is the first of its name among the candidates.
pub open spec fn is_first_of_name(fonts: Seq<FontFacts>, index: int) -> bool {
    &&& 0 <= index < fonts.len()
    &&& is_terminal_candidate(fonts[index])
    &&& forall|i: int|
        0 <= i < index && is_terminal_candidate(#[trigger] fonts[i]) ==> folded(fonts[i].family@)
            != folded(fonts[index].family@)
}

/// Whether `name` is that of a candidate, and the first that spells it.
pub open spec fn is_first_spelling(fonts: Seq<FontFacts>, name: Seq<char>) -> bool {
    exists|i: int| #[trigger] is_first_of_name(fonts, i) && fonts[i].family@ == name
}

/// Whether `listed` holds a name, in whatever case.
pub open spec fn lists_name(listed: Seq<String>, name: Seq<char>) -> bool {
    exists|k: int| 0 <= k < listed.len() && folded((#[trigger] listed[k])@) == folded(name)
}

/// Whether `listed` are the families among `fonts` that can show a terminal:
/// in order, and of those that differ in case alone the first.
pub open spec fn lists_fonts(listed: Seq<String>, fonts: Seq<FontFacts>) -> bool {
    &&& in_font_order(listed)
    &&& forall|k: int|
        0 <= k < listed.len() ==> is_first_spelling(fonts, (#[trigger] listed[k])@)
    &&& forall|i: int|
        0 <= i < fonts.len() && is_terminal_candidate(#[trigger] fonts[i]) ==> lists_name(
            listed,
            fonts[i].family@,
        )
}

/// The families that can show a terminal.
pub fn installed_monospace_fonts(fonts: &Vec<FontFacts>) -> (listed: Vec<String>)
    ensures
        lists_fonts(listed@, fonts@),
{
    let mut listed: Vec<String> = Vec::new();
    let mut index: usize = 0;
    while index < fonts.len()
        invariant
            index <= fonts@.len(),
            lists_fonts(listed@, fonts@.take(index as int)),
        decreases fonts@.len() - index,
    {
        let ghost seen = fonts@.take(index as int);
        let ghost longer = fonts@.take(index + 1);
        let ghost before = listed@;
        proof {
            assert(seen =~= longer.drop_last());
        }
        let font = &fonts[index];
        if font_is_terminal_candidate(font) {
            let name = fold(font.family.as_str());
            let mut place: usize = 0;
            while place < listed.len() && stands_earlier(&fold(listed[place].as_str()), &name)
                invariant
                    place <= listed@.len(),
                    listed@ == before,
                    name@ == folded(font.family@),
                    forall|k: int|
                        0 <= k < place ==> earlier(folded((#[trigger] listed@[k])@), name@),
                decreases listed@.len() - place,
            {
                place += 1;
            }
            let present = place < listed.len() && same_ignoring_case(
                listed[place].as_str(),
                font.family.as_str(),
            );
            if present {
                proof {
                    assert(lists_name(listed@, longer.last().family@));
                    lemma_known_font(before, seen, longer);
                }
            } else {
                let family = font.family.clone();
                let ghost new_family = family;
                listed.insert(place, family);
                proof {
                    lemma_new_font(before, listed@, new_family, seen, longer, place as int);
                }
            }
        } else {
            proof {
                lemma_known_font(before, seen, longer);
            }
        }
        index += 1;
    }
    proof {
        assert(fonts@.take(index as int) =~= fonts@);
    }
    listed
}

proof fn lemma_first_spelling_stays(seen: Seq<FontFacts>, longer: Seq<FontFacts>, name: Seq<char>)
    requires
        longer.len() > 0,
        seen == longer.drop_last(),
        is_first_spelling(seen, name),
    ensures
        is_first_spelling(longer, name),
{
    let i = choose|i: int| #[trigger] is_first_of_name(seen, i) && seen[i].family@ == name;
    assert forall|j: int| 0 <= j < i && is_terminal_candidate(#[trigger] longer[j]) implies folded(
        longer[j].family@,
    ) != folded(longer[i].family@) by {
        assert(seen[j] == longer[j]);
    }
    assert(is_first_of_name(longer, i));
}

/// What is listed of fewer fonts is listed of one more, where its name is
/// listed or it cannot show a terminal.
proof fn lemma_known_font(listed: Seq<String>, seen: Seq<FontFacts>, longer: Seq<FontFacts>)
    requires
        longer.len() > 0,
        seen == longer.drop_last(),
        is_terminal_candidate(longer.last()) ==> lists_name(listed, longer.last().family@),
        lists_fonts(listed, seen),
    ensures
        lists_fonts(listed, longer),
{
    assert forall|k: int| 0 <= k < listed.len() implies is_first_spelling(
        longer,
        (#[trigger] listed[k])@,
    ) by {
        lemma_first_spelling_stays(seen, longer, listed[k]@);
    }
    assert forall|i: int|
        0 <= i < longer.len() && is_terminal_candidate(#[trigger] longer[i]) implies lists_name(
        listed,
        longer[i].family@,
    ) by {
        if i < seen.len() {
            assert(seen[i] == longer[i]);
        }
    }
}

proof fn lemma_order_of_new_font(
    before: Seq<String>,
    listed: Seq<String>,
    family: String,
    place: int,
)
    requires
        in_font_order(before),
        0 <= place <= before.len(),
        listed == before.insert(place, family),
        forall|k: int|
            0 <= k < place ==> earlier(folded((#[trigger] before[k])@), folded(family@)),
        place < before.len() ==> !earlier(folded(before[place]@), folded(family@)) && folded(
            before[place]@,
        ) != folded(family@),
    ensures
        in_font_order(listed),
        forall|k: int| 0 <= k < before.len() ==> folded((#[trigger] before[k])@) != folded(family@),
{
    let name = folded(family@);
    assert forall|k: int| place <= k < before.len() implies earlier(
        name,
        folded((#[trigger] before[k])@),
    ) by {
        lemma_earlier_total(name, folded(before[place]@));
        if k > place {
            lemma_earlier_transitive(name, folded(before[place]@), folded(before[k]@));
        }
    }
    assert forall|k: int| 0 <= k < before.len() implies folded((#[trigger] before[k])@) != name by {
        lemma_earlier_total(name, name);
    }
    assert forall|i: int, j: int| 0 <= i < j < listed.len() implies earlier(
        folded((#[trigger] listed[i])@),
        folded((#[trigger] listed[j])@),
    ) by {
        let old_i = if i < place {
            i
        } else {
            i - 1
        };
        let old_j = if j < place {
            j
        } else {
            j - 1
        };
        if i != place && j != place {
            assert(listed[i] == before[old_i] && listed[j] == before[old_j]);
        } else if i == place {
            assert(listed[j] == before[old_j]);
        } else {
            assert(listed[i] == before[old_i]);
        }
    }
}

proof fn lemma_new_font(
    before: Seq<String>,
    listed: Seq<String>,
    family: String,
    seen: Seq<FontFacts>,
    longer: Seq<FontFacts>,
    place: int,
)
    requires
        longer.len() > 0,
        seen == longer.drop_last(),
        is_terminal_candidate(longer.last()),
        family@ == longer.last().family@,
        lists_fonts(before, seen),
        0 <= place <= before.len(),
        listed == before.insert(place, family),
        forall|k: int|
            0 <= k < place ==> earlier(folded((#[trigger] before[k])@), folded(family@)),
        place < before.len() ==> !earlier(folded(before[place]@), folded(family@)) && folded(
            before[place]@,
        ) != folded(family@),
    ensures
        lists_fonts(listed, longer),
{
    let index = longer.len() - 1;
    lemma_order_of_new_font(before, listed, family, place);
    assert forall|i: int| 0 <= i < index && is_terminal_candidate(#[trigger] longer[i]) implies
        folded(longer[i].family@) != folded(longer[index].family@) by {
        assert(seen[i] == longer[i]);
        assert(lists_name(before, seen[i].family@));
    }
    assert(is_first_of_name(longer, index));
    assert forall|k: int| 0 <= k < listed.len() implies is_first_spelling(
        longer,
        (#[trigger] listed[k])@,
    ) by {
        if k != place {
            let old_k = if k < place {
                k
            } else {
                k - 1
            };
            assert(listed[k] == before[old_k]);
            lemma_first_spelling_stays(seen, longer, before[old_k]@);
        }
    }
    assert forall|i: int|
        0 <= i < longer.len() && is_terminal_candidate(#[trigger] longer[i]) implies lists_name(
        listed,
        longer[i].family@,
    ) by {
        if i < index {
            assert(seen[i] == longer[i]);
            let k = choose|k: int|
                0 <= k < before.len() && folded((#[trigger] before[k])@) == folded(
                    longer[i].family@,
                );
            let new_k = if k < place {
                k
            } else {
                k + 1
            };
            assert(listed[new_k] == before[k]);
        } else {
            assert(listed[place] == family);
        }
    }
}

/// A color as one number: red, green and blue, eight bits each.
pub fn packed_color(color: [u8; 3]) -> (packed: u32)
    ensures
        packed == color[0] * 0x10000 + color[1] * 0x100 + color[2],
{
    color[0] as u32 * 0x10000 + color[1] as u32 * 0x100 + color[2] as u32
}

/// The font that holds the signs of a window's buttons, by the build of
/// Windows.
pub fn windows_caption_font_for_build(build: u32) -> (font: &'static str)
    ensures
        font@ == if build >= 22_000 {
            "Segoe Fluent Icons"@
        } else {
            "Segoe MDL2 Assets"@
        },
{
    if build >= 22_000 {
        "Segoe Fluent Icons"
    } else {
        "Segoe MDL2 Assets"
    }
}

/// The sections of the settings.
#[derive(Clone, Copy, Debug, PartialEq, Eq, Structural)]
pub enum SettingsSection {
    Appearance,
    Terminal,
    Keybindings,
}

impl Default for SettingsSection {
    fn default() -> (section: Self)
        ensures
            section == SettingsSection::Appearance,
    {
        SettingsSection::Appearance
    }
}

impl SettingsSection {
    pub open spec fn spec_label(self) -> Seq<char> {
        match self {
            SettingsSection::Appearance => "Appearance"@,
            SettingsSection::Terminal => "Terminal"@,
            SettingsSection::Keybindings => "Keybindings"@,
        }
    }

    pub fn label(self) -> (label: &'static str)
        ensures
            label@ == self.spec_label(),
    {
        match self {
            SettingsSection::Appearance => "Appearance",
            SettingsSection::Terminal => "Terminal",
            SettingsSection::Keybindings => "Keybindings",
        }
    }

    pub open spec fn spec_description(self) -> Seq<char> {
        match self {
            SettingsSection::Appearance => "Theme and window material"@,
            SettingsSection::Terminal => "Font family and sizing"@,
            SettingsSection::Keybindings => "Keyboard shortcuts"@,
        }
    }

    pub fn description(self) -> (description: &'static str)
        ensures
            description@ == self.spec_description(),
    {
        match self {
            SettingsSection::Appearance => "Theme and window material",
            SettingsSection::Terminal => "Font family and sizing",
            SettingsSection::Keybindings => "Keyboard shortcuts",
        }
    }
}

/// The font that is asked for is taken where it is installed and of fixed pitch,
/// whatever the case of its letters.
pub proof fn law_fonts_that_fit_are_taken(
    requested: String,
    preferred: Seq<String>,
    available: Seq<FontFacts>,
    index: int,
)
    requires
        0 <= index < available.len(),
        folded(available[index].family@) == folded(requested@),
        available[index].fixed_pitch,
        folded(available[index].family@) != folded("lucide"@),
    ensures
        chosen_family(Some(requested), preferred, available) == Some(requested@),
{
    assert(is_terminal_candidate(available[index]));
}

/// Where the font that is asked for does not fit, the first of the preferred that
/// does is taken.
pub proof fn law_preferred_fonts_come_next(
    requested: Option<String>,
    preferred: Seq<String>,
    available: Seq<FontFacts>,
    index: int,
    font: int,
)
    requires
        requested is Some ==> forall|i: int|
            0 <= i < available.len() && (#[trigger] available[i]).fixed_pitch ==> folded(
                available[i].family@,
            ) != folded(requested->0@) || folded(available[i].family@) == folded("lucide"@),
        0 <= index < preferred.len(),
        0 <= font < available.len(),
        available[font].fixed_pitch,
        folded(available[font].family@) != folded("lucide"@),
        folded(available[font].family@) == folded(preferred[index]@),
        forall|earlier: int, i: int|
            0 <= earlier < index && 0 <= i < available.len() && (
            #[trigger] available[i]).fixed_pitch && folded(available[i].family@) != folded(
                "lucide"@,
            ) ==> folded(available[i].family@) != folded((#[trigger] preferred[earlier])@),
    ensures
        chosen_family(requested, preferred, available) == Some(preferred[index]@),
{
    if let Some(requested) = requested {
        assert(!offers(available, requested@));
    }
    assert(is_terminal_candidate(available[font]));
    assert(offers(available, preferred[index]@));
    assert forall|earlier: int| 0 <= earlier < index implies !offers(
        available,
        (#[trigger] preferred[earlier])@,
    ) by {
    }
    lemma_first_offered(preferred, available, index);
}

proof fn lemma_first_offered(preferred: Seq<String>, available: Seq<FontFacts>, index: int)
    requires
        0 <= index < preferred.len(),
        offers(available, preferred[index]@),
        forall|earlier: int|
            0 <= earlier < index ==> !offers(available, (#[trigger] preferred[earlier])@),
    ensures
        first_offered(preferred, available) == Some(preferred[index]@),
    decreases index,
{
    if index > 0 {
        assert(!offers(available, preferred[0]@));
        let rest = preferred.skip(1);
        assert forall|earlier: int| 0 <= earlier < index - 1 implies !offers(
            available,
            (#[trigger] rest[earlier])@,
        ) by {
            assert(!offers(available, preferred[earlier + 1]@));
        }
        assert(rest[index - 1] == preferred[index]);
        lemma_first_offered(rest, available, index - 1);
    }
}

/// There is a font for the terminals exactly where one is installed that is of fixed
/// pitch and does not hold the icons, and the one that is taken is such a font.
pub proof fn law_some_font_fits(
    requested: Option<String>,
    preferred: Seq<String>,
    available: Seq<FontFacts>,
)
    ensures
        chosen_family(requested, preferred, available) is Some <==> exists|i: int|
            0 <= i < available.len() && (#[trigger] available[i]).fixed_pitch && folded(
                available[i].family@,
            ) != folded("lucide"@),
        chosen_family(requested, preferred, available) matches Some(family) ==> exists|i: int|
            0 <= i < available.len() && folded((#[trigger] available[i]).family@) == folded(family)
                && available[i].fixed_pitch && folded(available[i].family@) != folded("lucide"@),
{
    lemma_offered_is_offered(preferred, available);
    lemma_first_candidate(available);
    if let Some(family) = chosen_family(requested, preferred, available) {
        if requested is Some && offers(available, requested->0@) {
            let i = choose|i: int|
                0 <= i < available.len() && folded((#[trigger] available[i]).family@) == folded(
                    requested->0@,
                ) && is_terminal_candidate(available[i]);
            assert(available[i].fixed_pitch);
        } else if let Some(offered) = first_offered(preferred, available) {
            let i = choose|i: int|
                0 <= i < available.len() && folded((#[trigger] available[i]).family@) == folded(
                    offered,
                ) && is_terminal_candidate(available[i]);
            assert(available[i].fixed_pitch);
        }
    }
}

proof fn lemma_offered_is_offered(preferred: Seq<String>, available: Seq<FontFacts>)
    ensures
        first_offered(preferred, available) matches Some(family) ==> offers(available, family),
    decreases preferred.len(),
{
    if preferred.len() > 0 {
        lemma_offered_is_offered(preferred.skip(1), available);
    }
}

proof fn lemma_first_candidate(available: Seq<FontFacts>)
    ensures
        first_candidate(available) is Some <==> exists|i: int|
            0 <= i < available.len() && (#[trigger] available[i]).fixed_pitch && folded(
                available[i].family@,
            ) != folded("lucide"@),
        first_candidate(available) matches Some(family) ==> exists|i: int|
            0 <= i < available.len() && folded((#[trigger] available[i]).family@) == folded(family)
                && available[i].fixed_pitch && folded(available[i].family@) != folded("lucide"@),
    decreases available.len(),
{
    if available.len() > 0 {
        let rest = available.skip(1);
        lemma_first_candidate(rest);
        assert(forall|i: int| 0 <= i < rest.len() ==> #[trigger] rest[i] == available[i + 1]);
        if is_terminal_candidate(available[0]) {
            assert(available[0].fixed_pitch);
        } else {
            if let Some(family) = first_candidate(available) {
                let i = choose|i: int|
                    0 <= i < rest.len() && folded((#[trigger] rest[i]).family@) == folded(family)
                        && rest[i].fixed_pitch && folded(rest[i].family@) != folded("lucide"@);
                assert(available[i + 1].fixed_pitch);
            }
            if exists|i: int|
                0 <= i < available.len() && (#[trigger] available[i]).fixed_pitch && folded(
                    available[i].family@,
                ) != folded("lucide"@) {
                let i = choose|i: int|
                    0 <= i < available.len() && (#[trigger] available[i]).fixed_pitch && folded(
                        available[i].family@,
                    ) != folded("lucide"@);
                assert(rest[i - 1].fixed_pitch);
            }
        }
    }
}

/// The fonts that are listed are of fixed pitch, and every font of fixed pitch but
/// the one that holds the icons is among them under its name.
pub proof fn law_fixed_fonts_are_listed(listed: Seq<String>, fonts: Seq<FontFacts>, index: int)
    requires
        lists_fonts(listed, fonts),
    ensures
        0 <= index < fonts.len() && fonts[index].fixed_pitch && folded(fonts[index].family@)
            != folded("lucide"@) ==> exists|k: int|
            0 <= k < listed.len() && folded((#[trigger] listed[k])@) == folded(
                fonts[index].family@,
            ),
        0 <= index < listed.len() ==> exists|i: int|
            0 <= i < fonts.len() && (#[trigger] fonts[i]).family@ == listed[index]@
                && fonts[i].fixed_pitch && folded(fonts[i].family@) != folded("lucide"@),
        forall|other: int|
            0 <= other < listed.len() && 0 <= index < listed.len() && other != index ==> folded(
                (#[trigger] listed[other])@,
            ) != folded(listed[index]@),
{
    if 0 <= index < fonts.len() && fonts[index].fixed_pitch && folded(fonts[index].family@)
        != folded("lucide"@) {
        assert(is_terminal_candidate(fonts[index]));
        assert(lists_name(listed, fonts[index].family@));
    }
    if 0 <= index < listed.len() {
        assert(is_first_spelling(fonts, listed[index]@));
        let i = choose|i: int|
            #[trigger] is_first_of_name(fonts, i) && fonts[i].family@ == listed[index]@;
        assert(fonts[i].fixed_pitch);
        assert forall|other: int| 0 <= other < listed.len() && other != index implies folded(
            (#[trigger] listed[other])@,
        ) != folded(listed[index]@) by {
            lemma_earlier_total(folded(listed[other]@), folded(listed[index]@));
            if other < index {
                assert(earlier(folded(listed[other]@), folded(listed[index]@)));
            } else {
                assert(earlier(folded(listed[index]@), folded(listed[other]@)));
            }
        }
    }
}

} // verus!
