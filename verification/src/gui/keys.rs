//! What the keys of a window mean.

use crate::core_model::TerminalSessionId;
use crate::text::{characters, folded, is_text, same_ignoring_case};
use vstd::prelude::*;
use vstd::string::*;
use vstd::utf8::encode_utf8;

verus! {

/// The keys that are held down beside another.
#[derive(Clone, Copy, Debug, Default, PartialEq, Eq, Structural)]
pub struct Modifiers {
    pub control: bool,
    pub alt: bool,
    pub shift: bool,
    pub platform: bool,
    pub function: bool,
}

/// A key that was pressed: its name, and the text that it types.
#[derive(Debug, Default, PartialEq, Eq)]
pub struct Keystroke {
    pub key: String,
    pub key_char: Option<String>,
    pub modifiers: Modifiers,
}

/// The desktops, by their habits.
#[derive(Clone, Copy, Debug, PartialEq, Eq, Structural)]
pub enum PasteShortcutPlatform {
    MacOs,
    Linux,
    Windows,
}

impl Keystroke {
    /// Whether the key has the given name, whatever its case.
    pub open spec fn is_key(self, name: Seq<char>) -> bool {
        folded(self.key@) == folded(name)
    }
}

/// Whether a key pastes: with the platform's key alone on macOS, with control
/// and shift on Linux and with control on Windows.
pub open spec fn pastes(key: Keystroke, platform: PasteShortcutPlatform) -> bool {
    let modifiers = key.modifiers;
    &&& key.is_key("v"@)
    &&& !modifiers.alt && !modifiers.function
    &&& match platform {
        PasteShortcutPlatform::MacOs => modifiers.platform && !modifiers.control
            && !modifiers.shift,
        PasteShortcutPlatform::Linux => modifiers.control && modifiers.shift
            && !modifiers.platform,
        PasteShortcutPlatform::Windows => modifiers.control && !modifiers.platform,
    }
}

pub fn terminal_paste_shortcut_for(key: &Keystroke, platform: PasteShortcutPlatform) -> (paste: bool)
    ensures
        paste == pastes(*key, platform),
{
    if !same_ignoring_case(key.key.as_str(), "v") || key.modifiers.alt || key.modifiers.function {
        return false;
    }
    match platform {
        PasteShortcutPlatform::MacOs => key.modifiers.platform && !key.modifiers.control
            && !key.modifiers.shift,
        PasteShortcutPlatform::Linux => key.modifiers.control && key.modifiers.shift
            && !key.modifiers.platform,
        PasteShortcutPlatform::Windows => key.modifiers.control && !key.modifiers.platform,
    }
}

/// Whether a key closes a Pane.
pub open spec fn closes_pane(key: Keystroke, platform: PasteShortcutPlatform) -> bool {
    let modifiers = key.modifiers;
    &&& key.is_key("w"@)
    &&& !modifiers.alt && !modifiers.function && modifiers.shift
    &&& match platform {
        PasteShortcutPlatform::MacOs => modifiers.platform && !modifiers.control,
        PasteShortcutPlatform::Linux => modifiers.control && !modifiers.platform,
        PasteShortcutPlatform::Windows => modifiers.control && !modifiers.platform,
    }
}

pub fn pane_close_shortcut_for(key: &Keystroke, platform: PasteShortcutPlatform) -> (close: bool)
    ensures
        close == closes_pane(*key, platform),
{
    if !same_ignoring_case(key.key.as_str(), "w") || key.modifiers.alt || key.modifiers.function {
        return false;
    }
    match platform {
        PasteShortcutPlatform::MacOs => key.modifiers.platform && key.modifiers.shift
            && !key.modifiers.control,
        PasteShortcutPlatform::Linux | PasteShortcutPlatform::Windows => key.modifiers.control
            && key.modifiers.shift && !key.modifiers.platform,
    }
}

/// A key with the keys that are to be held down beside it.
#[derive(Debug, PartialEq, Eq)]
pub struct Shortcut {
    pub key: String,
    pub control: bool,
    pub alt: bool,
    pub shift: bool,
    pub platform: bool,
}

/// Whether a key is what a shortcut asks for.
pub open spec fn is_shortcut(shortcut: Shortcut, key: Keystroke) -> bool {
    &&& key.is_key(shortcut.key@)
    &&& key.modifiers == Modifiers {
        control: shortcut.control,
        alt: shortcut.alt,
        shift: shortcut.shift,
        platform: shortcut.platform,
        function: false,
    }
}

pub fn shortcut_matches(shortcut: &Shortcut, key: &Keystroke) -> (matches: bool)
    ensures
        matches == is_shortcut(*shortcut, *key),
{
    same_ignoring_case(shortcut.key.as_str(), key.key.as_str()) && shortcut.control
        == key.modifiers.control && shortcut.alt == key.modifiers.alt && shortcut.shift
        == key.modifiers.shift && shortcut.platform == key.modifiers.platform
        && !key.modifiers.function
}

/// The shortcut that a key asks for, where it can be one. `usable` tells whether
/// the settings take such a shortcut.
pub fn shortcut_from_keystroke(key: &Keystroke, usable: bool) -> (shortcut: Option<Shortcut>)
    ensures
        match shortcut {
            Some(shortcut) => {
                &&& usable && !key.modifiers.function
                &&& shortcut.key@ == key.key@
                &&& is_shortcut(shortcut, *key)
            },
            None => !usable || key.modifiers.function,
        },
{
    if key.modifiers.function || !usable {
        return None;
    }
    Some(
        Shortcut {
            key: key.key.clone(),
            control: key.modifiers.control,
            alt: key.modifiers.alt,
            shift: key.modifiers.shift,
            platform: key.modifiers.platform,
        },
    )
}

/// What a shortcut can stand for.
#[derive(Clone, Copy, Debug, PartialEq, Eq, Structural)]
pub enum KeybindAction {
    OpenSettings,
    CreateSpace,
    CreateTab,
    ClosePane,
    SplitHorizontal,
    SplitVertical,
}

/// What the first of `bindings` that a key matches stands for.
pub open spec fn bound_action(
    bindings: Seq<(KeybindAction, Shortcut)>,
    key: Keystroke,
) -> Option<KeybindAction>
    decreases bindings.len(),
{
    if bindings.len() == 0 {
        None
    } else if is_shortcut(bindings[0].1, key) {
        Some(bindings[0].0)
    } else {
        bound_action(bindings.skip(1), key)
    }
}

pub fn find_bound_action(bindings: &Vec<(KeybindAction, Shortcut)>, key: &Keystroke) -> (action:
    Option<KeybindAction>)
    ensures
        action == bound_action(bindings@, *key),
{
    let mut index: usize = 0;
    proof {
        assert(bindings@.skip(0) =~= bindings@);
    }
    while index < bindings.len()
        invariant
            index <= bindings@.len(),
            bound_action(bindings@, *key) == bound_action(bindings@.skip(index as int), *key),
        decreases bindings@.len() - index,
    {
        proof {
            assert(bindings@.skip(index as int)[0] == bindings@[index as int]);
            assert(bindings@.skip(index as int).skip(1) =~= bindings@.skip(index + 1));
        }
        if shortcut_matches(&bindings[index].1, key) {
            return Some(bindings[index].0);
        }
        index += 1;
    }
    None
}

/// Whether two shortcuts ask for the same.
pub open spec fn same_shortcut(left: Shortcut, right: Shortcut) -> bool {
    &&& folded(left.key@) == folded(right.key@)
    &&& left.control == right.control
    &&& left.alt == right.alt
    &&& left.shift == right.shift
    &&& left.platform == right.platform
}

/// The first action other than `action` that `shortcut` stands for already.
pub open spec fn conflicting(
    bindings: Seq<(KeybindAction, Shortcut)>,
    action: KeybindAction,
    shortcut: Shortcut,
) -> Option<KeybindAction>
    decreases bindings.len(),
{
    if bindings.len() == 0 {
        None
    } else if bindings[0].0 != action && same_shortcut(bindings[0].1, shortcut) {
        Some(bindings[0].0)
    } else {
        conflicting(bindings.skip(1), action, shortcut)
    }
}

pub fn conflicting_action(
    bindings: &Vec<(KeybindAction, Shortcut)>,
    action: KeybindAction,
    shortcut: &Shortcut,
) -> (conflict: Option<KeybindAction>)
    ensures
        conflict == conflicting(bindings@, action, *shortcut),
{
    let mut index: usize = 0;
    proof {
        assert(bindings@.skip(0) =~= bindings@);
    }
    while index < bindings.len()
        invariant
            index <= bindings@.len(),
            conflicting(bindings@, action, *shortcut) == conflicting(
                bindings@.skip(index as int),
                action,
                *shortcut,
            ),
        decreases bindings@.len() - index,
    {
        proof {
            assert(bindings@.skip(index as int)[0] == bindings@[index as int]);
            assert(bindings@.skip(index as int).skip(1) =~= bindings@.skip(index + 1));
        }
        let bound = &bindings[index].1;
        if bindings[index].0 != action && same_ignoring_case(
            bound.key.as_str(),
            shortcut.key.as_str(),
        ) && bound.control == shortcut.control && bound.alt == shortcut.alt && bound.shift
            == shortcut.shift && bound.platform == shortcut.platform {
            return Some(bindings[index].0);
        }
        index += 1;
    }
    None
}

/// The bytes that a key sends to a terminal: control with a letter sends the
/// control character, a key with a name what it stands for, and any other the
/// text that it types.
pub open spec fn input_of(key: Keystroke) -> Option<Seq<u8>> {
    if key.modifiers.control && key.key@.len() == 1 && key.key@[0] <= '\u{7f}' {
        if 'a' <= key.key@[0] <= 'z' {
            Some(seq![(key.key@[0] as int - 96) as u8])
        } else if '@' <= key.key@[0] <= '_' {
            Some(seq![(key.key@[0] as int - 64) as u8])
        } else {
            None
        }
    } else if key.modifiers.platform || key.modifiers.alt {
        None
    } else {
        named_input(key.key@, key.key_char)
    }
}

/// The bytes of a key by its name, or of the text that it types.
pub open spec fn named_input(name: Seq<char>, typed: Option<String>) -> Option<Seq<u8>> {
    if name == "enter"@ {
        Some(seq![13])
    } else if name == "space"@ {
        Some(seq![32])
    } else if name == "backspace"@ {
        Some(seq![127])
    } else if name == "tab"@ {
        Some(seq![9])
    } else if name == "escape"@ {
        Some(seq![27])
    } else if name == "up"@ {
        Some(seq![27, 91, 65])
    } else if name == "down"@ {
        Some(seq![27, 91, 66])
    } else if name == "right"@ {
        Some(seq![27, 91, 67])
    } else if name == "left"@ {
        Some(seq![27, 91, 68])
    } else {
        match typed {
            Some(text) => Some(encode_utf8(text@)),
            None => None,
        }
    }
}

/// Whether a key stands for the text that it types: it has text, it is none of the
/// keys that a terminal knows by name, and neither control, alt nor the
/// platform's key is held down. Shift may be.
pub open spec fn types_text(key: Keystroke) -> bool {
    &&& key.key_char is Some
    &&& !key.modifiers.control && !key.modifiers.alt && !key.modifiers.platform
    &&& key.key@ != "enter"@ && key.key@ != "space"@ && key.key@ != "backspace"@
    &&& key.key@ != "tab"@ && key.key@ != "escape"@
    &&& key.key@ != "up"@ && key.key@ != "down"@ && key.key@ != "right"@ && key.key@ != "left"@
}

/// The bytes of an optional vector.
pub open spec fn option_bytes(bytes: Option<Vec<u8>>) -> Option<Seq<u8>> {
    match bytes {
        Some(bytes) => Some(bytes@),
        None => None,
    }
}

pub fn terminal_input_bytes(key: &Keystroke) -> (bytes: Option<Vec<u8>>)
    ensures
        option_bytes(bytes) == input_of(*key),
        types_text(*key) ==> bytes is Some && bytes->0@ == encode_utf8(key.key_char->0@),
{
    if key.modifiers.control {
        let chars = characters(key.key.as_str());
        let character: char = if chars.len() == 1 {
            chars[0]
        } else {
            '\u{80}'
        };
        if character <= '\u{7f}' {
            if 'a' <= character && character <= 'z' {
                return Some(vec![character as u8 - 96]);
            }
            if '@' <= character && character <= '_' {
                return Some(vec![character as u8 - 64]);
            }
            return None;
        }
    }
    if key.modifiers.platform || key.modifiers.alt {
        return None;
    }
    let name = key.key.as_str();
    if is_text(name, "enter") {
        Some(vec![13])
    } else if is_text(name, "space") {
        Some(vec![32])
    } else if is_text(name, "backspace") {
        Some(vec![127])
    } else if is_text(name, "tab") {
        Some(vec![9])
    } else if is_text(name, "escape") {
        Some(vec![27])
    } else if is_text(name, "up") {
        Some(vec![27, 91, 65])
    } else if is_text(name, "down") {
        Some(vec![27, 91, 66])
    } else if is_text(name, "right") {
        Some(vec![27, 91, 67])
    } else if is_text(name, "left") {
        Some(vec![27, 91, 68])
    } else {
        match &key.key_char {
            Some(text) => Some(text.as_str().as_bytes_vec()),
            None => None,
        }
    }
}

/// What comes of a key.
#[derive(Debug, PartialEq, Eq)]
pub enum KeyAction {
    /// A shortcut was being recorded, and no longer is.
    CancelRecording,
    ResetBinding(KeybindAction),
    RecordBinding(KeybindAction),
    CloseSettings,
    ToggleSettings,
    Perform(KeybindAction),
    /// The key is taken, and nothing comes of it.
    Swallow,
    Paste(TerminalSessionId),
    Input(TerminalSessionId, Vec<u8>),
    /// The key is left to others.
    Pass,
}

#[verifier::ext_equal]
pub enum KeyActionView {
    CancelRecording,
    ResetBinding(KeybindAction),
    RecordBinding(KeybindAction),
    CloseSettings,
    ToggleSettings,
    Perform(KeybindAction),
    Swallow,
    Paste(TerminalSessionId),
    Input(TerminalSessionId, Seq<u8>),
    Pass,
}

impl View for KeyAction {
    type V = KeyActionView;

    open spec fn view(&self) -> KeyActionView {
        match *self {
            KeyAction::CancelRecording => KeyActionView::CancelRecording,
            KeyAction::ResetBinding(action) => KeyActionView::ResetBinding(action),
            KeyAction::RecordBinding(action) => KeyActionView::RecordBinding(action),
            KeyAction::CloseSettings => KeyActionView::CloseSettings,
            KeyAction::ToggleSettings => KeyActionView::ToggleSettings,
            KeyAction::Perform(action) => KeyActionView::Perform(action),
            KeyAction::Swallow => KeyActionView::Swallow,
            KeyAction::Paste(session) => KeyActionView::Paste(session),
            KeyAction::Input(session, bytes) => KeyActionView::Input(session, bytes@),
            KeyAction::Pass => KeyActionView::Pass,
        }
    }
}

/// What comes of a key: it is first taken by a recording, then by the settings,
/// then by a shortcut, and last by the terminal that has the focus.
pub open spec fn action_of(
    recording: Option<KeybindAction>,
    settings_open: bool,
    bindings: Seq<(KeybindAction, Shortcut)>,
    focused: Option<TerminalSessionId>,
    platform: PasteShortcutPlatform,
    key: Keystroke,
) -> KeyActionView {
    if recording is Some {
        if key.is_key("escape"@) {
            KeyActionView::CancelRecording
        } else if key.is_key("backspace"@) {
            KeyActionView::ResetBinding(recording->0)
        } else {
            KeyActionView::RecordBinding(recording->0)
        }
    } else if settings_open && key.is_key("escape"@) {
        KeyActionView::CloseSettings
    } else {
        match bound_action(bindings, key) {
            Some(KeybindAction::OpenSettings) => KeyActionView::ToggleSettings,
            Some(action) => if settings_open {
                KeyActionView::Swallow
            } else {
                KeyActionView::Perform(action)
            },
            None => match focused {
                Some(session) if !settings_open => if pastes(key, platform) {
                    KeyActionView::Paste(session)
                } else {
                    match input_of(key) {
                        Some(bytes) => KeyActionView::Input(session, bytes),
                        None => KeyActionView::Pass,
                    }
                },
                _ => KeyActionView::Pass,
            },
        }
    }
}

pub fn key_action(
    recording: Option<KeybindAction>,
    settings_open: bool,
    bindings: &Vec<(KeybindAction, Shortcut)>,
    focused: Option<TerminalSessionId>,
    platform: PasteShortcutPlatform,
    key: &Keystroke,
) -> (action: KeyAction)
    ensures
        action@ == action_of(recording, settings_open, bindings@, focused, platform, *key),
{
    if let Some(action) = recording {
        return if same_ignoring_case(key.key.as_str(), "escape") {
            KeyAction::CancelRecording
        } else if same_ignoring_case(key.key.as_str(), "backspace") {
            KeyAction::ResetBinding(action)
        } else {
            KeyAction::RecordBinding(action)
        };
    }
    if settings_open && same_ignoring_case(key.key.as_str(), "escape") {
        return KeyAction::CloseSettings;
    }
    if let Some(action) = find_bound_action(bindings, key) {
        return if action == KeybindAction::OpenSettings {
            KeyAction::ToggleSettings
        } else if settings_open {
            KeyAction::Swallow
        } else {
            KeyAction::Perform(action)
        };
    }
    if settings_open {
        return KeyAction::Pass;
    }
    match focused {
        None => KeyAction::Pass,
        Some(session) => if terminal_paste_shortcut_for(key, platform) {
            KeyAction::Paste(session)
        } else {
            match terminal_input_bytes(key) {
                Some(bytes) => KeyAction::Input(session, bytes),
                None => KeyAction::Pass,
            }
        },
    }
}

/// That a shortcut is taken, in words.
pub open spec fn conflict_text(shortcut: Seq<char>, conflict: Seq<char>) -> Seq<char> {
    shortcut + " is already assigned to "@ + conflict
}

/// That the shortcut an action comes with is taken, in words.
pub open spec fn reset_conflict_text(
    shortcut: Seq<char>,
    conflict: Seq<char>,
    action: Seq<char>,
) -> Seq<char> {
    conflict_text(shortcut, conflict) + "; change that shortcut before resetting "@ + action
}

/// That a shortcut is taken, in words.
pub fn conflict_message(shortcut: &str, conflict: &str) -> (message: String)
    ensures
        message@ == conflict_text(shortcut@, conflict@),
{
    let mut message = shortcut.to_owned();
    message.append(" is already assigned to ");
    message.append(conflict);
    message
}

/// That the shortcut an action comes with is taken, in words.
pub fn reset_conflict_message(shortcut: &str, conflict: &str, action: &str) -> (message: String)
    ensures
        message@ == reset_conflict_text(shortcut@, conflict@, action@),
{
    let mut message = conflict_message(shortcut, conflict);
    message.append("; change that shortcut before resetting ");
    message.append(action);
    message
}

/// The text that a key types reaches the terminal as it is, in UTF-8, whether or
/// not shift is held down.
pub proof fn law_typed_text_is_sent(key: Keystroke, text: Seq<char>)
    requires
        key.key_char is Some,
        key.key_char->0@ == text,
        key.modifiers.control ==> key.key@.len() != 1 || key.key@[0] > '\u{7f}',
        !key.modifiers.alt,
        !key.modifiers.platform,
        key.key@ != "enter"@,
        key.key@ != "space"@,
        key.key@ != "backspace"@,
        key.key@ != "tab"@,
        key.key@ != "escape"@,
        key.key@ != "up"@,
        key.key@ != "down"@,
        key.key@ != "right"@,
        key.key@ != "left"@,
    ensures
        input_of(key) == Some(encode_utf8(text)),
        !key.modifiers.control ==> types_text(key),
{
}

/// What a key sends does not depend on shift, nor on the function key.
pub proof fn law_input_ignores_shift(key: Keystroke, other: Keystroke)
    requires
        key.key@ == other.key@,
        match (key.key_char, other.key_char) {
            (Some(left), Some(right)) => left@ == right@,
            (None, None) => true,
            _ => false,
        },
        key.modifiers.control == other.modifiers.control,
        key.modifiers.alt == other.modifiers.alt,
        key.modifiers.platform == other.modifiers.platform,
    ensures
        input_of(key) == input_of(other),
{
}

/// The keys that terminals know by name send what terminals expect of them,
/// whatever text they type and whether or not control is held down.
pub proof fn law_named_keys_are_sent(key: Keystroke)
    requires
        !key.modifiers.alt,
        !key.modifiers.platform,
    ensures
        key.key@ == "enter"@ ==> input_of(key) == Some(seq![0x0du8]),
        key.key@ == "space"@ ==> input_of(key) == Some(seq![0x20u8]),
        key.key@ == "backspace"@ ==> input_of(key) == Some(seq![0x7fu8]),
        key.key@ == "tab"@ ==> input_of(key) == Some(seq![0x09u8]),
        key.key@ == "escape"@ ==> input_of(key) == Some(seq![0x1bu8]),
        key.key@ == "up"@ ==> input_of(key) == Some(seq![0x1bu8, 0x5bu8, 0x41u8]),
        key.key@ == "down"@ ==> input_of(key) == Some(seq![0x1bu8, 0x5bu8, 0x42u8]),
        key.key@ == "right"@ ==> input_of(key) == Some(seq![0x1bu8, 0x5bu8, 0x43u8]),
        key.key@ == "left"@ ==> input_of(key) == Some(seq![0x1bu8, 0x5bu8, 0x44u8]),
{
    reveal_strlit("enter");
    reveal_strlit("space");
    reveal_strlit("backspace");
    reveal_strlit("tab");
    reveal_strlit("escape");
    reveal_strlit("up");
    reveal_strlit("down");
    reveal_strlit("right");
    reveal_strlit("left");
    assert("enter"@.len() == 5 && "space"@.len() == 5 && "backspace"@.len() == 9);
    assert("tab"@.len() == 3 && "escape"@.len() == 6 && "up"@.len() == 2);
    assert("down"@.len() == 4 && "right"@.len() == 5 && "left"@.len() == 4);
    assert("enter"@[0] == 'e' && "space"@[0] == 's' && "right"@[0] == 'r');
    assert("down"@[0] == 'd' && "left"@[0] == 'l');
}

/// Control with a letter, or with a sign that has a control character, sends that
/// character; with any other sign of ASCII it sends nothing.
pub proof fn law_control_sends_control_characters(key: Keystroke, character: char)
    requires
        key.key@ == seq![character],
        key.modifiers.control,
    ensures
        'a' <= character <= 'z' ==> input_of(key) is Some && input_of(key)->0.len() == 1
            && input_of(key)->0[0] == character as int - 'a' as int + 1,
        '@' <= character <= '_' ==> input_of(key) is Some && input_of(key)->0.len() == 1
            && input_of(key)->0[0] == character as int - '@' as int,
        character <= '\u{7f}' && !('a' <= character <= 'z') && !('@' <= character <= '_')
            ==> input_of(key) is None,
{
}

/// With alt or the platform's key, and without control, a key sends nothing; nor
/// does one that types nothing and has no name.
pub proof fn law_other_keys_send_nothing(key: Keystroke)
    requires
        !key.modifiers.control,
    ensures
        key.modifiers.alt || key.modifiers.platform ==> input_of(key) is None,
        key.key_char is None && key.key@ != "enter"@ && key.key@ != "space"@ && key.key@
            != "backspace"@ && key.key@ != "tab"@ && key.key@ != "escape"@ && key.key@ != "up"@
            && key.key@ != "down"@ && key.key@ != "right"@ && key.key@ != "left"@
            ==> input_of(key) is None,
{
}

/// Where no shortcut is recorded, the settings are closed, no shortcut claims the
/// key and it does not paste, the terminal with the focus gets what the key
/// sends; without such a terminal, nobody does.
pub proof fn law_unclaimed_keys_reach_the_terminal(
    bindings: Seq<(KeybindAction, Shortcut)>,
    session: TerminalSessionId,
    platform: PasteShortcutPlatform,
    key: Keystroke,
)
    requires
        forall|i: int| 0 <= i < bindings.len() ==> !is_shortcut((#[trigger] bindings[i]).1, key),
        folded(key.key@) != folded("v"@) || key.modifiers.alt || (!key.modifiers.control
            && !key.modifiers.platform),
    ensures
        input_of(key) is Some ==> action_of(None, false, bindings, Some(session), platform, key)
            == KeyActionView::Input(session, input_of(key)->0),
        input_of(key) is None ==> action_of(None, false, bindings, Some(session), platform, key)
            == KeyActionView::Pass,
        action_of(None, false, bindings, None, platform, key) == KeyActionView::Pass,
        action_of(None, true, bindings, Some(session), platform, key) != KeyActionView::Input(
            session,
            input_of(key)->0,
        ),
{
    lemma_unbound(bindings, key);
}

proof fn lemma_unbound(bindings: Seq<(KeybindAction, Shortcut)>, key: Keystroke)
    requires
        forall|i: int| 0 <= i < bindings.len() ==> !is_shortcut((#[trigger] bindings[i]).1, key),
    ensures
        bound_action(bindings, key) is None,
    decreases bindings.len(),
{
    if bindings.len() > 0 {
        assert(!is_shortcut(bindings[0].1, key));
        assert forall|i: int| 0 <= i < bindings.skip(1).len() implies !is_shortcut(
            (#[trigger] bindings.skip(1)[i]).1,
            key,
        ) by {
            assert(bindings.skip(1)[i] == bindings[i + 1]);
        }
        lemma_unbound(bindings.skip(1), key);
    }
}

/// A key that a shortcut claims performs the action of the first that does, with
/// the settings closed; with them open only the one that opens them is heard.
/// Two keys with the same name up to its case and the same modifiers are the
/// same shortcut.
pub proof fn law_shortcuts_perform_their_actions(
    bindings: Seq<(KeybindAction, Shortcut)>,
    place: int,
    focused: Option<TerminalSessionId>,
    platform: PasteShortcutPlatform,
    key: Keystroke,
)
    requires
        0 <= place < bindings.len(),
        forall|i: int| 0 <= i < place ==> !is_shortcut((#[trigger] bindings[i]).1, key),
        folded(bindings[place].1.key@) == folded(key.key@),
        bindings[place].1.control == key.modifiers.control,
        bindings[place].1.alt == key.modifiers.alt,
        bindings[place].1.shift == key.modifiers.shift,
        bindings[place].1.platform == key.modifiers.platform,
        !key.modifiers.function,
    ensures
        bindings[place].0 == KeybindAction::OpenSettings ==> {
            &&& action_of(None, false, bindings, focused, platform, key)
                == KeyActionView::ToggleSettings
            &&& folded(key.key@) != folded("escape"@) ==> action_of(
                None,
                true,
                bindings,
                focused,
                platform,
                key,
            ) == KeyActionView::ToggleSettings
        },
        bindings[place].0 != KeybindAction::OpenSettings ==> {
            &&& action_of(None, false, bindings, focused, platform, key) == KeyActionView::Perform(
                bindings[place].0,
            )
            &&& folded(key.key@) != folded("escape"@) ==> action_of(
                None,
                true,
                bindings,
                focused,
                platform,
                key,
            ) == KeyActionView::Swallow
        },
{
    lemma_bound_at(bindings, place, key);
}

proof fn lemma_bound_at(bindings: Seq<(KeybindAction, Shortcut)>, place: int, key: Keystroke)
    requires
        0 <= place < bindings.len(),
        forall|i: int| 0 <= i < place ==> !is_shortcut((#[trigger] bindings[i]).1, key),
        is_shortcut(bindings[place].1, key),
    ensures
        bound_action(bindings, key) == Some(bindings[place].0),
    decreases place,
{
    if place > 0 {
        assert(!is_shortcut(bindings[0].1, key));
        assert forall|i: int| 0 <= i < place - 1 implies !is_shortcut(
            (#[trigger] bindings.skip(1)[i]).1,
            key,
        ) by {
            assert(bindings.skip(1)[i] == bindings[i + 1]);
        }
        lemma_bound_at(bindings.skip(1), place - 1, key);
    }
}

/// A shortcut asks for its key with exactly its modifiers.
pub proof fn law_shortcuts_ask_for_all_their_modifiers(shortcut: Shortcut, key: Keystroke)
    ensures
        is_shortcut(shortcut, key) <==> {
            &&& folded(shortcut.key@) == folded(key.key@)
            &&& shortcut.control == key.modifiers.control
            &&& shortcut.alt == key.modifiers.alt
            &&& shortcut.shift == key.modifiers.shift
            &&& shortcut.platform == key.modifiers.platform
            &&& !key.modifiers.function
        },
{
}

/// While a shortcut is recorded nothing else hears the keys: escape ends the
/// recording, backspace restores what the action came with, and any other key
/// is what is recorded.
pub proof fn law_recording_takes_every_key(
    action: KeybindAction,
    settings_open: bool,
    bindings: Seq<(KeybindAction, Shortcut)>,
    focused: Option<TerminalSessionId>,
    platform: PasteShortcutPlatform,
    key: Keystroke,
)
    ensures
        ({
            let heard = action_of(Some(action), settings_open, bindings, focused, platform, key);
            &&& folded(key.key@) == folded("escape"@) ==> heard == KeyActionView::CancelRecording
            &&& folded(key.key@) == folded("backspace"@) ==> heard == KeyActionView::ResetBinding(
                action,
            )
            &&& folded(key.key@) != folded("escape"@) && folded(key.key@) != folded("backspace"@)
                ==> heard == KeyActionView::RecordBinding(action)
        }),
        folded(key.key@) == folded("escape"@) ==> action_of(
            None,
            true,
            bindings,
            focused,
            platform,
            key,
        ) == KeyActionView::CloseSettings,
{
    reveal_strlit("escape");
    reveal_strlit("backspace");
    assert(folded("escape"@).len() == 6);
    assert(folded("backspace"@).len() == 9);
}

/// Each desktop pastes with its own keys: the platform's key with V on macOS,
/// control and shift with V on Linux, control with V on Windows, and with
/// nothing else. What pastes goes to the terminal with the focus.
pub proof fn law_desktops_paste_with_their_keys(
    bindings: Seq<(KeybindAction, Shortcut)>,
    session: TerminalSessionId,
    key: Keystroke,
    platform: PasteShortcutPlatform,
)
    requires
        folded(key.key@) == folded("v"@),
        !key.modifiers.alt,
        !key.modifiers.function,
    ensures
        pastes(key, PasteShortcutPlatform::MacOs) == (key.modifiers.platform
            && !key.modifiers.control && !key.modifiers.shift),
        pastes(key, PasteShortcutPlatform::Linux) == (key.modifiers.control && key.modifiers.shift
            && !key.modifiers.platform),
        pastes(key, PasteShortcutPlatform::Windows) == (key.modifiers.control
            && !key.modifiers.platform),
        pastes(key, platform) && (forall|i: int|
            0 <= i < bindings.len() ==> !is_shortcut((#[trigger] bindings[i]).1, key))
            ==> action_of(None, false, bindings, Some(session), platform, key)
            == KeyActionView::Paste(session),
{
    if forall|i: int| 0 <= i < bindings.len() ==> !is_shortcut((#[trigger] bindings[i]).1, key) {
        lemma_unbound(bindings, key);
    }
}

/// No key other than V pastes, and none with alt or the function key.
pub proof fn law_other_keys_do_not_paste(key: Keystroke, platform: PasteShortcutPlatform)
    ensures
        folded(key.key@) != folded("v"@) || key.modifiers.alt || key.modifiers.function
            ==> !pastes(key, platform),
        folded(key.key@) != folded("w"@) || key.modifiers.alt || key.modifiers.function
            || !key.modifiers.shift ==> !closes_pane(key, platform),
{
}

/// A Pane is closed with shift and W, and the platform's key on macOS or control
/// elsewhere.
pub proof fn law_desktops_close_panes_with_their_keys(key: Keystroke)
    requires
        folded(key.key@) == folded("w"@),
        !key.modifiers.alt,
        !key.modifiers.function,
        key.modifiers.shift,
    ensures
        closes_pane(key, PasteShortcutPlatform::MacOs) == (key.modifiers.platform
            && !key.modifiers.control),
        closes_pane(key, PasteShortcutPlatform::Linux) == (key.modifiers.control
            && !key.modifiers.platform),
        closes_pane(key, PasteShortcutPlatform::Windows) == (key.modifiers.control
            && !key.modifiers.platform),
{
}

/// A shortcut is in conflict exactly where another action has the same one: what
/// would match both, and no action with itself.
pub proof fn law_conflicts_are_shared_shortcuts(
    bindings: Seq<(KeybindAction, Shortcut)>,
    action: KeybindAction,
    shortcut: Shortcut,
)
    ensures
        conflicting(bindings, action, shortcut) is Some <==> exists|i: int|
            #![trigger bindings[i]]
            0 <= i < bindings.len() && bindings[i].0 != action && forall|key: Keystroke|
                is_shortcut(bindings[i].1, key) == #[trigger] is_shortcut(shortcut, key),
        conflicting(bindings, action, shortcut) != Some(action),
    decreases bindings.len(),
{
    assert forall|other: Shortcut| #[trigger] same_shortcut(other, shortcut) <==> forall|
        key: Keystroke,
    |
        is_shortcut(other, key) == #[trigger] is_shortcut(shortcut, key) by {
        let key = Keystroke {
            key: shortcut.key,
            key_char: None,
            modifiers: Modifiers {
                control: shortcut.control,
                alt: shortcut.alt,
                shift: shortcut.shift,
                platform: shortcut.platform,
                function: false,
            },
        };
        assert(is_shortcut(shortcut, key));
    }
    if bindings.len() > 0 {
        let rest = bindings.skip(1);
        law_conflicts_are_shared_shortcuts(rest, action, shortcut);
        assert(same_shortcut(bindings[0].1, shortcut) || !same_shortcut(bindings[0].1, shortcut));
        if conflicting(rest, action, shortcut) is Some {
            let i = choose|i: int|
                #![trigger rest[i]]
                0 <= i < rest.len() && rest[i].0 != action && forall|key: Keystroke|
                    is_shortcut(rest[i].1, key) == #[trigger] is_shortcut(shortcut, key);
            assert(bindings[i + 1] == rest[i]);
        } else if conflicting(bindings, action, shortcut) is None {
            assert forall|i: int|
                #![trigger bindings[i]]
                0 <= i < bindings.len() && bindings[i].0 != action implies !(forall|key: Keystroke|
                is_shortcut(bindings[i].1, key) == #[trigger] is_shortcut(shortcut, key)) by {
                if i > 0 {
                    assert(bindings[i] == rest[i - 1]);
                }
            }
        }
    }
}

/// Control with C stays with the terminal on every desktop, where no shortcut
/// claims it.
pub proof fn law_control_c_interrupts(
    bindings: Seq<(KeybindAction, Shortcut)>,
    session: TerminalSessionId,
    platform: PasteShortcutPlatform,
    key: Keystroke,
)
    requires
        key.key@ == "c"@,
        key.modifiers.control,
        bound_action(bindings, key) is None,
    ensures
        action_of(None, false, bindings, Some(session), platform, key) == KeyActionView::Input(
            session,
            seq![3u8],
        ),
{
    reveal_strlit("c");
    reveal_strlit("v");
    assert(folded("c"@)[0] == 'c');
    assert(folded("v"@)[0] == 'v');
    assert(!pastes(key, platform));
    assert(input_of(key) == Some(seq![3u8]));
}

} // verus!
