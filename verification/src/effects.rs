//! What each effect does on macOS, down to the fields of the events it posts.

use vstd::prelude::*;

use crate::binding::{
    Effect, KeyCombo, MediaKey, MouseButton, NativeAction, Shortcut,
};
use crate::held::{HeldKey, KeyPhase};
use crate::keymap::{law_macos_keys_distinct, macos_key, macos_types};
use crate::macos::{
    button_click, call_commands, chord_flags, chord_tap, click, effect_commands, flag_sum,
    held_flags, key_tap, media_event, media_key_type, native_commands, other_click, shortcut_chord,
    source_args, typed, DockAction, MacCommand, MouseClick, MouseEventType, PointerButton, Process, SpaceStep,
};
use crate::script::ScriptCall;

verus! {

/// The event flags of four modifiers: one bit each, as Core Graphics has them.
pub open spec fn flag_bits(command: bool, control: bool, shift: bool, option: bool) -> int {
    (if shift {
        0x2_0000int
    } else {
        0
    }) + (if control {
        0x4_0000int
    } else {
        0
    }) + (if option {
        0x8_0000int
    } else {
        0
    }) + (if command {
        0x10_0000int
    } else {
        0
    })
}

/// Whether `commands` are one tap of `vk` under the four modifiers: down, then
/// up, both with the same flags.
pub open spec fn is_tap(
    commands: Seq<MacCommand>,
    vk: u16,
    command: bool,
    control: bool,
    shift: bool,
    option: bool,
) -> bool {
    &&& commands.len() == 1
    &&& commands[0] matches MacCommand::Tap(tap)
    &&& tap.down.vk == vk
    &&& tap.up.vk == vk
    &&& tap.down.phase == KeyPhase::Down
    &&& tap.up.phase == KeyPhase::Up
    &&& tap.down.flags == flag_bits(command, control, shift, option)
    &&& tap.up.flags == flag_bits(command, control, shift, option)
}

/// Whether `commands` tap a chord: its key under exactly its modifiers, or the
/// report that its key has no virtual key.
pub open spec fn taps_chord(commands: Seq<MacCommand>, combo: KeyCombo) -> bool {
    match macos_key(combo.key.code) {
        Some(vk) => is_tap(
            commands,
            vk,
            combo.command,
            combo.control,
            combo.shift,
            combo.option,
        ),
        None => commands.len() == 1 && (commands[0] matches MacCommand::Unmapped(usage)
            && usage.code == combo.key.code),
    }
}

/// The flags of a chord, of held modifiers and of four switches name exactly
/// the modifiers that are in them.
pub proof fn law_flags_name_their_modifiers(
    combo: KeyCombo,
    modifiers: Set<HeldKey>,
    command: bool,
    control: bool,
    shift: bool,
    option: bool,
)
    ensures
        flag_sum(command, shift, control, option) == flag_bits(command, control, shift, option),
        chord_flags(combo) == flag_bits(combo.command, combo.control, combo.shift, combo.option),
        held_flags(modifiers) == flag_bits(
            modifiers.contains(HeldKey::Command),
            modifiers.contains(HeldKey::Control),
            modifiers.contains(HeldKey::Shift),
            modifiers.contains(HeldKey::Alt),
        ),
{
}

/// A tap presses and releases the one key, under the one set of flags.
pub proof fn law_tap_presses_then_releases(vk: u16, flags: u64)
    ensures
        key_tap(vk, flags as int).down.vk == vk,
        key_tap(vk, flags as int).up.vk == vk,
        key_tap(vk, flags as int).down.flags == flags,
        key_tap(vk, flags as int).up.flags == flags,
        key_tap(vk, flags as int).down.phase == KeyPhase::Down,
        key_tap(vk, flags as int).up.phase == KeyPhase::Up,
{
}

/// A chord is tapped whole, whether it comes as a pressed chord, as the effect
/// of a key, as that of a held key or from a script.
pub proof fn law_chords_are_tapped_whole(combo: KeyCombo)
    ensures
        taps_chord(chord_tap(combo), combo),
        taps_chord(effect_commands(Effect::Key(combo)), combo),
        taps_chord(effect_commands(Effect::HeldKey(combo)), combo),
        taps_chord(call_commands(ScriptCall::PressCombo(combo)), combo),
{
}

/// Two chords that are tapped alike are the same chord, and two that are
/// reported alike have the same key.
pub proof fn law_tapped_chords_distinct(a: KeyCombo, b: KeyCombo)
    requires
        chord_tap(a) == chord_tap(b),
    ensures
        a.key == b.key,
        macos_key(a.key.code) is Some ==> a == b,
{
    law_chords_are_tapped_whole(a);
    law_chords_are_tapped_whole(b);
    if macos_key(a.key.code) is Some && macos_key(b.key.code) is Some {
        law_macos_keys_distinct(a.key.code, b.key.code);
    }
    assert(a.key == b.key);
    assert(chord_tap(a)[0] == chord_tap(b)[0]);
    lemma_flag_bits_distinct(a, b);
}

/// Chords with the same flags have the same modifiers.
proof fn lemma_flag_bits_distinct(a: KeyCombo, b: KeyCombo)
    ensures
        flag_bits(a.command, a.control, a.shift, a.option) == flag_bits(
            b.command,
            b.control,
            b.shift,
            b.option,
        ) ==> a.command == b.command && a.control == b.control && a.shift == b.shift && a.option
            == b.option,
{
}

/// Whether a click is of these types, of this button, by this number, and
/// carries the mark on both of its events.
pub open spec fn is_click(
    click: MouseClick,
    down: MouseEventType,
    up: MouseEventType,
    button: PointerButton,
    number: Option<i64>,
) -> bool {
    &&& click.down.event_type == down
    &&& click.up.event_type == up
    &&& click.down.button == button
    &&& click.up.button == button
    &&& click.down.number == number
    &&& click.up.number == number
    &&& click.down.user_data == 0x4F4C_4749
    &&& click.up.user_data == 0x4F4C_4749
}

/// A named button is pressed and released as itself.
pub proof fn law_named_buttons_click(button: PointerButton)
    ensures
        match button {
            PointerButton::Left => is_click(
                click(button),
                MouseEventType::LeftMouseDown,
                MouseEventType::LeftMouseUp,
                PointerButton::Left,
                None,
            ),
            PointerButton::Right => is_click(
                click(button),
                MouseEventType::RightMouseDown,
                MouseEventType::RightMouseUp,
                PointerButton::Right,
                None,
            ),
            PointerButton::Center => is_click(
                click(button),
                MouseEventType::OtherMouseDown,
                MouseEventType::OtherMouseUp,
                PointerButton::Center,
                None,
            ),
        },
{
}

/// An extra button is pressed and released by its own number.
pub proof fn law_extra_buttons_click(number: i64)
    ensures
        is_click(
            other_click(number),
            MouseEventType::OtherMouseDown,
            MouseEventType::OtherMouseUp,
            PointerButton::Center,
            Some(number),
        ),
{
}

/// A bound click is one click of the button that was bound: the named three as
/// themselves, back as number three and forward as number four.
pub proof fn law_bound_clicks_click_their_button(button: MouseButton)
    ensures
        effect_commands(Effect::Click(button)).len() == 1,
        effect_commands(Effect::Click(button))[0] matches MacCommand::Click(clicked) && clicked
            == button_click(button) && match button {
            MouseButton::Left => clicked == click(PointerButton::Left),
            MouseButton::Right => clicked == click(PointerButton::Right),
            MouseButton::Middle => clicked == click(PointerButton::Center),
            MouseButton::Back => clicked == other_click(3),
            MouseButton::Forward => clicked == other_click(4),
        },
{
}

/// Two buttons that click alike are the same button.
pub proof fn law_bound_clicks_distinct(a: MouseButton, b: MouseButton)
    requires
        effect_commands(Effect::Click(a)) == effect_commands(Effect::Click(b)),
    ensures
        a == b,
{
    law_bound_clicks_click_their_button(a);
    law_bound_clicks_click_their_button(b);
    law_extra_buttons_click(3);
    law_extra_buttons_click(4);
    assert(effect_commands(Effect::Click(a))[0] == effect_commands(Effect::Click(b))[0]);
    assert(button_click(a) == button_click(b));
}

/// The number of a media key in `<IOKit/hidsystem/ev_keymap.h>`.
pub open spec fn ev_keymap_number(key: MediaKey) -> int {
    match key {
        MediaKey::VolumeUp => 0,
        MediaKey::VolumeDown => 1,
        MediaKey::Mute => 7,
        MediaKey::PlayPause => 16,
        MediaKey::NextTrack => 17,
        MediaKey::PrevTrack => 18,
    }
}

/// A media key is one tap of its own key type: a press with the state ten and a
/// release with the state eleven, each an auxiliary control button event.
pub proof fn law_media_keys_press_their_type(key: MediaKey)
    ensures
        media_key_type(key) == ev_keymap_number(key),
        effect_commands(Effect::Media(key)).len() == 1,
        effect_commands(Effect::Media(key))[0] matches MacCommand::Media(tap) && {
            &&& tap.down.data1 == ev_keymap_number(key) * 0x1_0000 + 0x0a00
            &&& tap.up.data1 == ev_keymap_number(key) * 0x1_0000 + 0x0b00
            &&& tap.down.subtype == 8
            &&& tap.up.subtype == 8
            &&& tap.down.data2 == 0
            &&& tap.up.data2 == 0
        },
{
}

/// Two media keys with the same commands are the same key.
pub proof fn law_media_keys_distinct(a: MediaKey, b: MediaKey)
    requires
        effect_commands(Effect::Media(a)) == effect_commands(Effect::Media(b)),
    ensures
        a == b,
{
    law_media_keys_press_their_type(a);
    law_media_keys_press_their_type(b);
    assert(effect_commands(Effect::Media(a))[0] == effect_commands(Effect::Media(b))[0]);
}

/// The data word of any key type and either state: the state in its byte, the
/// type in the word above it, and nothing in the low byte.
pub proof fn law_media_events_hold_type_and_state(nx_key: i32, state: i32)
    requires
        state == 0x0a || state == 0x0b,
    ensures
        media_event(nx_key, state).subtype == 8,
        media_event(nx_key, state).data2 == 0,
        media_event(nx_key, state).data1 % 0x1_0000 == state * 0x100,
        (media_event(nx_key, state).data1 / 0x1_0000 - nx_key) % 0x1_0000 == 0,
        0 <= nx_key < 0x8000 ==> media_event(nx_key, state).data1 == nx_key * 0x1_0000 + state
            * 0x100,
{
}

/// What a shortcut's key types, as its ASCII code; the tabulator for the two
/// that walk through tabs.
pub open spec fn shortcut_types(shortcut: Shortcut) -> int {
    match shortcut {
        Shortcut::SelectAll => 'A' as int,
        Shortcut::Copy => 'C' as int,
        Shortcut::Find => 'F' as int,
        Shortcut::ReloadPage => 'R' as int,
        Shortcut::Save => 'S' as int,
        Shortcut::NewTab => 'T' as int,
        Shortcut::ReopenTab => 'T' as int,
        Shortcut::Paste => 'V' as int,
        Shortcut::CloseTab => 'W' as int,
        Shortcut::Cut => 'X' as int,
        Shortcut::Undo => 'Z' as int,
        Shortcut::Redo => 'Z' as int,
        Shortcut::BrowserBack => '[' as int,
        Shortcut::BrowserForward => ']' as int,
        Shortcut::NextTab => 9,
        Shortcut::PrevTab => 9,
    }
}

/// A shortcut taps the key that types its letter. Walking through tabs is under
/// Control and all else under Command; the three that go back on another are
/// that one under Shift; none is under Option.
pub proof fn law_shortcuts_tap_their_letter(shortcut: Shortcut)
    ensures
        ({
            let tabs = shortcut == Shortcut::NextTab || shortcut == Shortcut::PrevTab;
            let back = shortcut == Shortcut::Redo || shortcut == Shortcut::ReopenTab || shortcut
                == Shortcut::PrevTab;
            let vk = macos_key(shortcut_chord(shortcut).key.code);
            &&& vk is Some
            &&& tabs <==> vk == Some(0x30u16)
            &&& !tabs ==> macos_types(vk.unwrap()) == shortcut_types(shortcut)
            &&& shortcut_chord(shortcut).command == !tabs
            &&& shortcut_chord(shortcut).control == tabs
            &&& shortcut_chord(shortcut).shift == back
            &&& shortcut_chord(shortcut).option == false
            &&& is_tap(
                effect_commands(Effect::Shortcut(shortcut)),
                vk.unwrap(),
                !tabs,
                tabs,
                back,
                false,
            )
        }),
{
}

/// Redo is Undo under Shift, and so is reopening a tab opening one, and walking
/// back through tabs walking on.
pub proof fn law_shift_goes_back()
    ensures
        shortcut_chord(Shortcut::Redo) == (KeyCombo {
            shift: true,
            ..shortcut_chord(Shortcut::Undo)
        }),
        shortcut_chord(Shortcut::ReopenTab) == (KeyCombo {
            shift: true,
            ..shortcut_chord(Shortcut::NewTab)
        }),
        shortcut_chord(Shortcut::PrevTab) == (KeyCombo {
            shift: true,
            ..shortcut_chord(Shortcut::NextTab)
        }),
{
}

/// A native action is one command, the one that is named for it. The three that
/// have no owner to ask tap the key that types their letter or digit: locking
/// Q, a screenshot 3, a region 4.
pub proof fn law_native_actions_reach_their_owner(native: NativeAction)
    ensures
        effect_commands(Effect::Native(native)) == native_commands(native),
        native_commands(native).len() == 1,
        match native {
            NativeAction::MissionControl => native_commands(native)[0] == MacCommand::Dock(
                DockAction::MissionControl,
            ),
            NativeAction::AppExpose => native_commands(native)[0] == MacCommand::Dock(
                DockAction::AppExpose,
            ),
            NativeAction::ShowDesktop => native_commands(native)[0] == MacCommand::Dock(
                DockAction::ShowDesktop,
            ),
            NativeAction::LaunchpadShow => native_commands(native)[0] == MacCommand::Dock(
                DockAction::Launchpad,
            ),
            NativeAction::PreviousDesktop => native_commands(native)[0] == MacCommand::Space(
                SpaceStep::Previous,
            ),
            NativeAction::NextDesktop => native_commands(native)[0] == MacCommand::Space(
                SpaceStep::Next,
            ),
            NativeAction::AppSwitcher => native_commands(native)[0] is QuickSwitch,
            NativeAction::Sleep => native_commands(native)[0] is SleepSystem,
            NativeAction::LockScreen => is_tap(
                native_commands(native),
                0x0c,
                true,
                true,
                false,
                false,
            ) && macos_types(0x0c) == 'Q' as int,
            NativeAction::Screenshot => is_tap(
                native_commands(native),
                0x14,
                true,
                false,
                true,
                false,
            ) && macos_types(0x14) == '3' as int,
            NativeAction::CaptureRegion => is_tap(
                native_commands(native),
                0x15,
                true,
                true,
                true,
                false,
            ) && macos_types(0x15) == '4' as int,
        },
{
}

/// Two native actions with the same commands are the same action.
pub proof fn law_native_actions_distinct(a: NativeAction, b: NativeAction)
    requires
        native_commands(a) == native_commands(b),
    ensures
        a == b,
{
    law_native_actions_reach_their_owner(a);
    law_native_actions_reach_their_owner(b);
    assert(native_commands(a)[0] == native_commands(b)[0]);
}

/// Scrolling turns the wheel by the same ticks on the same axes, a text is
/// typed as it stands, an action of the agent is left to it, and a suppressed
/// one does nothing.
pub proof fn law_plain_effects(dx: i32, dy: i32, text: String)
    ensures
        effect_commands(Effect::Scroll { dx, dy }).len() == 1,
        effect_commands(Effect::Scroll { dx, dy })[0] matches MacCommand::Wheel { dx: x, dy: y }
            && x == dx && y == dy,
        effect_commands(Effect::Text(text)).len() == 1,
        effect_commands(Effect::Text(text))[0] matches MacCommand::Text(typed) && typed@ == text@,
        effect_commands(Effect::AgentSide).len() == 1,
        effect_commands(Effect::AgentSide)[0] is AgentSide,
        effect_commands(Effect::Suppressed).len() == 0,
{
}

/// Each call of a script is performed with what it carries.
pub proof fn law_calls_are_performed_whole(call: ScriptCall)
    ensures
        call_commands(call).len() == 1,
        match call {
            ScriptCall::TypeText(text) => call_commands(call)[0] matches MacCommand::Text(t) && t@
                == text@,
            ScriptCall::PressCombo(combo) => taps_chord(call_commands(call), combo),
            ScriptCall::Sleep { millis } => call_commands(call)[0] matches MacCommand::Pause {
                millis: m,
            } && m == millis,
            ScriptCall::RunAppleScript(src) => call_commands(call)[0] matches MacCommand::AppleScript(
                s,
            ) && s@ == src@,
            ScriptCall::RunShellCommand(cmd) => call_commands(call)[0] matches MacCommand::Shell(c)
                && c@ == cmd@,
        },
{
}

/// A typed character is one key-down event of the placeholder key that carries
/// the character, at the character's own place.
pub proof fn law_each_character_is_one_event(text: Seq<char>, i: int)
    requires
        0 <= i < text.len(),
    ensures
        typed(text).len() == text.len(),
        typed(text)[i].vk == 0,
        typed(text)[i].phase == KeyPhase::Down,
        typed(text)[i].scalar == text[i] as u32,
{
}

/// A process that runs a program runs that one, with each argument at its place
/// and no other.
pub proof fn law_processes_run_what_they_name(
    process: Process,
    program: Seq<char>,
    args: Seq<Seq<char>>,
)
    ensures
        process.runs(program, args) <==> process.program@ == program && Seq::new(
            process.args@.len(),
            |i: int| process.args@[i]@,
        ) == args,
{
    let given = Seq::new(process.args@.len(), |i: int| process.args@[i]@);
    if process.runs(program, args) {
        assert(given =~= args);
    }
}

/// A source is handed to its program whole, as the one argument after the
/// option; so processes that are alike run the same source.
pub proof fn law_sources_are_handed_over_whole(
    option: Seq<char>,
    source: Seq<char>,
    other: Seq<char>,
)
    ensures
        source_args(option, source).len() == 2,
        source_args(option, source)[0] == option,
        source_args(option, source)[1] == source,
        source_args(option, source) == source_args(option, other) ==> source == other,
{
    if source_args(option, source) == source_args(option, other) {
        assert(source_args(option, source)[1] == source_args(option, other)[1]);
    }
}

} // verus!
