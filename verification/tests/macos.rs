use openlogi_inject::binding::{
    Effect, KeyCombo, KeyboardUsage, MediaKey, MouseButton, NativeAction, Script, Shortcut,
};
use openlogi_inject::chord::{parse_chord, parse_shortcut};
use openlogi_inject::held::{HeldKey, HeldModifiers, KeyPhase};
use openlogi_inject::inject::SYNTHETIC_EVENT_USER_DATA;
use openlogi_inject::macos::{
    click_posts, combo, combo_flags, dispatch_click, dispatch_native, execute, held_key_event,
    held_modifier_flags, hold_keys, key_posts, media_tap, nx_key, post_key, post_media_key,
    press_combo, run_apple_script, run_call, run_shell_command, sleep_system, text_posts, type_text,
    DockAction, HeldKeyEvent, KeyEvent, KeyTap, MacCommand, MacPlan, MediaEvent, MouseClick,
    MouseEvent, MouseEventType, PointerButton, SpaceStep, TextEvent, FLAG_ALTERNATE, FLAG_COMMAND,
    FLAG_CONTROL, FLAG_SHIFT,
};
use openlogi_inject::posting::{goes_on, group_posts, EventGroup};
use openlogi_inject::script::ScriptCall;

fn tap(vk: u16, flags: u64) -> Vec<MacCommand> {
    vec![MacCommand::Tap(KeyTap {
        down: KeyEvent { vk, flags, phase: KeyPhase::Down },
        up: KeyEvent { vk, flags, phase: KeyPhase::Up },
    })]
}

fn typed(scalars: &[u32]) -> Vec<TextEvent> {
    scalars
        .iter()
        .map(|scalar| TextEvent { vk: 0, phase: KeyPhase::Down, scalar: *scalar })
        .collect()
}

fn click(
    types: (MouseEventType, MouseEventType),
    button: PointerButton,
    number: Option<i64>,
) -> MouseClick {
    let event = |event_type| MouseEvent { event_type, button, number, user_data: 0x4F4C_4749 };
    MouseClick { down: event(types.0), up: event(types.1) }
}

fn media(data1: isize) -> MediaEvent {
    MediaEvent { subtype: 8, data1, data2: 0 }
}

#[test]
fn clicks_are_marked_down_and_up_pairs() {
    assert_eq!(SYNTHETIC_EVENT_USER_DATA, 0x4F4C_4749);
    let left = (MouseEventType::LeftMouseDown, MouseEventType::LeftMouseUp);
    let right = (MouseEventType::RightMouseDown, MouseEventType::RightMouseUp);
    let other = (MouseEventType::OtherMouseDown, MouseEventType::OtherMouseUp);
    assert_eq!(dispatch_click(MouseButton::Left), click(left, PointerButton::Left, None));
    assert_eq!(dispatch_click(MouseButton::Right), click(right, PointerButton::Right, None));
    assert_eq!(dispatch_click(MouseButton::Middle), click(other, PointerButton::Center, None));
    for (button, number) in [(MouseButton::Back, 3), (MouseButton::Forward, 4)] {
        assert_eq!(dispatch_click(button), click(other, PointerButton::Center, Some(number)));
    }
}

#[test]
fn chords_read_from_text() {
    assert_eq!(
        parse_shortcut("Cmd+Shift+Z"),
        KeyCombo {
            command: true,
            control: false,
            shift: true,
            option: false,
            key: KeyboardUsage { code: 0x1d },
        }
    );
    assert_eq!(parse_chord("Ctrl+Tab").map(|chord| chord.key().code()), Some(0x2b));
    assert_eq!(parse_chord("Cmd+[").map(|chord| chord.key().code()), Some(0x2f));
    assert_eq!(parse_chord("A").map(|chord| chord.has_command()), Some(false));
    assert_eq!(parse_chord(""), None);
    assert_eq!(parse_chord("Cmd+"), None);
    assert_eq!(parse_chord("Hyper+A"), None);
    assert_eq!(parse_chord("Cmd+AB"), None);
}

#[test]
fn every_shortcut_has_its_chord() {
    let table = [
        (Shortcut::Copy, "Cmd+C"),
        (Shortcut::Paste, "Cmd+V"),
        (Shortcut::Cut, "Cmd+X"),
        (Shortcut::Undo, "Cmd+Z"),
        (Shortcut::Redo, "Cmd+Shift+Z"),
        (Shortcut::SelectAll, "Cmd+A"),
        (Shortcut::Find, "Cmd+F"),
        (Shortcut::Save, "Cmd+S"),
        (Shortcut::BrowserBack, "Cmd+["),
        (Shortcut::BrowserForward, "Cmd+]"),
        (Shortcut::NewTab, "Cmd+T"),
        (Shortcut::CloseTab, "Cmd+W"),
        (Shortcut::ReopenTab, "Cmd+Shift+T"),
        (Shortcut::NextTab, "Ctrl+Tab"),
        (Shortcut::PrevTab, "Ctrl+Shift+Tab"),
        (Shortcut::ReloadPage, "Cmd+R"),
    ];
    for (shortcut, text) in table {
        assert_eq!(combo(shortcut), parse_shortcut(text));
    }
    assert_eq!(
        execute(&Effect::Shortcut(Shortcut::PrevTab)),
        MacPlan::Commands(tap(0x30, 0x0006_0000))
    );
}

#[test]
fn a_pressed_chord_is_a_tap_under_its_flags() {
    let chord = parse_shortcut("Cmd+Ctrl+Shift+Alt+L");
    assert_eq!(combo_flags(&chord), 0x001e_0000);
    assert_eq!(press_combo(&chord), tap(0x25, 0x001e_0000));
    assert_eq!(press_combo(&parse_shortcut("A")), tap(0x00, 0));
    let odd = KeyCombo { key: KeyboardUsage { code: 0xff }, ..chord };
    assert_eq!(press_combo(&odd), vec![MacCommand::Unmapped(odd.key())]);
}

#[test]
fn held_flags_follow_the_held_modifiers() {
    let mut modifiers = HeldModifiers::default();
    assert_eq!(held_modifier_flags(modifiers), 0);
    assert_eq!(
        held_key_event(HeldKey::Alt, KeyPhase::Down, &mut modifiers),
        Some((0x3a, FLAG_ALTERNATE))
    );
    assert_eq!(
        held_key_event(HeldKey::Control, KeyPhase::Down, &mut modifiers),
        Some((0x3b, FLAG_ALTERNATE | FLAG_CONTROL))
    );
    assert_eq!(
        held_key_event(HeldKey::Alt, KeyPhase::Up, &mut modifiers),
        Some((0x3a, FLAG_CONTROL))
    );
    let odd = HeldKey::Key(KeyboardUsage { code: 0x00 });
    assert_eq!(held_key_event(odd, KeyPhase::Down, &mut modifiers), None);
    assert_eq!(held_modifier_flags(modifiers), FLAG_CONTROL);
}

#[test]
fn up_edges_post_in_reverse() {
    let mut modifiers = HeldModifiers::default();
    modifiers.set(HeldKey::Command, true);
    modifiers.set(HeldKey::Shift, true);
    let (events, after) = hold_keys(&[HeldKey::Command, HeldKey::Shift], KeyPhase::Up, modifiers);
    assert_eq!(
        events,
        vec![
            HeldKeyEvent::Post(KeyEvent { vk: 0x38, flags: FLAG_COMMAND, phase: KeyPhase::Up }),
            HeldKeyEvent::Post(KeyEvent { vk: 0x37, flags: 0, phase: KeyPhase::Up }),
        ]
    );
    assert_eq!(after, HeldModifiers::default());
}

#[test]
fn text_is_typed_one_character_at_a_time() {
    assert_eq!(type_text("aé⌘"), typed(&[0x61, 0xe9, 0x2318]));
    assert_eq!(type_text("🎹"), typed(&[0x1_f3b9]));
    assert!(type_text("").is_empty());
    let spelled: String =
        type_text("aé⌘").iter().map(|event| char::from_u32(event.scalar).unwrap()).collect();
    assert_eq!(spelled, "aé⌘");
    assert_ne!(type_text("ab"), type_text("ba"));
}

#[test]
fn a_text_loses_only_the_characters_that_cannot_be_built() {
    let all = [true, true, true];
    assert_eq!(text_posts("aé⌘", true, &all), typed(&[0x61, 0xe9, 0x2318]));
    assert_eq!(text_posts("aé⌘", true, &[true, false, true]), typed(&[0x61, 0x2318]));
    assert_eq!(text_posts("aé⌘", true, &[false, true, true]), typed(&[0xe9, 0x2318]));
    assert!(text_posts("aé⌘", true, &[false, false, false]).is_empty());
    assert!(text_posts("aé⌘", false, &all).is_empty());
    assert!(text_posts("", true, &[]).is_empty());
}

#[test]
fn a_key_whose_press_is_lost_is_still_released() {
    let tap = post_key(0x25, FLAG_COMMAND);
    assert_eq!(key_posts(tap, true, true), vec![tap.down, tap.up]);
    assert_eq!(key_posts(tap, true, false), vec![tap.down]);
    assert_eq!(key_posts(tap, false, true), vec![tap.up]);
    assert!(key_posts(tap, false, false).is_empty());
    assert!(goes_on(EventGroup::Keys, false));
}

#[test]
fn groups_differ_only_after_a_lost_event() {
    let built = [true, true, false, true];
    for group in [EventGroup::Keys, EventGroup::Click, EventGroup::Text] {
        assert_eq!(group_posts(group, &[1, 2, 3, 4], &built), vec![1, 2, 4]);
        assert_eq!(group_posts(group, &[1, 2], &[true, true]), vec![1, 2]);
    }
    assert_eq!(group_posts(EventGroup::MediaTap, &[1, 2, 3, 4], &built), vec![1, 2]);
    assert_eq!(group_posts(EventGroup::MediaTap, &[1, 2], &[true, true]), vec![1, 2]);
}

#[test]
fn media_keys_carry_type_and_state() {
    assert_eq!(nx_key(MediaKey::PlayPause), 16);
    assert_eq!(nx_key(MediaKey::NextTrack), 17);
    assert_eq!(nx_key(MediaKey::PrevTrack), 18);
    assert_eq!(nx_key(MediaKey::VolumeUp), 0);
    assert_eq!(nx_key(MediaKey::VolumeDown), 1);
    assert_eq!(nx_key(MediaKey::Mute), 7);
    assert_eq!(post_media_key(16, true, true), vec![media(0x10_0a00), media(0x10_0b00)]);
    for nx_key in [0, 1, 7, 16, 17, 18, 0x1234, 0x7fff] {
        let word = isize::try_from(nx_key).unwrap() * 0x1_0000;
        let tap = media_tap(nx_key);
        assert_eq!(tap.down, media(word + 0x0a00));
        assert_eq!(tap.up, media(word + 0x0b00));
    }
    assert_eq!(media_tap(-1).down, media(-0x1_0000 + 0x0a00));
    assert_eq!(media_tap(-0x9000).up, media(0x7000_0b00));
}

#[test]
fn a_media_key_that_cannot_be_pressed_is_not_released() {
    assert!(post_media_key(16, false, true).is_empty());
    assert!(post_media_key(16, false, false).is_empty());
    assert_eq!(post_media_key(16, true, false), vec![media(0x10_0a00)]);
    assert!(!goes_on(EventGroup::MediaTap, false));
    assert!(goes_on(EventGroup::MediaTap, true));
}

#[test]
fn a_click_loses_only_the_event_that_cannot_be_built() {
    let click = dispatch_click(MouseButton::Left);
    assert_eq!(click_posts(click, true, true, true), vec![click.down, click.up]);
    assert_eq!(click_posts(click, true, true, false), vec![click.down]);
    assert_eq!(click_posts(click, true, false, true), vec![click.up]);
    assert!(click_posts(click, true, false, false).is_empty());
    assert!(click_posts(click, false, true, true).is_empty());
    for built in [false, true] {
        assert!(goes_on(EventGroup::Click, built));
        assert!(goes_on(EventGroup::Text, built));
    }
}

#[test]
fn native_actions_reach_their_owner() {
    assert_eq!(
        dispatch_native(NativeAction::MissionControl),
        vec![MacCommand::Dock(DockAction::MissionControl)]
    );
    assert_eq!(
        dispatch_native(NativeAction::AppExpose),
        vec![MacCommand::Dock(DockAction::AppExpose)]
    );
    assert_eq!(
        dispatch_native(NativeAction::ShowDesktop),
        vec![MacCommand::Dock(DockAction::ShowDesktop)]
    );
    assert_eq!(
        dispatch_native(NativeAction::LaunchpadShow),
        vec![MacCommand::Dock(DockAction::Launchpad)]
    );
    assert_eq!(
        dispatch_native(NativeAction::PreviousDesktop),
        vec![MacCommand::Space(SpaceStep::Previous)]
    );
    assert_eq!(
        dispatch_native(NativeAction::NextDesktop),
        vec![MacCommand::Space(SpaceStep::Next)]
    );
    assert_eq!(dispatch_native(NativeAction::AppSwitcher), vec![MacCommand::QuickSwitch]);
    assert_eq!(
        dispatch_native(NativeAction::LockScreen),
        tap(0x0c, FLAG_COMMAND | FLAG_CONTROL)
    );
    assert_eq!(
        dispatch_native(NativeAction::Screenshot),
        tap(0x14, FLAG_COMMAND | FLAG_SHIFT)
    );
    assert_eq!(
        dispatch_native(NativeAction::CaptureRegion),
        tap(0x15, FLAG_COMMAND | FLAG_SHIFT | FLAG_CONTROL)
    );
    assert_eq!(dispatch_native(NativeAction::Sleep), vec![MacCommand::SleepSystem]);
}

#[test]
fn processes_get_their_arguments() {
    let script = run_apple_script("beep 2");
    assert_eq!(script.program, "osascript");
    assert_eq!(script.args, vec!["-e", "beep 2"]);
    let shell = run_shell_command("ls | wc");
    assert_eq!(shell.program, "/bin/sh");
    assert_eq!(shell.args, vec!["-c", "ls | wc"]);
    let sleep = sleep_system();
    assert_eq!(sleep.program, "/usr/bin/pmset");
    assert_eq!(sleep.args, vec!["sleepnow"]);
}

#[test]
fn each_script_call_has_its_commands() {
    let chord = parse_shortcut("Cmd+A");
    let cases = vec![
        (ScriptCall::TypeText("hi".to_string()), vec![MacCommand::Text("hi".to_string())]),
        (ScriptCall::Sleep { millis: 250 }, vec![MacCommand::Pause { millis: 250 }]),
        (ScriptCall::PressCombo(chord), tap(0x00, FLAG_COMMAND)),
        (
            ScriptCall::RunAppleScript("beep".to_string()),
            vec![MacCommand::AppleScript("beep".to_string())],
        ),
        (
            ScriptCall::RunShellCommand("true".to_string()),
            vec![MacCommand::Shell("true".to_string())],
        ),
    ];
    for (call, commands) in cases {
        assert_eq!(run_call(&call), commands);
    }
}

#[test]
fn scripts_run_on_a_worker() {
    assert_eq!(
        execute(&Effect::Script(Script::ShellCommand("true".to_string()))),
        MacPlan::Script(vec![ScriptCall::RunShellCommand("true".to_string())])
    );
}

#[test]
fn other_effects_run_on_the_caller() {
    let chord = parse_shortcut("Cmd+A");
    let cases = vec![
        (Effect::Suppressed, vec![]),
        (Effect::Key(chord), tap(0x00, FLAG_COMMAND)),
        (Effect::HeldKey(chord), tap(0x00, FLAG_COMMAND)),
        (Effect::Scroll { dx: -1, dy: 2 }, vec![MacCommand::Wheel { dx: -1, dy: 2 }]),
        (Effect::Media(MediaKey::Mute), vec![MacCommand::Media(media_tap(7))]),
        (Effect::Native(NativeAction::Sleep), vec![MacCommand::SleepSystem]),
        (Effect::Text("x".to_string()), vec![MacCommand::Text("x".to_string())]),
        (
            Effect::Click(MouseButton::Back),
            vec![MacCommand::Click(dispatch_click(MouseButton::Back))],
        ),
        (Effect::AgentSide, vec![MacCommand::AgentSide]),
    ];
    for (effect, commands) in cases {
        assert_eq!(execute(&effect), MacPlan::Commands(commands));
    }
}
