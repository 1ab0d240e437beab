use openlogi_inject::binding::{HoldKind, KeyCombo, KeyboardUsage, MouseButton, Platform, Shortcut};
use openlogi_inject::chord::parse_shortcut;
use openlogi_inject::held::{HeldKey, HeldKeyOwners, HeldModifiers, HoldTransition, KeyPhase};
use openlogi_inject::hold::{chord_keys, held_keys, press_hold, HeldOutput, Post};
use openlogi_inject::macos::{
    combo, dispatch_click, held_key_event, hold_keys, press_combo, HeldKeyEvent, MacCommand,
};

const KINDS: [&str; 4] = ["Cmd+A", "Ctrl+A", "Cmd+Alt+Shift+L", "Alt+Tab"];

fn kinds() -> Vec<HoldKind> {
    let mut kinds: Vec<HoldKind> = KINDS
        .iter()
        .map(|text| HoldKind::Chord(parse_shortcut(text)))
        .collect();
    kinds.push(HoldKind::AppSwitcher);
    kinds
}

fn all_keys() -> Vec<HeldKey> {
    let mut keys = vec![HeldKey::Command, HeldKey::Control, HeldKey::Shift, HeldKey::Alt];
    for code in 0..=255u8 {
        keys.push(HeldKey::Key(KeyboardUsage { code }));
    }
    keys
}

fn owned(owners: &HeldKeyOwners) -> Vec<HeldKey> {
    all_keys()
        .into_iter()
        .filter(|key| owners.contains_key(*key))
        .collect()
}

#[test]
fn ownership_accounts_for_the_live_outputs() {
    for platform in [Platform::MacOs, Platform::Linux, Platform::Windows] {
        let mut owners = HeldKeyOwners::default();
        let mut live: Vec<HeldOutput> = Vec::new();
        for kind in kinds() {
            live.push(press_hold(platform, &mut owners, kind).0);
        }
        let last = live.len() - 1;
        live[0].retarget(platform, &mut owners, HoldKind::AppSwitcher);
        live[last].retarget(platform, &mut owners, kinds()[0]);
        while let Some(output) = live.pop() {
            for key in all_keys() {
                let holders = live.iter().chain([&output]).filter(|output| {
                    held_keys(platform, &output.kind()).contains(&key)
                });
                assert_eq!(owners.contains_key(key), holders.count() > 0);
            }
            output.release(platform, &mut owners);
        }
        assert_eq!(owned(&owners), vec![]);
    }
}

#[test]
fn posted_edges_follow_the_ownership() {
    let mut owners = HeldKeyOwners::default();
    let mut down: Vec<HeldKey> = Vec::new();
    let mut previous: Vec<HeldKey> = Vec::new();
    for kind in kinds() {
        let next = held_keys(Platform::MacOs, &kind);
        let edges = owners.transition(&previous, &next);
        down.retain(|key| !edges.up.contains(key));
        down.extend(edges.down);
        assert_eq!(down.len(), owned(&owners).len());
        assert!(down.iter().all(|key| owners.contains_key(*key)));
        previous = next;
    }
}

#[test]
fn the_event_modifiers_end_at_the_ownership() {
    let mut owners = HeldKeyOwners::default();
    let mut previous: Vec<HeldKey> = Vec::new();
    for kind in kinds() {
        let next = held_keys(Platform::MacOs, &kind);
        let modifiers = owners.modifiers();
        let edges = owners.transition(&previous, &next);
        let (_, modifiers) = hold_keys(&edges.up, KeyPhase::Up, modifiers);
        let (_, modifiers) = hold_keys(&edges.down, KeyPhase::Down, modifiers);
        assert_eq!(modifiers, owners.modifiers());
        previous = next;
    }
}

#[test]
fn pressing_and_releasing_restores_the_ownership() {
    for platform in [Platform::MacOs, Platform::Linux, Platform::Other] {
        let mut owners = HeldKeyOwners::default();
        let (_held, _) = press_hold(platform, &mut owners, kinds()[2]);
        let before = owned(&owners);
        for kind in kinds() {
            let (held, _) = press_hold(platform, &mut owners, kind);
            held.release(platform, &mut owners);
            assert_eq!(owned(&owners), before);
        }
    }
}

#[test]
fn retargeting_back_restores_the_ownership() {
    for previous in kinds() {
        for next in kinds() {
            let mut owners = HeldKeyOwners::default();
            let (mut held, _) = press_hold(Platform::MacOs, &mut owners, previous);
            let before = owned(&owners);
            held.retarget(Platform::MacOs, &mut owners, next);
            assert_eq!(owned(&owners).len(), held_keys(Platform::MacOs, &next).len());
            held.retarget(Platform::MacOs, &mut owners, previous);
            assert_eq!(owned(&owners), before);
        }
    }
}

#[test]
fn an_output_owns_no_key_twice() {
    for platform in [Platform::MacOs, Platform::Linux, Platform::Windows, Platform::Other] {
        for kind in kinds() {
            let keys = held_keys(platform, &kind);
            for (i, key) in keys.iter().enumerate() {
                assert!(!keys[..i].contains(key));
            }
        }
    }
}

#[test]
fn command_is_control_off_macos() {
    for platform in [Platform::Linux, Platform::Windows] {
        assert_eq!(
            chord_keys(platform, &parse_shortcut("Cmd+A")),
            chord_keys(platform, &parse_shortcut("Ctrl+A"))
        );
        for kind in kinds() {
            assert!(!held_keys(platform, &kind).contains(&HeldKey::Command));
        }
    }
}

#[test]
fn a_switcher_under_a_shared_modifier_commits_before_the_chord() {
    let mut owners = HeldKeyOwners::default();
    let chord = parse_shortcut("Cmd+A");
    let (mut held, _) = press_hold(Platform::Linux, &mut owners, HoldKind::AppSwitcher);
    let posts = held.retarget(
        Platform::Linux,
        &mut owners,
        HoldKind::Chord(KeyCombo { option: true, ..chord }),
    );
    assert_eq!(
        posts,
        vec![
            Post::HoldKeys(HoldTransition { up: vec![HeldKey::Alt], down: vec![] }),
            Post::HoldKeys(HoldTransition {
                up: vec![],
                down: vec![HeldKey::Control, HeldKey::Alt, HeldKey::Key(chord.key())],
            }),
        ]
    );
}

#[test]
fn a_held_chord_carries_the_flags_of_its_tap() {
    for text in KINDS {
        let chord = parse_shortcut(text);
        let mut owners = HeldKeyOwners::default();
        let (_held, posts) = press_hold(Platform::MacOs, &mut owners, HoldKind::Chord(chord));
        let last = match &posts[0] {
            Post::MacKeys(events) => events[events.len() - 1],
            _ => panic!("macOS posts keyboard edges"),
        };
        let tapped = press_combo(&chord);
        match last {
            HeldKeyEvent::Post(event) => match tapped[0] {
                MacCommand::Tap(tap) => assert_eq!(tap.down, event),
                _ => panic!("a chord is tapped"),
            },
            HeldKeyEvent::Unmapped(_) => panic!("every key of the list is mapped"),
        }
    }
}

#[test]
fn held_keys_have_distinct_virtual_keys() {
    let mut seen: Vec<u16> = Vec::new();
    for key in all_keys() {
        let mut modifiers = HeldKeyOwners::default().modifiers();
        if let Some((vk, _)) = held_key_event(key, KeyPhase::Down, &mut modifiers) {
            assert!(!seen.contains(&vk));
            seen.push(vk);
        }
    }
}

#[test]
fn shortcuts_have_distinct_mapped_chords() {
    let shortcuts = [
        Shortcut::Copy,
        Shortcut::Paste,
        Shortcut::Cut,
        Shortcut::Undo,
        Shortcut::Redo,
        Shortcut::SelectAll,
        Shortcut::Find,
        Shortcut::Save,
        Shortcut::BrowserBack,
        Shortcut::BrowserForward,
        Shortcut::NewTab,
        Shortcut::CloseTab,
        Shortcut::ReopenTab,
        Shortcut::NextTab,
        Shortcut::PrevTab,
        Shortcut::ReloadPage,
    ];
    for (i, shortcut) in shortcuts.iter().enumerate() {
        assert!(matches!(press_combo(&combo(*shortcut))[..], [MacCommand::Tap(_)]));
        for other in &shortcuts[..i] {
            assert_ne!(combo(*shortcut), combo(*other));
        }
    }
}

#[test]
fn no_click_goes_out_unmarked() {
    for button in [
        MouseButton::Left,
        MouseButton::Right,
        MouseButton::Middle,
        MouseButton::Back,
        MouseButton::Forward,
    ] {
        let click = dispatch_click(button);
        assert_eq!(click.down.user_data, 0x4F4C_4749);
        assert_eq!(click.up.user_data, 0x4F4C_4749);
    }
}

#[test]
fn releasing_undoes_pressing_for_any_list() {
    let a = HeldKey::Key(KeyboardUsage { code: 4 });
    let mut owners = HeldKeyOwners::default();
    owners.transition(&[], &[HeldKey::Shift]);
    let keys = [HeldKey::Shift, a, HeldKey::Alt, a];
    let pressed = owners.transition(&[], &keys);
    assert_eq!(pressed, HoldTransition { up: vec![], down: vec![a, HeldKey::Alt, a] });
    let released = owners.transition(&keys, &[]);
    assert_eq!(released, HoldTransition { up: pressed.down, down: vec![] });
    assert_eq!(owned(&owners), vec![HeldKey::Shift]);
}

#[test]
fn the_order_within_a_batch_is_free() {
    let start = [HeldKey::Shift, HeldKey::Alt];
    let mut ours = HeldKeyOwners::default();
    let mut theirs = HeldKeyOwners::default();
    ours.transition(&[], &start);
    theirs.transition(&[], &start);
    let one = ours.transition(&[HeldKey::Shift, HeldKey::Alt], &[HeldKey::Alt, HeldKey::Command]);
    let other =
        theirs.transition(&[HeldKey::Alt, HeldKey::Shift], &[HeldKey::Command, HeldKey::Alt]);
    assert_eq!(one, HoldTransition { up: vec![HeldKey::Shift], down: vec![HeldKey::Command] });
    assert_eq!(one, other);
    assert_eq!(owned(&ours), owned(&theirs));
}

#[test]
fn edges_keep_the_order_of_their_lists() {
    let mut owners = HeldKeyOwners::default();
    let edges = owners.transition(&[], &[HeldKey::Alt, HeldKey::Command, HeldKey::Shift]);
    assert_eq!(edges.down, vec![HeldKey::Alt, HeldKey::Command, HeldKey::Shift]);
    let edges = owners.transition(
        &[HeldKey::Shift, HeldKey::Command, HeldKey::Alt],
        &[HeldKey::Control, HeldKey::Command],
    );
    assert_eq!(edges.up, vec![HeldKey::Shift, HeldKey::Alt]);
    assert_eq!(edges.down, vec![HeldKey::Control]);
}

#[test]
fn a_whole_life_ends_as_it_began() {
    for platform in [Platform::Linux, Platform::Windows] {
        let mut owners = HeldKeyOwners::default();
        owners.transition(&[], &[HeldKey::Shift]);
        let kinds = kinds();
        let (mut output, _) = press_hold(platform, &mut owners, kinds[0]);
        for kind in &kinds[1..] {
            output.retarget(platform, &mut owners, *kind);
        }
        output.retarget(platform, &mut owners, HoldKind::Chord(parse_shortcut("Shift+Alt+B")));
        let b = HeldKey::Key(KeyboardUsage { code: 5 });
        match output.release(platform, &mut owners) {
            Post::HoldKeys(edges) => {
                assert_eq!(edges.up, vec![HeldKey::Alt, b]);
                assert_eq!(edges.down, vec![]);
            }
            _ => panic!("a release is one batch"),
        }
        assert_eq!(owned(&owners), vec![HeldKey::Shift]);
    }
}

#[test]
fn a_record_holds_modifiers_alone() {
    let mut record = HeldModifiers::default();
    for (i, key) in all_keys().into_iter().enumerate() {
        let before = record;
        record.set(key, true);
        assert_eq!(record.contains(key), i < 4);
        if i >= 4 {
            assert_eq!(record, before);
        }
    }
    record.set(HeldKey::Shift, false);
    for key in [HeldKey::Command, HeldKey::Control, HeldKey::Alt] {
        assert!(record.contains(key));
    }
    assert!(!record.contains(HeldKey::Shift));
}
