use openlogi_inject::binding::{HoldKind, KeyCombo, KeyboardUsage, Platform};
use openlogi_inject::chord::parse_shortcut;
use openlogi_inject::held::{HeldKey, HeldKeyOwners, HeldModifiers, HoldTransition, KeyPhase};
use openlogi_inject::hold::{
    can_hold, chord_keys, held_keys, hold_transition, press_hold, quick_switch, retarget_steps,
    tap_app_switcher, HoldStep, Post,
};
use openlogi_inject::macos::{HeldKeyEvent, KeyEvent, FLAG_ALTERNATE, FLAG_COMMAND, FLAG_SHIFT};

const BACKENDS: [Platform; 3] = [Platform::MacOs, Platform::Linux, Platform::Windows];

fn combo(label: &str) -> KeyCombo {
    parse_shortcut(label)
}

fn key(vk: u16, flags: u64, phase: KeyPhase) -> HeldKeyEvent {
    HeldKeyEvent::Post(KeyEvent { vk, flags, phase })
}

#[test]
fn shared_control_stays_down_until_its_last_chord_ends() {
    for platform in BACKENDS {
        let control_a = combo("Ctrl+A");
        let control_b = combo("Ctrl+B");
        let mut owners = HeldKeyOwners::default();

        assert_eq!(
            owners.transition(&[], &chord_keys(platform, &control_a)),
            HoldTransition {
                up: vec![],
                down: vec![HeldKey::Control, HeldKey::Key(control_a.key())],
            }
        );
        assert_eq!(
            owners.transition(&[], &chord_keys(platform, &control_b)),
            HoldTransition {
                up: vec![],
                down: vec![HeldKey::Key(control_b.key())],
            }
        );
        assert_eq!(
            owners.transition(&chord_keys(platform, &control_a), &[]),
            HoldTransition {
                up: vec![HeldKey::Key(control_a.key())],
                down: vec![],
            }
        );
        assert_eq!(
            owners.transition(&chord_keys(platform, &control_b), &[]),
            HoldTransition {
                up: vec![HeldKey::Control, HeldKey::Key(control_b.key())],
                down: vec![],
            }
        );
    }
}

#[test]
fn command_and_control_share_one_physical_output() {
    for platform in [Platform::Linux, Platform::Windows] {
        let command_a = combo("Cmd+A");
        let control_b = combo("Ctrl+B");
        let mut owners = HeldKeyOwners::default();

        owners.transition(&[], &chord_keys(platform, &command_a));
        assert_eq!(
            owners.transition(&[], &chord_keys(platform, &control_b)),
            HoldTransition {
                up: vec![],
                down: vec![HeldKey::Key(control_b.key())],
            }
        );
        assert_eq!(
            owners.transition(&chord_keys(platform, &command_a), &[]),
            HoldTransition {
                up: vec![HeldKey::Key(command_a.key())],
                down: vec![],
            }
        );
    }
}

#[test]
fn command_and_control_are_distinct_physical_outputs() {
    let platform = Platform::MacOs;
    let command_a = combo("Cmd+A");
    let control_b = combo("Ctrl+B");
    let mut owners = HeldKeyOwners::default();

    owners.transition(&[], &chord_keys(platform, &command_a));
    assert_eq!(
        owners.transition(&[], &chord_keys(platform, &control_b)),
        HoldTransition {
            up: vec![],
            down: vec![HeldKey::Control, HeldKey::Key(control_b.key())],
        }
    );
    assert_eq!(
        owners.transition(&chord_keys(platform, &command_a), &[]),
        HoldTransition {
            up: vec![HeldKey::Command, HeldKey::Key(command_a.key())],
            down: vec![],
        }
    );
}

#[test]
fn shared_command_stays_down_until_its_last_chord_ends() {
    let platform = Platform::MacOs;
    let command_a = combo("Cmd+A");
    let command_b = combo("Cmd+B");
    let mut owners = HeldKeyOwners::default();

    owners.transition(&[], &chord_keys(platform, &command_a));
    assert_eq!(
        owners.transition(&[], &chord_keys(platform, &command_b)),
        HoldTransition {
            up: vec![],
            down: vec![HeldKey::Key(command_b.key())],
        }
    );
    assert_eq!(
        owners.transition(&chord_keys(platform, &command_a), &[]),
        HoldTransition {
            up: vec![HeldKey::Key(command_a.key())],
            down: vec![],
        }
    );
    assert_eq!(
        owners.transition(&chord_keys(platform, &command_b), &[]),
        HoldTransition {
            up: vec![HeldKey::Command, HeldKey::Key(command_b.key())],
            down: vec![],
        }
    );
}

#[test]
fn replacement_preserves_shared_physical_outputs() {
    for platform in BACKENDS {
        let old = combo("Ctrl+A");
        let new = combo("Ctrl+B");
        let mut owners = HeldKeyOwners::default();

        owners.transition(&[], &chord_keys(platform, &old));
        assert_eq!(
            owners.transition(&chord_keys(platform, &old), &chord_keys(platform, &new)),
            HoldTransition {
                up: vec![HeldKey::Key(old.key())],
                down: vec![HeldKey::Key(new.key())],
            }
        );
    }
}

#[test]
fn the_switcher_hold_owns_the_platform_modifier_alone() {
    assert_eq!(
        held_keys(Platform::MacOs, &HoldKind::AppSwitcher),
        vec![HeldKey::Command]
    );
    for platform in [Platform::Linux, Platform::Windows] {
        assert_eq!(
            held_keys(platform, &HoldKind::AppSwitcher),
            vec![HeldKey::Alt]
        );
    }
}

#[test]
fn retargeting_an_open_switcher_at_a_chord_commits_it_first() {
    for platform in BACKENDS {
        let switcher = HoldKind::AppSwitcher;
        // Carries both primary modifiers, so the chord holds whatever key this
        // platform's switcher holds: Cmd aliases Control on Linux and Windows,
        // where the switcher holds Alt instead.
        let chord = HoldKind::Chord(combo("Cmd+Alt+Shift+L"));
        assert!(
            held_keys(platform, &chord)
                .iter()
                .any(|key| held_keys(platform, &switcher).contains(key)),
            "the two outputs have to share a key for this to be the case"
        );

        // Two batches, in this order: the first one's up edge is the
        // switcher's commit, and the chord presses after it. One combined
        // batch would report no edge for the shared modifier and leave the
        // switcher open under the chord.
        assert_eq!(
            retarget_steps(platform, &switcher, &chord),
            vec![
                HoldStep::Transition {
                    released: held_keys(platform, &switcher),
                    pressed: Vec::new(),
                },
                HoldStep::Transition {
                    released: Vec::new(),
                    pressed: held_keys(platform, &chord),
                },
            ]
        );
    }
}

#[test]
fn opening_the_switcher_taps_after_the_batch_that_frees_its_modifier() {
    for platform in BACKENDS {
        let switcher = HoldKind::AppSwitcher;
        let chord = HoldKind::Chord(combo("Cmd+Alt+Shift+L"));

        // One batch, so that the modifier the chord already holds keeps its
        // down edge, and the tap after it, never over the keys only the chord
        // held.
        assert_eq!(
            retarget_steps(platform, &chord, &switcher),
            vec![
                HoldStep::Transition {
                    released: held_keys(platform, &chord),
                    pressed: held_keys(platform, &switcher),
                },
                HoldStep::TapAppSwitcher,
            ]
        );
        // Already open: nothing to post, and no second tap to step it.
        assert_eq!(retarget_steps(platform, &switcher, &switcher), Vec::new());
    }
}

#[test]
fn chord_keys_follow_the_platform() {
    let all = combo("Cmd+Ctrl+Shift+Alt+A");
    let a = HeldKey::Key(KeyboardUsage { code: 0x04 });
    assert_eq!(
        chord_keys(Platform::MacOs, &all),
        vec![HeldKey::Command, HeldKey::Control, HeldKey::Shift, HeldKey::Alt, a]
    );
    for platform in [Platform::Linux, Platform::Windows] {
        assert_eq!(
            chord_keys(platform, &all),
            vec![HeldKey::Control, HeldKey::Shift, HeldKey::Alt, a]
        );
    }
    assert_eq!(
        chord_keys(Platform::Other, &all),
        vec![HeldKey::Shift, HeldKey::Alt, a]
    );
    assert_eq!(held_keys(Platform::Other, &HoldKind::AppSwitcher), vec![]);
}

#[test]
fn releasing_an_unowned_key_reports_nothing() {
    let mut owners = HeldKeyOwners::default();
    let edges = owners.transition(&[HeldKey::Shift], &[]);
    assert_eq!(edges, HoldTransition { up: vec![], down: vec![] });
    assert!(!owners.contains_key(HeldKey::Shift));
}

#[test]
fn a_key_released_and_pressed_in_one_batch_has_no_edge() {
    let mut owners = HeldKeyOwners::default();
    owners.transition(&[], &[HeldKey::Alt, HeldKey::Shift]);
    let edges = owners.transition(&[HeldKey::Alt, HeldKey::Shift], &[HeldKey::Alt]);
    assert_eq!(edges, HoldTransition { up: vec![HeldKey::Shift], down: vec![] });
    assert!(owners.contains_key(HeldKey::Alt));
    assert!(owners.has_room(&[], &[HeldKey::Alt]));
}

#[test]
fn modifiers_mirror_the_owned_modifier_keys() {
    let mut owners = HeldKeyOwners::default();
    owners.transition(&[], &chord_keys(Platform::MacOs, &combo("Cmd+Shift+A")));
    let modifiers = owners.modifiers();
    assert!(modifiers.contains(HeldKey::Command));
    assert!(!modifiers.contains(HeldKey::Control));
    assert!(modifiers.contains(HeldKey::Shift));
    assert!(!modifiers.contains(HeldKey::Alt));
    assert!(!modifiers.contains(HeldKey::Key(KeyboardUsage { code: 0x04 })));
}

#[test]
fn setting_a_modifier_leaves_the_others() {
    let mut modifiers = HeldModifiers::default();
    modifiers.set(HeldKey::Control, true);
    modifiers.set(HeldKey::Alt, true);
    modifiers.set(HeldKey::Key(KeyboardUsage { code: 0x04 }), true);
    modifiers.set(HeldKey::Control, false);
    let mut expected = HeldModifiers::default();
    expected.set(HeldKey::Alt, true);
    assert_eq!(modifiers, expected);
}

#[test]
fn a_macos_hold_carries_the_modifiers_of_each_moment() {
    let mut owners = HeldKeyOwners::default();
    let kind = HoldKind::Chord(combo("Cmd+Shift+A"));
    let (held, posts) = press_hold(Platform::MacOs, &mut owners, kind);
    let both = FLAG_COMMAND | FLAG_SHIFT;
    assert_eq!(held.kind(), kind);
    assert_eq!(
        posts,
        vec![Post::MacKeys(vec![
            key(0x37, FLAG_COMMAND, KeyPhase::Down),
            key(0x38, both, KeyPhase::Down),
            key(0x00, both, KeyPhase::Down),
        ])]
    );
    assert_eq!(
        held.release(Platform::MacOs, &mut owners),
        Post::MacKeys(vec![
            key(0x00, both, KeyPhase::Up),
            key(0x38, FLAG_COMMAND, KeyPhase::Up),
            key(0x37, 0, KeyPhase::Up),
        ])
    );
    assert!(!owners.contains_key(HeldKey::Command));
}

#[test]
fn an_unmapped_usage_is_reported_and_its_modifiers_still_move() {
    let mut owners = HeldKeyOwners::default();
    let odd = HeldKey::Key(KeyboardUsage { code: 0xff });
    let post = hold_transition(Platform::MacOs, &mut owners, &[], &[HeldKey::Alt, odd]);
    assert_eq!(
        post,
        Post::MacKeys(vec![
            key(0x3a, FLAG_ALTERNATE, KeyPhase::Down),
            HeldKeyEvent::Unmapped(odd),
        ])
    );
}

#[test]
fn pressing_the_switcher_holds_its_modifier_and_taps() {
    let mut owners = HeldKeyOwners::default();
    let (held, posts) = press_hold(Platform::MacOs, &mut owners, HoldKind::AppSwitcher);
    assert_eq!(
        posts,
        vec![
            Post::MacKeys(vec![key(0x37, FLAG_COMMAND, KeyPhase::Down)]),
            Post::MacKeys(vec![
                key(0x30, FLAG_COMMAND, KeyPhase::Down),
                key(0x30, FLAG_COMMAND, KeyPhase::Up),
            ]),
        ]
    );
    assert_eq!(
        held.release(Platform::MacOs, &mut owners),
        Post::MacKeys(vec![key(0x37, 0, KeyPhase::Up)])
    );

    let mut owners = HeldKeyOwners::default();
    let (held, posts) = press_hold(Platform::Linux, &mut owners, HoldKind::AppSwitcher);
    assert_eq!(
        posts,
        vec![
            Post::HoldKeys(HoldTransition { up: vec![], down: vec![HeldKey::Alt] }),
            Post::TapSwitcher,
        ]
    );
    assert_eq!(
        held.release(Platform::Linux, &mut owners),
        Post::HoldKeys(HoldTransition { up: vec![HeldKey::Alt], down: vec![] })
    );
}

#[test]
fn retargeting_posts_the_steps_in_order() {
    let mut owners = HeldKeyOwners::default();
    let chord = HoldKind::Chord(combo("Alt+A"));
    let a = HeldKey::Key(KeyboardUsage { code: 0x04 });
    let (mut held, _) = press_hold(Platform::Windows, &mut owners, HoldKind::AppSwitcher);
    assert_eq!(
        held.retarget(Platform::Windows, &mut owners, HoldKind::AppSwitcher),
        vec![]
    );
    assert_eq!(
        held.retarget(Platform::Windows, &mut owners, chord),
        vec![
            Post::HoldKeys(HoldTransition { up: vec![HeldKey::Alt], down: vec![] }),
            Post::HoldKeys(HoldTransition { up: vec![], down: vec![HeldKey::Alt, a] }),
        ]
    );
    assert_eq!(held.kind(), chord);
    assert_eq!(
        held.retarget(Platform::Windows, &mut owners, HoldKind::AppSwitcher),
        vec![
            Post::HoldKeys(HoldTransition { up: vec![a], down: vec![] }),
            Post::TapSwitcher,
        ]
    );
    let post = held.release(Platform::Windows, &mut owners);
    assert_eq!(
        post,
        Post::HoldKeys(HoldTransition { up: vec![HeldKey::Alt], down: vec![] })
    );
}

#[test]
fn a_step_posts_what_it_names() {
    let mut owners = HeldKeyOwners::default();
    let step = HoldStep::Transition { released: vec![], pressed: vec![HeldKey::Shift] };
    assert_eq!(
        step.post(Platform::Linux, &mut owners),
        Post::HoldKeys(HoldTransition { up: vec![], down: vec![HeldKey::Shift] })
    );
    assert_eq!(
        HoldStep::TapAppSwitcher.post(Platform::Linux, &mut owners),
        Post::TapSwitcher
    );
}

#[test]
fn a_quick_switch_leaves_the_held_keys_as_they_were() {
    let mut owners = HeldKeyOwners::default();
    let (held, _) = press_hold(
        Platform::MacOs,
        &mut owners,
        HoldKind::Chord(combo("Cmd+A")),
    );
    let posts = quick_switch(Platform::MacOs, &mut owners);
    assert_eq!(posts.len(), 3);
    // Another hold has Command down, so the quick switch posts no edge of it.
    assert_eq!(posts[0], Post::MacKeys(vec![]));
    assert_eq!(posts[2], Post::MacKeys(vec![]));
    assert!(owners.contains_key(HeldKey::Command));
    assert_eq!(
        held.release(Platform::MacOs, &mut owners),
        Post::MacKeys(vec![
            key(0x00, FLAG_COMMAND, KeyPhase::Up),
            key(0x37, 0, KeyPhase::Up),
        ])
    );
}

#[test]
fn a_target_without_a_backend_counts_nothing() {
    let mut owners = HeldKeyOwners::default();
    let pressed = vec![HeldKey::Shift];
    assert!(can_hold(Platform::Other, &owners, &[], &pressed));
    assert!(can_hold(Platform::Linux, &owners, &[], &pressed));
    assert_eq!(
        hold_transition(Platform::Other, &mut owners, &[], &pressed),
        Post::Unsupported
    );
    assert!(!owners.contains_key(HeldKey::Shift));
    assert_eq!(tap_app_switcher(Platform::Other), Post::Nothing);
}
