use openlogi_inject::binding::{Action, ApplicationTarget, Effect, Platform};
use openlogi_inject::inject::{
    action_device_path, ax_navigate_browser, browser_navigated, execute, execute_in, BrowserPress,
    Execution,
};
use openlogi_inject::scroll::{
    post_scroll, post_smooth_scroll, ScrollDelta, ScrollPost, SmoothScrollPhase,
};

const ALL: [Platform; 4] = [
    Platform::MacOs,
    Platform::Linux,
    Platform::Windows,
    Platform::Other,
];

fn ticks(x: f64, y: f64) -> ScrollDelta {
    ScrollDelta { x: x.to_bits(), y: y.to_bits() }
}

fn opened(path: &str) -> String {
    let action = Action::OpenApplication(ApplicationTarget { path: path.to_string() });
    match execute(Platform::Linux, &action) {
        Execution::Open(target) => target,
        _ => panic!("an application is opened"),
    }
}

#[test]
fn paths_without_a_leading_tilde_open_as_they_are() {
    for path in ["/usr/bin/true", "https://example.org/~user", "~other/file", "", "a~/b"] {
        assert_eq!(opened(path), path);
    }
}

#[test]
fn a_leading_tilde_opens_the_home_directory() {
    let home = shellexpand::tilde("~").into_owned();
    assert_eq!(opened("~"), home);
    assert_eq!(opened("~/Documents/notes.txt"), format!("{}/Documents/notes.txt", home));
}

fn opened_in(home: Option<&str>, path: &str) -> Execution {
    let action = Action::OpenApplication(ApplicationTarget { path: path.to_string() });
    execute_in(home, Platform::Linux, &action)
}

#[test]
fn a_known_home_directory_takes_the_place_of_the_tilde() {
    let home = Some("/home/anna");
    assert_eq!(opened_in(home, "~"), Execution::Open("/home/anna".to_string()));
    assert_eq!(opened_in(home, "~/a/~"), Execution::Open("/home/anna/a/~".to_string()));
    for path in ["~other/file", "/a/~/b", "", "https://example.org/~user"] {
        assert_eq!(opened_in(home, path), Execution::Open(path.to_string()));
    }
    for path in ["~", "~/a", "/b"] {
        assert_eq!(opened_in(None, path), Execution::Open(path.to_string()));
    }
}

#[test]
fn nothing_is_opened_without_a_backend() {
    for path in ["/usr/bin/true", "~/notes.txt"] {
        let action = Action::OpenApplication(ApplicationTarget { path: path.to_string() });
        assert_eq!(execute(Platform::Other, &action), Execution::Unsupported);
        assert_eq!(execute_in(Some("/home/anna"), Platform::Other, &action), Execution::Unsupported);
        for platform in [Platform::MacOs, Platform::Linux, Platform::Windows] {
            assert!(matches!(execute(platform, &action), Execution::Open(_)));
        }
    }
}

#[test]
fn actions_reach_the_backend_of_the_platform() {
    let action = Action::Input { label: "Nothing".to_string(), effect: Effect::Suppressed };
    assert_eq!(execute(Platform::MacOs, &action), Execution::Mac(vec![]));
    assert_eq!(execute(Platform::Linux, &action), Execution::Backend);
    assert_eq!(execute(Platform::Windows, &action), Execution::Backend);
    assert_eq!(execute(Platform::Other, &action), Execution::Unsupported);
}

#[test]
fn browsers_are_navigated_on_macos_only() {
    let press = ax_navigate_browser(Platform::MacOs, 42, true);
    assert_eq!(press, Some(BrowserPress { forward: true, pid: 42 }));
    assert!(browser_navigated(press, true));
    assert!(!browser_navigated(press, false));
    for platform in [Platform::Linux, Platform::Windows, Platform::Other] {
        let press = ax_navigate_browser(platform, 42, false);
        assert_eq!(press, None);
        assert!(!browser_navigated(press, true));
    }
}

#[test]
fn the_device_node_is_linux_only() {
    let node = Some("/dev/input/event7".to_string());
    for platform in ALL {
        let path = action_device_path(platform, node.clone());
        if platform == Platform::Linux {
            assert_eq!(path, node);
        } else {
            assert_eq!(path, None);
        }
    }
    assert_eq!(action_device_path(Platform::Linux, None), None);
}

#[test]
fn finiteness_and_zero_follow_the_numbers() {
    for x in [0.0, -0.0, 1.5, -2.25, f64::MAX, f64::MIN_POSITIVE, f64::MIN_POSITIVE / 4.0] {
        assert!(ticks(x, 1.0).is_finite());
        assert!(ticks(1.0, x).is_finite());
        assert_eq!(ticks(x, -0.0).is_zero(), x == 0.0);
    }
    for x in [f64::INFINITY, f64::NEG_INFINITY, f64::NAN, -f64::NAN] {
        assert!(!ticks(x, 1.0).is_finite());
        assert!(!ticks(1.0, x).is_finite());
    }
}

#[test]
fn scrolls_are_posted_when_finite_and_moving() {
    let delta = ticks(0.0, 0.125);
    for platform in [Platform::MacOs, Platform::Linux, Platform::Windows] {
        assert_eq!(post_scroll(platform, delta), ScrollPost::Wheel(delta));
        assert_eq!(post_scroll(platform, ticks(0.0, -0.0)), ScrollPost::Nothing);
        assert_eq!(post_scroll(platform, ticks(f64::NAN, 1.0)), ScrollPost::Nothing);
        assert_eq!(post_scroll(platform, ticks(1.0, f64::INFINITY)), ScrollPost::Nothing);
    }
    assert_eq!(post_scroll(Platform::Other, delta), ScrollPost::Nothing);
}

#[test]
fn smooth_frames_keep_their_phase_on_macos() {
    let still = ticks(0.0, 0.0);
    let delta = ticks(1.0, -2.0);
    let phase = SmoothScrollPhase::Ended;
    assert_eq!(
        post_smooth_scroll(Platform::MacOs, still, phase),
        ScrollPost::Smooth(still, phase)
    );
    assert_eq!(
        post_smooth_scroll(Platform::MacOs, ticks(f64::NAN, 0.0), phase),
        ScrollPost::Nothing
    );
    for platform in [Platform::Linux, Platform::Windows] {
        assert_eq!(post_smooth_scroll(platform, still, phase), ScrollPost::Nothing);
        for phase in [
            SmoothScrollPhase::Began,
            SmoothScrollPhase::Changed,
            SmoothScrollPhase::Ended,
            SmoothScrollPhase::Cancelled,
        ] {
            assert_eq!(post_smooth_scroll(platform, delta, phase), ScrollPost::Wheel(delta));
        }
    }
    assert_eq!(post_smooth_scroll(Platform::Other, delta, phase), ScrollPost::Nothing);
}
