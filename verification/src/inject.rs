//! The entry points: which backend does what for an action.

use vstd::prelude::*;

use crate::binding::{Action, Effect, Platform};
use crate::macos;
use crate::macos::{effect_commands, MacCommand, MacPlan};
use crate::script::{dispatch_script, script_calls, ScriptCall};

verus! {

/// Stamped into the source user data of every mouse event synthesised on
/// macOS, so that the event tap recognises its own injections and skips them.
/// Without it, an action that posts a mouse button would re-enter the tap, and
/// for a gesture button be misread as a fresh hold, looping. The value is
/// arbitrary but distinctive ("OLGI"); real events carry zero here.
pub const SYNTHETIC_EVENT_USER_DATA: i64 = 0x4F4C_4749;

/// A press on a browser's toolbar button, asked of the Accessibility API.
#[derive(Clone, Copy, Debug, PartialEq, Eq, Structural)]
pub struct BrowserPress {
    /// Forward instead of back.
    pub forward: bool,
    /// The process captured when the button press arrived.
    pub pid: i32,
}

/// The press that navigates a browser.
pub open spec fn browser_press(
    platform: Platform,
    pid: i32,
    forward: bool,
) -> Option<BrowserPress> {
    match platform {
        Platform::MacOs => Some(BrowserPress { forward, pid }),
        _ => None,
    }
}

/// Navigate Safari backwards or forwards using `AXPress` on its toolbar
/// button's stable Accessibility identifier: the press to ask for.
///
/// None on a platform other than macOS, where nothing is pressed.
/// [`browser_navigated`] says what the caller is told.
#[must_use]
pub fn ax_navigate_browser(
    platform: Platform,
    pid: i32,
    forward: bool,
) -> (press: Option<BrowserPress>)
    ensures
        press == if platform is MacOs {
            Some(BrowserPress { forward, pid })
        } else {
            None
        },
        press == browser_press(platform, pid, forward),
{
    match platform {
        Platform::MacOs => Some(BrowserPress { forward, pid }),
        _ => None,
    }
}

/// Whether the browser navigated.
pub open spec fn has_navigated(press: Option<BrowserPress>, reported: bool) -> bool {
    match press {
        Some(_) => reported,
        None => false,
    }
}

/// Whether the browser navigated: what the Accessibility API reported of the
/// press, and `false` where no press was asked for.
pub fn browser_navigated(press: Option<BrowserPress>, reported: bool) -> (navigated: bool)
    ensures
        navigated == (press is Some && reported),
        navigated == has_navigated(press, reported),
{
    match press {
        Some(_) => reported,
        None => false,
    }
}

/// The node of the action-injector device.
pub open spec fn device_path(platform: Platform, node: Option<String>) -> Option<String> {
    match platform {
        Platform::Linux => node,
        _ => None,
    }
}

/// The `/dev/input/eventN` node of the action-injector uinput device, given
/// what the uinput backend reports.
///
/// None on a platform other than Linux, or when the device could not be
/// created.
#[must_use]
pub fn action_device_path(platform: Platform, node: Option<String>) -> (path: Option<String>)
    ensures
        path == if platform is Linux {
            node
        } else {
            None
        },
        path == device_path(platform, node),
{
    match platform {
        Platform::Linux => node,
        _ => None,
    }
}

/// Whether a path starts with the home directory: `~` alone, or `~` and a
/// separator. The backslash separates on Windows only.
pub open spec fn names_home(path: Seq<char>) -> bool {
    path.len() > 0 && path[0] == '~' && (path.len() == 1 || path[1] == '/' || path[1] == '\\')
}

/// What a path can be expanded to. A path that does not name the home directory
/// is left as it is; of one that does, everything after the tilde is kept, and
/// something stands in the tilde's place, the tilde itself where the home
/// directory is not known.
pub open spec fn expands_to(path: Seq<char>, expanded: Seq<char>) -> bool {
    if names_home(path) {
        path.skip(1).is_suffix_of(expanded)
    } else {
        expanded == path
    }
}

/// `shellexpand::tilde`, which puts the home directory of the current user in
/// the place of a leading tilde.
///
/// Claimed of it: it changes no path but `~`, `~/..` and, on Windows, `~\..`,
/// and keeps what follows the tilde. Which directory it puts there depends on
/// the environment, so nothing is claimed of that.
#[verifier::external_body]
fn expand_tilde(path: &str) -> (expanded: String)
    ensures
        expands_to(path@, expanded@),
{
    shellexpand::tilde(path).into_owned()
}

/// What a path is expanded to where `home` is the home directory, if there is
/// one. Whether a backslash separates rests on the machine; nothing else does.
pub open spec fn expands_in(home: Option<&str>, path: Seq<char>, expanded: Seq<char>) -> bool {
    match home {
        Some(directory) if names_home(path) => {
            ||| expanded == directory@ + path.skip(1)
            ||| path.len() > 1 && path[1] == '\\' && expanded == path
        },
        _ => expanded == path,
    }
}

/// `shellexpand::tilde_with_context`, which puts `home` in the place of a
/// leading tilde.
///
/// Claimed of it: `~` and `~/..` become the home directory followed by what
/// follows the tilde, `~\..` does so on Windows, and any other path is
/// returned as it is, as is every path where there is no home directory.
/// Whether `~\..` is expanded rests on the machine, so it is left open.
#[verifier::external_body]
fn expand_tilde_in(home: Option<&str>, path: &str) -> (expanded: String)
    ensures
        expands_in(home, path@, expanded@),
{
    shellexpand::tilde_with_context(path, || home).into_owned()
}

/// Every expansion in a known home directory, and every one without, is one of
/// those that the environment allows.
pub proof fn law_known_home_is_allowed(home: Option<&str>, path: Seq<char>, expanded: Seq<char>)
    requires
        expands_in(home, path, expanded),
    ensures
        expands_to(path, expanded),
{
    if names_home(path) {
        let rest = path.skip(1);
        assert(rest =~= expanded.skip(expanded.len() - rest.len()));
    }
}

/// What executing an action comes to.
#[derive(Debug, PartialEq, Eq)]
pub enum Execution {
    /// Hand the target to the desktop's opener.
    Open(String),
    /// Perform these commands on macOS.
    Mac(Vec<MacCommand>),
    /// Make these calls into the platform's backend, one after the other, on a
    /// worker thread.
    Script(Vec<ScriptCall>),
    /// The Linux or Windows backend performs the action's effect.
    Backend,
    /// The platform has no backend: nothing is opened, posted or run.
    Unsupported,
}

/// What an effect comes to on a platform.
pub open spec fn performs(platform: Platform, effect: Effect, execution: Execution) -> bool {
    match platform {
        Platform::Other => execution is Unsupported,
        _ => match effect {
            Effect::Script(script) => execution matches Execution::Script(calls) && calls@
                == script_calls(script),
            _ => if platform is MacOs {
                execution matches Execution::Mac(commands) && commands@ == effect_commands(effect)
            } else {
                execution is Backend
            },
        },
    }
}

/// What executing an action comes to, where `expansion` says what the path of
/// an application target can be expanded to.
pub open spec fn executes(
    platform: Platform,
    action: Action,
    execution: Execution,
    expansion: spec_fn(Seq<char>, Seq<char>) -> bool,
) -> bool {
    match action {
        Action::OpenApplication(target) => if platform is Other {
            execution is Unsupported
        } else {
            execution matches Execution::Open(opened) && expansion(target.path@, opened@)
        },
        Action::Input { label, effect } => performs(platform, effect, execution),
    }
}

fn perform(platform: Platform, effect: &Effect) -> (execution: Execution)
    ensures
        performs(platform, *effect, execution),
{
    match platform {
        Platform::MacOs => match macos::execute(effect) {
            MacPlan::Commands(commands) => Execution::Mac(commands),
            MacPlan::Script(calls) => Execution::Script(calls),
        },
        Platform::Linux | Platform::Windows => match effect {
            Effect::Script(script) => Execution::Script(dispatch_script(script)),
            _ => Execution::Backend,
        },
        Platform::Other => Execution::Unsupported,
    }
}

/// Synthesise the system-level events for `action`.
///
/// An application, folder or URL is opened by the desktop, with a leading tilde
/// expanded. A script becomes calls for a worker thread, and any other effect
/// goes to the platform's backend. On a platform without a backend nothing is
/// done, whatever the action.
///
/// The home directory is the one the environment names, so what stands in the
/// place of a tilde is left open here; [`execute_in`] fixes it.
pub fn execute(platform: Platform, action: &Action) -> (execution: Execution)
    ensures
        match platform {
            Platform::Other => execution is Unsupported,
            _ => match *action {
                Action::OpenApplication(target) => execution matches Execution::Open(opened)
                    && expands_to(target.path@, opened@),
                Action::Input { label, effect } => performs(platform, effect, execution),
            },
        },
        executes(
            platform,
            *action,
            execution,
            |path: Seq<char>, opened: Seq<char>| expands_to(path, opened),
        ),
{
    match platform {
        Platform::Other => Execution::Unsupported,
        _ => match action {
            Action::OpenApplication(target) => Execution::Open(expand_tilde(target.path())),
            Action::Input { label, effect } => perform(platform, effect),
        },
    }
}

/// [`execute`] for a user whose home directory is `home`, if there is one.
pub fn execute_in(home: Option<&str>, platform: Platform, action: &Action) -> (execution: Execution)
    ensures
        match platform {
            Platform::Other => execution is Unsupported,
            _ => match *action {
                Action::OpenApplication(target) => execution matches Execution::Open(opened)
                    && expands_in(home, target.path@, opened@),
                Action::Input { label, effect } => performs(platform, effect, execution),
            },
        },
        executes(
            platform,
            *action,
            execution,
            |path: Seq<char>, opened: Seq<char>| expands_in(home, path, opened),
        ),
{
    match platform {
        Platform::Other => Execution::Unsupported,
        _ => match action {
            Action::OpenApplication(target) => Execution::Open(expand_tilde_in(home, target.path())),
            Action::Input { label, effect } => perform(platform, effect),
        },
    }
}

/// The paths that name the home directory: the tilde alone, or a tilde and a
/// separator.
pub proof fn law_home_is_named_by_a_tilde(rest: Seq<char>, path: Seq<char>)
    ensures
        names_home(seq!['~']),
        names_home(seq!['~', '/'] + rest),
        names_home(seq!['~', '\\'] + rest),
        names_home(path) ==> path.len() > 0 && path[0] == '~' && (path.len() == 1 || path[1] == '/'
            || path[1] == '\\'),
{
}

/// With a known home directory the tilde alone is that directory, and a path
/// under the tilde is the same path under the directory. Without one, and for
/// every path that does not start with a tilde, the path stands as it is.
pub proof fn law_paths_expand_under_the_home_directory(
    home: &str,
    rest: Seq<char>,
    path: Seq<char>,
    expanded: Seq<char>,
)
    ensures
        expands_in(Some(home), seq!['~'], expanded) ==> expanded == home@,
        expands_in(Some(home), seq!['~', '/'] + rest, expanded) ==> expanded == home@ + seq!['/']
            + rest,
        expands_in(None, path, expanded) ==> expanded == path,
        path.len() == 0 || path[0] != '~' ==> (expands_in(Some(home), path, expanded) ==> expanded
            == path) && (expands_to(path, expanded) ==> expanded == path),
{
    let named = seq!['~', '/'] + rest;
    assert(seq!['~'].skip(1) =~= Seq::<char>::empty());
    assert(home@ + Seq::<char>::empty() =~= home@);
    assert(home@ + named.skip(1) =~= home@ + seq!['/'] + rest);
}

/// Whatever stands in the tilde's place, what follows the tilde is kept.
pub proof fn law_expansion_keeps_what_follows(rest: Seq<char>, expanded: Seq<char>)
    ensures
        expands_to(seq!['~', '/'] + rest, expanded) ==> expanded.len() > rest.len() && expanded[
            expanded.len() - rest.len() - 1
        ] == '/' && expanded.skip(expanded.len() - rest.len()) == rest,
{
    let named = seq!['~', '/'] + rest;
    let tail = named.skip(1);
    assert(tail =~= seq!['/'] + rest);
    if expands_to(named, expanded) {
        let at = expanded.len() - tail.len();
        assert(expanded.skip(at) =~= tail);
        assert(expanded.skip(at)[0] == '/');
        assert(expanded.skip(expanded.len() - rest.len()) =~= tail.skip(1));
        assert(tail.skip(1) =~= rest);
    }
}

/// A target without a backend does nothing. With one, a script becomes its
/// calls on every platform, macOS performs the commands of any other effect,
/// and Linux and Windows hand it to their backend.
pub proof fn law_effects_reach_their_platform(
    platform: Platform,
    effect: Effect,
    execution: Execution,
)
    requires
        performs(platform, effect, execution),
    ensures
        platform == Platform::Other <==> execution is Unsupported,
        platform != Platform::Other ==> (effect is Script <==> execution is Script),
        platform == Platform::MacOs && !(effect is Script) <==> execution is Mac,
        (platform == Platform::Linux || platform == Platform::Windows) && !(effect is Script)
            <==> execution is Backend,
        execution matches Execution::Mac(commands) ==> commands@ == effect_commands(effect),
        execution matches Execution::Script(calls) ==> (effect matches Effect::Script(script)
            && calls@ == script_calls(script)),
{
}

/// The mark of a synthesised event spells OLGI, and no event that carries zero
/// has it.
pub proof fn law_mark_is_distinctive()
    ensures
        SYNTHETIC_EVENT_USER_DATA == (('O' as int * 0x100 + 'L' as int) * 0x100 + 'G' as int)
            * 0x100 + 'I' as int,
        SYNTHETIC_EVENT_USER_DATA != 0,
{
}

/// A browser is pressed on macOS alone, in the process and the direction that
/// were asked for; so presses that are alike were asked for alike.
pub proof fn law_browser_press_is_as_asked(
    platform: Platform,
    pid: i32,
    forward: bool,
    other_pid: i32,
    other_forward: bool,
)
    ensures
        browser_press(platform, pid, forward) is Some <==> platform == Platform::MacOs,
        browser_press(platform, pid, forward) matches Some(press) ==> press.pid == pid
            && press.forward == forward,
        platform == Platform::MacOs && browser_press(platform, pid, forward) == browser_press(
            platform,
            other_pid,
            other_forward,
        ) ==> pid == other_pid && forward == other_forward,
{
}

/// A browser has navigated exactly where a press was asked for and reported.
pub proof fn law_navigation_needs_a_reported_press(
    platform: Platform,
    pid: i32,
    forward: bool,
    reported: bool,
)
    ensures
        has_navigated(browser_press(platform, pid, forward), reported) <==> platform
            == Platform::MacOs && reported,
{
}

/// Linux shows the node as the backend reports it, no other platform any.
pub proof fn law_device_node_is_linux_only(platform: Platform, node: Option<String>)
    ensures
        platform == Platform::Linux ==> device_path(platform, node) == node,
        platform != Platform::Linux ==> device_path(platform, node) is None,
{
}

/// An application target is opened wherever there is a backend, under a path it
/// can be expanded to, and nothing else is opened; without a backend nothing is
/// done.
pub proof fn law_only_targets_are_opened(
    platform: Platform,
    action: Action,
    execution: Execution,
    expansion: spec_fn(Seq<char>, Seq<char>) -> bool,
)
    requires
        executes(platform, action, execution, expansion),
    ensures
        platform == Platform::Other <==> execution is Unsupported,
        platform != Platform::Other ==> (action is OpenApplication <==> execution is Open),
        execution matches Execution::Open(opened) ==> (action matches Action::OpenApplication(
            target,
        ) && expansion(target.path@, opened@)),
        action matches Action::Input { label, effect } ==> performs(platform, effect, execution),
{
}

} // verus!
