//! The bound values the injector works on: chords, buttons, scripts, actions.

use vstd::prelude::*;

verus! {

/// The operating system the events are synthesised for.
#[derive(Clone, Copy, Debug, PartialEq, Eq, Structural)]
pub enum Platform {
    MacOs,
    Linux,
    Windows,
    /// Any target without an injection backend.
    Other,
}

/// A key on the keyboard page of the USB HID usage tables.
#[derive(Clone, Copy, Debug, PartialEq, Eq, Structural, Hash)]
pub struct KeyboardUsage {
    pub code: u8,
}

impl KeyboardUsage {
    /// The usage number on the keyboard page.
    pub fn code(self) -> (code: u8)
        ensures
            code == self.code,
    {
        self.code
    }
}

/// A keyboard chord: one key under any of the four modifiers.
#[derive(Clone, Copy, Debug, PartialEq, Eq, Structural, Hash)]
pub struct KeyCombo {
    pub command: bool,
    pub control: bool,
    pub shift: bool,
    pub option: bool,
    pub key: KeyboardUsage,
}

impl KeyCombo {
    pub fn has_command(&self) -> (held: bool)
        ensures
            held == self.command,
    {
        self.command
    }

    pub fn has_control(&self) -> (held: bool)
        ensures
            held == self.control,
    {
        self.control
    }

    pub fn has_shift(&self) -> (held: bool)
        ensures
            held == self.shift,
    {
        self.shift
    }

    pub fn has_option(&self) -> (held: bool)
        ensures
            held == self.option,
    {
        self.option
    }

    pub fn key(&self) -> (key: KeyboardUsage)
        ensures
            key == self.key,
    {
        self.key
    }
}

/// What a physical press can hold down for as long as it lasts.
#[derive(Clone, Copy, Debug, PartialEq, Eq, Structural)]
pub enum HoldKind {
    Chord(KeyCombo),
    /// The application switcher, open until the press ends.
    AppSwitcher,
}

/// A mouse button a click can be synthesised for.
#[derive(Clone, Copy, Debug, PartialEq, Eq, Structural)]
pub enum MouseButton {
    Left,
    Right,
    Middle,
    Back,
    Forward,
}

/// A media or volume control.
#[derive(Clone, Copy, Debug, PartialEq, Eq, Structural)]
pub enum MediaKey {
    PlayPause,
    NextTrack,
    PrevTrack,
    VolumeUp,
    VolumeDown,
    Mute,
}

/// A window-manager or power action of the platform.
#[derive(Clone, Copy, Debug, PartialEq, Eq, Structural)]
pub enum NativeAction {
    MissionControl,
    AppExpose,
    PreviousDesktop,
    NextDesktop,
    ShowDesktop,
    LaunchpadShow,
    AppSwitcher,
    LockScreen,
    Screenshot,
    CaptureRegion,
    Sleep,
}

/// A named shortcut, whose chord is the platform's own.
#[derive(Clone, Copy, Debug, PartialEq, Eq, Structural)]
pub enum Shortcut {
    Copy,
    Paste,
    Cut,
    Undo,
    Redo,
    SelectAll,
    Find,
    Save,
    BrowserBack,
    BrowserForward,
    NewTab,
    CloseTab,
    ReopenTab,
    NextTab,
    PrevTab,
    ReloadPage,
}

/// One step of a workflow.
#[derive(Debug, PartialEq, Eq)]
pub enum WorkflowStep {
    TypeText(String),
    PressKey(KeyCombo),
    Delay { millis: u64 },
    RunAppleScript(String),
    RunShellCommand(String),
}

/// Work that can take seconds and runs off the caller's thread.
#[derive(Debug, PartialEq, Eq)]
pub enum Script {
    AppleScript(String),
    ShellCommand(String),
    Workflow(Vec<WorkflowStep>),
}

/// What an action comes to on the platform it runs on.
#[derive(Debug, PartialEq, Eq)]
pub enum Effect {
    /// Suppressed input: captured, but deliberately without an event.
    Suppressed,
    Click(MouseButton),
    Shortcut(Shortcut),
    Key(KeyCombo),
    HeldKey(KeyCombo),
    Scroll { dx: i32, dy: i32 },
    Media(MediaKey),
    Native(NativeAction),
    Script(Script),
    Text(String),
    /// Handled where the device is, not by injection.
    AgentSide,
}

/// An application, folder or URL to open.
#[derive(Debug, PartialEq, Eq)]
pub struct ApplicationTarget {
    pub path: String,
}

impl ApplicationTarget {
    pub fn path(&self) -> (path: &str)
        ensures
            path@ == self.path@,
    {
        self.path.as_str()
    }
}

/// A bound action.
#[derive(Debug, PartialEq, Eq)]
pub enum Action {
    OpenApplication(ApplicationTarget),
    Input {
        /// The name the action goes by in logs.
        label: String,
        effect: Effect,
    },
}

} // verus!
