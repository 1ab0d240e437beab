//! Native events for macOS: keyboard edges, clicks, media keys, commands.

use vstd::prelude::*;

use crate::binding::{
    Effect, KeyCombo, KeyboardUsage, MediaKey, MouseButton, NativeAction, Shortcut,
};
use crate::chord::{chars_of, chord, lemma_bare_key, lemma_modifier_prefix, named_key, parse_shortcut};
use crate::held::{modifiers_after, HeldKey, HeldModifiers, KeyPhase};
use crate::inject::SYNTHETIC_EVENT_USER_DATA;
use crate::keymap::{hid_usage_to_macos, macos_key};
use crate::posting::{
    group_posts, kept, law_nothing_is_lost_when_all_are_built, law_only_lost_events_are_missing,
    lemma_pair_posts, pair_posts, posts, EventGroup,
};
use crate::script::{dispatch_script, script_calls, ScriptCall};

verus! {

/// `kCGEventFlagMaskShift`.
pub const FLAG_SHIFT: u64 = 0x0002_0000;

/// `kCGEventFlagMaskControl`.
pub const FLAG_CONTROL: u64 = 0x0004_0000;

/// `kCGEventFlagMaskAlternate`.
pub const FLAG_ALTERNATE: u64 = 0x0008_0000;

/// `kCGEventFlagMaskCommand`.
pub const FLAG_COMMAND: u64 = 0x0010_0000;

/// The event flags of a set of modifiers: the sum of their masks, which are
/// distinct single bits.
pub open spec fn flag_sum(command: bool, shift: bool, control: bool, alternate: bool) -> int {
    (if command {
        FLAG_COMMAND as int
    } else {
        0
    }) + (if shift {
        FLAG_SHIFT as int
    } else {
        0
    }) + (if control {
        FLAG_CONTROL as int
    } else {
        0
    }) + (if alternate {
        FLAG_ALTERNATE as int
    } else {
        0
    })
}

/// The event flags while `modifiers` are held.
pub open spec fn held_flags(modifiers: Set<HeldKey>) -> int {
    flag_sum(
        modifiers.contains(HeldKey::Command),
        modifiers.contains(HeldKey::Shift),
        modifiers.contains(HeldKey::Control),
        modifiers.contains(HeldKey::Alt),
    )
}

/// The event flags of a chord.
pub open spec fn chord_flags(combo: KeyCombo) -> int {
    flag_sum(combo.command, combo.shift, combo.control, combo.option)
}

fn join_flags(command: bool, shift: bool, control: bool, alternate: bool) -> (flags: u64)
    ensures
        flags == flag_sum(command, shift, control, alternate),
{
    let mut flags: u64 = 0;
    if command {
        flags = flags | FLAG_COMMAND;
    }
    if shift {
        flags = flags | FLAG_SHIFT;
    }
    if control {
        flags = flags | FLAG_CONTROL;
    }
    if alternate {
        flags = flags | FLAG_ALTERNATE;
    }
    proof {
        let c: u64 = if command { 0x10_0000 } else { 0 };
        let s: u64 = if shift { 0x2_0000 } else { 0 };
        let t: u64 = if control { 0x4_0000 } else { 0 };
        let a: u64 = if alternate { 0x8_0000 } else { 0 };
        assert(0u64 | 0x10_0000 == 0x10_0000) by (bit_vector);
        assert((c == 0 || c == 0x10_0000) ==> (c | 0x2_0000 == c + 0x2_0000)) by (bit_vector);
        let cs: u64 = (c + s) as u64;
        assert(((c == 0 || c == 0x10_0000) && (s == 0 || s == 0x2_0000) && cs == c + s) ==> (cs
            | 0x4_0000 == cs + 0x4_0000)) by (bit_vector);
        let cst: u64 = (cs + t) as u64;
        assert(((c == 0 || c == 0x10_0000) && (s == 0 || s == 0x2_0000) && cs == c + s && (t == 0
            || t == 0x4_0000) && cst == cs + t) ==> (cst | 0x8_0000 == cst + 0x8_0000))
            by (bit_vector);
    }
    flags
}

/// The event flags while `modifiers` are held.
pub fn held_modifier_flags(modifiers: HeldModifiers) -> (flags: u64)
    ensures
        flags == held_flags(modifiers@),
{
    join_flags(
        modifiers.contains(HeldKey::Command),
        modifiers.contains(HeldKey::Shift),
        modifiers.contains(HeldKey::Control),
        modifiers.contains(HeldKey::Alt),
    )
}

/// The event flags of a chord.
pub fn combo_flags(combo: &KeyCombo) -> (flags: u64)
    ensures
        flags == chord_flags(*combo),
{
    join_flags(combo.has_command(), combo.has_shift(), combo.has_control(), combo.has_option())
}

/// One keyboard edge to post at the HID tap.
#[derive(Clone, Copy, Debug, PartialEq, Eq, Structural)]
pub struct KeyEvent {
    /// The virtual key (`kVK_*`).
    pub vk: u16,
    /// The modifier flags the event carries.
    pub flags: u64,
    pub phase: KeyPhase,
}

/// A press and release of a key.
#[derive(Clone, Copy, Debug, PartialEq, Eq, Structural)]
pub struct KeyTap {
    pub down: KeyEvent,
    pub up: KeyEvent,
}

/// What one edge of a held key comes to.
#[derive(Clone, Copy, Debug, PartialEq, Eq, Structural)]
pub enum HeldKeyEvent {
    Post(KeyEvent),
    /// The key has no macOS virtual key, so its edge is ignored.
    Unmapped(HeldKey),
}

/// The virtual key of a held key: a modifier's own, or its usage's.
pub open spec fn held_vk(key: HeldKey) -> Option<u16> {
    match key {
        HeldKey::Command => Some(0x37u16),
        HeldKey::Shift => Some(0x38u16),
        HeldKey::Alt => Some(0x3au16),
        HeldKey::Control => Some(0x3bu16),
        HeldKey::Key(usage) => macos_key(usage.code),
    }
}

/// The event one edge of `key` posts once `modifiers` are held.
pub open spec fn held_event(
    key: HeldKey,
    phase: KeyPhase,
    modifiers: Set<HeldKey>,
) -> HeldKeyEvent {
    match held_vk(key) {
        Some(vk) => HeldKeyEvent::Post(
            KeyEvent { vk, flags: held_flags(modifiers) as u64, phase },
        ),
        None => HeldKeyEvent::Unmapped(key),
    }
}

/// The virtual key and flags of one edge of a held key, with the edge recorded
/// in `modifiers` first. None where the usage has no virtual key.
pub fn held_key_event(
    key: HeldKey,
    phase: KeyPhase,
    modifiers: &mut HeldModifiers,
) -> (event: Option<(u16, u64)>)
    requires
        old(modifiers).wf(),
    ensures
        final(modifiers).wf(),
        final(modifiers)@ == modifiers_after(old(modifiers)@, key, phase is Down),
        event == match held_vk(key) {
            Some(vk) => Some((vk, held_flags(final(modifiers)@) as u64)),
            None => None,
        },
{
    modifiers.set(key, phase == KeyPhase::Down);
    let vk: Option<u16> = match key {
        HeldKey::Command => Some(0x37),
        HeldKey::Shift => Some(0x38),
        HeldKey::Alt => Some(0x3a),
        HeldKey::Control => Some(0x3b),
        HeldKey::Key(usage) => hid_usage_to_macos(usage.code()),
    };
    match vk {
        Some(vk) => Some((vk, held_modifier_flags(*modifiers))),
        None => None,
    }
}

/// The event of one edge of a held key.
pub fn post_held_key(
    key: HeldKey,
    phase: KeyPhase,
    modifiers: &mut HeldModifiers,
) -> (event: HeldKeyEvent)
    requires
        old(modifiers).wf(),
    ensures
        final(modifiers).wf(),
        final(modifiers)@ == modifiers_after(old(modifiers)@, key, phase is Down),
        event == held_event(key, phase, final(modifiers)@),
{
    match held_key_event(key, phase, modifiers) {
        Some((vk, flags)) => HeldKeyEvent::Post(KeyEvent { vk, flags, phase }),
        None => HeldKeyEvent::Unmapped(key),
    }
}

/// The order the edges of `keys` are posted in: as listed on the way down, the
/// other way round on the way up.
pub open spec fn edge_order(keys: Seq<HeldKey>, phase: KeyPhase) -> Seq<HeldKey> {
    match phase {
        KeyPhase::Down => keys,
        KeyPhase::Up => keys.reverse(),
    }
}

/// The modifiers held once every key of `keys` had its edge.
pub open spec fn modifiers_after_all(
    modifiers: Set<HeldKey>,
    keys: Seq<HeldKey>,
    held: bool,
) -> Set<HeldKey>
    decreases keys.len(),
{
    if keys.len() == 0 {
        modifiers
    } else {
        modifiers_after(modifiers_after_all(modifiers, keys.drop_last(), held), keys.last(), held)
    }
}

/// The events for edges posted in the order of `order`. Each carries the
/// modifiers held after its own edge and those before it.
pub open spec fn edge_events(
    order: Seq<HeldKey>,
    phase: KeyPhase,
    modifiers: Set<HeldKey>,
) -> Seq<HeldKeyEvent> {
    Seq::new(
        order.len(),
        |i: int|
            held_event(
                order[i],
                phase,
                modifiers_after_all(modifiers, order.take(i + 1), phase is Down),
            ),
    )
}

/// Emit the physical-key edges whose shared ownership changed, preserving the
/// aggregate synthetic modifier state on every event.
pub fn hold_keys(
    keys: &[HeldKey],
    phase: KeyPhase,
    modifiers: HeldModifiers,
) -> (result: (Vec<HeldKeyEvent>, HeldModifiers))
    requires
        modifiers.wf(),
    ensures
        result.1.wf(),
        result.0@ == edge_events(edge_order(keys@, phase), phase, modifiers@),
        result.1@ == modifiers_after_all(
            modifiers@,
            edge_order(keys@, phase),
            phase is Down,
        ),
{
    let mut cursor = modifiers;
    let mut events: Vec<HeldKeyEvent> = Vec::new();
    let ghost order = edge_order(keys@, phase);
    let len: usize = keys.len();
    let mut i: usize = 0;
    while i < len
        invariant
            i <= len == keys@.len(),
            order == edge_order(keys@, phase),
            cursor.wf(),
            cursor@ == modifiers_after_all(modifiers@, order.take(i as int), phase is Down),
            events@ =~= edge_events(order.take(i as int), phase, modifiers@),
        decreases len - i,
    {
        let key = match phase {
            KeyPhase::Down => keys[i],
            KeyPhase::Up => keys[len - 1 - i],
        };
        assert(order.take(i + 1).drop_last() =~= order.take(i as int));
        let event = post_held_key(key, phase, &mut cursor);
        events.push(event);
        proof {
            assert(order.take(i + 1).take(i + 1) =~= order.take(i + 1));
            assert forall|j: int| 0 <= j < i implies edge_events(
                order.take(i + 1),
                phase,
                modifiers@,
            )[j] == edge_events(order.take(i as int), phase, modifiers@)[j] by {
                assert(order.take(i + 1).take(j + 1) =~= order.take(i as int).take(j + 1));
            }
        }
        i = i + 1;
    }
    assert(order.take(i as int) =~= order);
    (events, cursor)
}

/// `kVK_Tab`.
pub const VK_TAB: u16 = 0x30;

/// A key-down and key-up pair for `vk` under `flags`.
pub open spec fn key_tap(vk: u16, flags: int) -> KeyTap {
    KeyTap {
        down: KeyEvent { vk, flags: flags as u64, phase: KeyPhase::Down },
        up: KeyEvent { vk, flags: flags as u64, phase: KeyPhase::Up },
    }
}

/// One keyboard edge for `vk` with `flags` set.
pub fn post_key_phase(vk: u16, flags: u64, phase: KeyPhase) -> (event: KeyEvent)
    ensures
        event == (KeyEvent { vk, flags, phase }),
{
    KeyEvent { vk, flags, phase }
}

/// The Tab tap that opens the application switcher. It comes after the hold's
/// Command down-edge and carries the Command flag explicitly, like every
/// synthesised chord event.
pub fn tap_app_switcher() -> (events: Vec<HeldKeyEvent>)
    ensures
        events@ == seq![
            HeldKeyEvent::Post(key_tap(VK_TAB, FLAG_COMMAND as int).down),
            HeldKeyEvent::Post(key_tap(VK_TAB, FLAG_COMMAND as int).up),
        ],
{
    let tap = post_key(VK_TAB, FLAG_COMMAND);
    let mut events: Vec<HeldKeyEvent> = Vec::new();
    events.push(HeldKeyEvent::Post(tap.down));
    events.push(HeldKeyEvent::Post(tap.up));
    events
}

/// The mouse buttons a Core Graphics event names.
#[derive(Clone, Copy, Debug, PartialEq, Eq, Structural)]
pub enum PointerButton {
    Left,
    Right,
    Center,
}

/// The type of a mouse event.
#[derive(Clone, Copy, Debug, PartialEq, Eq, Structural)]
pub enum MouseEventType {
    LeftMouseDown,
    LeftMouseUp,
    RightMouseDown,
    RightMouseUp,
    OtherMouseDown,
    OtherMouseUp,
}

/// One mouse event to post at the cursor's current location.
#[derive(Clone, Copy, Debug, PartialEq, Eq, Structural)]
pub struct MouseEvent {
    pub event_type: MouseEventType,
    pub button: PointerButton,
    /// The raw button number to address instead, for buttons without a name.
    pub number: Option<i64>,
    /// The source user data the event carries.
    pub user_data: i64,
}

/// A press and release of a mouse button, posted at one location.
#[derive(Clone, Copy, Debug, PartialEq, Eq, Structural)]
pub struct MouseClick {
    pub down: MouseEvent,
    pub up: MouseEvent,
}

/// One media-key event: an auxiliary control button of the system-defined type.
#[derive(Clone, Copy, Debug, PartialEq, Eq, Structural)]
pub struct MediaEvent {
    pub subtype: i16,
    pub data1: isize,
    pub data2: isize,
}

/// A press and release of a media key.
#[derive(Clone, Copy, Debug, PartialEq, Eq, Structural)]
pub struct MediaTap {
    pub down: MediaEvent,
    pub up: MediaEvent,
}

/// An action the Dock is asked for.
#[derive(Clone, Copy, Debug, PartialEq, Eq, Structural)]
pub enum DockAction {
    MissionControl,
    AppExpose,
    ShowDesktop,
    Launchpad,
}

/// A step between Spaces, through the user's own symbolic hotkey.
#[derive(Clone, Copy, Debug, PartialEq, Eq, Structural)]
pub enum SpaceStep {
    Previous,
    Next,
}

/// One thing the macOS backend performs.
#[derive(Debug, PartialEq, Eq)]
pub enum MacCommand {
    Tap(KeyTap),
    /// A chord whose usage has no virtual key; nothing is pressed.
    Unmapped(KeyboardUsage),
    Click(MouseClick),
    /// Type a text, whatever the keyboard layout; see [`type_text`].
    Text(String),
    Media(MediaTap),
    Dock(DockAction),
    Space(SpaceStep),
    Wheel { dx: i32, dy: i32 },
    /// Press and immediately release the switcher hold.
    QuickSwitch,
    AppleScript(String),
    Shell(String),
    Pause { millis: u64 },
    SleepSystem,
    /// The hook or HID layer handles the action.
    AgentSide,
}

/// Stamp an event as synthesised.
pub fn tag_synthetic(event: &mut MouseEvent)
    ensures
        *final(event) == (MouseEvent { user_data: SYNTHETIC_EVENT_USER_DATA, ..*old(event) }),
{
    event.user_data = SYNTHETIC_EVENT_USER_DATA;
}

/// A tagged mouse event.
pub open spec fn mouse(
    event_type: MouseEventType,
    button: PointerButton,
    number: Option<i64>,
) -> MouseEvent {
    MouseEvent { event_type, button, number, user_data: SYNTHETIC_EVENT_USER_DATA }
}

fn tagged_mouse(
    event_type: MouseEventType,
    button: PointerButton,
    number: Option<i64>,
) -> (event: MouseEvent)
    ensures
        event == mouse(event_type, button, number),
{
    let mut event = MouseEvent { event_type, button, number, user_data: 0 };
    tag_synthetic(&mut event);
    event
}

/// The down and up types of a named button.
pub open spec fn click_types(button: PointerButton) -> (MouseEventType, MouseEventType) {
    match button {
        PointerButton::Left => (MouseEventType::LeftMouseDown, MouseEventType::LeftMouseUp),
        PointerButton::Right => (MouseEventType::RightMouseDown, MouseEventType::RightMouseUp),
        PointerButton::Center => (MouseEventType::OtherMouseDown, MouseEventType::OtherMouseUp),
    }
}

/// A click of a named button.
pub open spec fn click(button: PointerButton) -> MouseClick {
    MouseClick {
        down: mouse(click_types(button).0, button, None),
        up: mouse(click_types(button).1, button, None),
    }
}

/// A click of an extra button.
pub open spec fn other_click(number: i64) -> MouseClick {
    MouseClick {
        down: mouse(MouseEventType::OtherMouseDown, PointerButton::Center, Some(number)),
        up: mouse(MouseEventType::OtherMouseUp, PointerButton::Center, Some(number)),
    }
}

/// A mouse-down and mouse-up pair for `button` at the cursor's current
/// location.
pub fn post_click(button: PointerButton) -> (clicked: MouseClick)
    ensures
        clicked == click(button),
{
    let (down, up) = match button {
        PointerButton::Left => (MouseEventType::LeftMouseDown, MouseEventType::LeftMouseUp),
        PointerButton::Right => (MouseEventType::RightMouseDown, MouseEventType::RightMouseUp),
        PointerButton::Center => (MouseEventType::OtherMouseDown, MouseEventType::OtherMouseUp),
    };
    MouseClick { down: tagged_mouse(down, button, None), up: tagged_mouse(up, button, None) }
}

/// A down and up pair for an extra mouse button by its raw button number (3 is
/// back, "button 4"; 4 is forward, "button 5"). These are the native events
/// browsers and most applications interpret as back and forward.
pub fn post_other_button(button_number: i64) -> (clicked: MouseClick)
    ensures
        clicked == other_click(button_number),
{
    let button = PointerButton::Center;
    MouseClick {
        down: tagged_mouse(MouseEventType::OtherMouseDown, button, Some(button_number)),
        up: tagged_mouse(MouseEventType::OtherMouseUp, button, Some(button_number)),
    }
}

/// The click of each mouse button. Button numbers count from zero.
pub open spec fn button_click(button: MouseButton) -> MouseClick {
    match button {
        MouseButton::Left => click(PointerButton::Left),
        MouseButton::Right => click(PointerButton::Right),
        MouseButton::Middle => click(PointerButton::Center),
        MouseButton::Back => other_click(3),
        MouseButton::Forward => other_click(4),
    }
}

/// Synthesise a click for `button` at the cursor location. Extra buttons post
/// the real button the system treats as back or forward.
pub fn dispatch_click(button: MouseButton) -> (clicked: MouseClick)
    ensures
        clicked == button_click(button),
{
    match button {
        MouseButton::Left => post_click(PointerButton::Left),
        MouseButton::Right => post_click(PointerButton::Right),
        MouseButton::Middle => post_click(PointerButton::Center),
        MouseButton::Back => post_other_button(3),
        MouseButton::Forward => post_other_button(4),
    }
}

/// The events of a click that are posted, given whether the event source and
/// each event could be built: none without a source, and otherwise every event
/// that could be, whatever became of the other.
pub fn click_posts(
    click: MouseClick,
    source_built: bool,
    down_built: bool,
    up_built: bool,
) -> (posted: Vec<MouseEvent>)
    ensures
        posted@ == if !source_built {
            seq![]
        } else if down_built && up_built {
            seq![click.down, click.up]
        } else if down_built {
            seq![click.down]
        } else if up_built {
            seq![click.up]
        } else {
            seq![]
        },
        posted@ == if source_built {
            posts(EventGroup::Click, seq![click.down, click.up], seq![down_built, up_built])
        } else {
            seq![]
        },
{
    if !source_built {
        return Vec::new();
    }
    proof {
        lemma_pair_posts(EventGroup::Click, click.down, click.up, down_built, up_built);
    }
    pair_posts(EventGroup::Click, click.down, click.up, down_built, up_built)
}

/// A key tap as a command.
pub open spec fn tap(vk: u16, flags: int) -> Seq<MacCommand> {
    seq![MacCommand::Tap(key_tap(vk, flags))]
}

/// A key-down and key-up pair for `vk` with `flags` set.
pub fn post_key(vk: u16, flags: u64) -> (tap: KeyTap)
    ensures
        tap == key_tap(vk, flags as int),
{
    KeyTap {
        down: post_key_phase(vk, flags, KeyPhase::Down),
        up: post_key_phase(vk, flags, KeyPhase::Up),
    }
}

/// The edges of a key tap that are posted, given whether each could be built
/// from an event source of its own: every one that could be, so a key whose
/// press is lost is still released.
pub fn key_posts(
    tap: KeyTap,
    down_built: bool,
    up_built: bool,
) -> (posted: Vec<KeyEvent>)
    ensures
        posted@ == if down_built && up_built {
            seq![tap.down, tap.up]
        } else if down_built {
            seq![tap.down]
        } else if up_built {
            seq![tap.up]
        } else {
            seq![]
        },
        posted@ == posts(EventGroup::Keys, seq![tap.down, tap.up], seq![down_built, up_built]),
{
    proof {
        lemma_pair_posts(EventGroup::Keys, tap.down, tap.up, down_built, up_built);
    }
    pair_posts(EventGroup::Keys, tap.down, tap.up, down_built, up_built)
}

fn one_command(command: MacCommand) -> (commands: Vec<MacCommand>)
    ensures
        commands@ == seq![command],
{
    let mut commands: Vec<MacCommand> = Vec::new();
    commands.push(command);
    assert(commands@ =~= seq![command]);
    commands
}

/// The commands of a pressed chord: a tap of its key under its flags, or none
/// but the report that its usage has no virtual key.
pub open spec fn chord_tap(combo: KeyCombo) -> Seq<MacCommand> {
    match macos_key(combo.key.code) {
        Some(vk) => tap(vk, chord_flags(combo)),
        None => seq![MacCommand::Unmapped(combo.key)],
    }
}

/// Press and release a chord.
pub fn press_combo(combo: &KeyCombo) -> (commands: Vec<MacCommand>)
    ensures
        commands@ == chord_tap(*combo),
{
    match hid_usage_to_macos(combo.key().code()) {
        Some(vk) => one_command(MacCommand::Tap(post_key(vk, combo_flags(combo)))),
        None => one_command(MacCommand::Unmapped(combo.key())),
    }
}

/// A key-down event that inserts one character, whatever the keyboard layout.
#[derive(Clone, Copy, Debug, PartialEq, Eq, Structural)]
pub struct TextEvent {
    /// A placeholder; the character carried decides what is inserted.
    pub vk: u16,
    pub phase: KeyPhase,
    /// The Unicode scalar value of the character.
    pub scalar: u32,
}

/// The event that inserts a character.
pub open spec fn text_event(character: char) -> TextEvent {
    TextEvent { vk: 0, phase: KeyPhase::Down, scalar: character as u32 }
}

/// One event for each character of `text`, in order.
pub open spec fn typed(text: Seq<char>) -> Seq<TextEvent> {
    Seq::new(text.len(), |i: int| text_event(text[i]))
}

/// Type an arbitrary string by emitting one key event per character: the
/// events, in order.
pub fn type_text(text: &str) -> (events: Vec<TextEvent>)
    ensures
        events@ == typed(text@),
{
    let chars = chars_of(text);
    let mut events: Vec<TextEvent> = Vec::new();
    let mut i: usize = 0;
    while i < chars.len()
        invariant
            i <= chars@.len(),
            chars@ == text@,
            events@.len() == i,
            forall|j: int| 0 <= j < i ==> #[trigger] events@[j] == text_event(text@[j]),
        decreases chars@.len() - i,
    {
        // Keycode 0 (A) stands in for whatever key would type the character.
        events.push(TextEvent { vk: 0, phase: KeyPhase::Down, scalar: chars[i] as u32 });
        i = i + 1;
    }
    assert(events@ =~= typed(text@));
    events
}

/// The events of a typed text that are posted, given whether the event source
/// and the event of each character could be built: none without a source, and
/// otherwise those that could be, in order, whatever became of the others.
pub fn text_posts(text: &str, source_built: bool, built: &[bool]) -> (posted: Vec<TextEvent>)
    requires
        built@.len() == text@.len(),
    ensures
        posted@ == if source_built {
            kept(typed(text@), built@)
        } else {
            seq![]
        },
        posted@ == if source_built {
            posts(EventGroup::Text, typed(text@), built@)
        } else {
            seq![]
        },
{
    if !source_built {
        return Vec::new();
    }
    let events = type_text(text);
    proof {
        law_only_lost_events_are_missing(EventGroup::Text, events@, built@);
    }
    group_posts(EventGroup::Text, &events, built)
}

/// A scalar value is its character's number.
proof fn lemma_scalar(character: char)
    ensures
        text_event(character).scalar == character as int,
{
}

/// Where nothing is lost, the characters carried spell the text, one event for
/// each.
pub proof fn law_typed_text_spells_itself(text: Seq<char>, built: Seq<bool>)
    requires
        built.len() == text.len(),
        forall|i: int| 0 <= i < built.len() ==> #[trigger] built[i],
    ensures
        kept(typed(text), built) == typed(text),
        typed(text).map_values(|event: TextEvent| event.scalar as int) == text.map_values(
            |character: char| character as int,
        ),
{
    law_nothing_is_lost_when_all_are_built(EventGroup::Text, typed(text), built);
    assert forall|i: int| 0 <= i < text.len() implies #[trigger] typed(text)[i].scalar
        == text[i] as int by {
        lemma_scalar(text[i]);
    }
    assert(typed(text).map_values(|event: TextEvent| event.scalar as int) =~= text.map_values(
        |character: char| character as int,
    ));
}

/// Two texts that are typed alike are the same text.
pub proof fn law_typed_texts_distinct(text: Seq<char>, other: Seq<char>)
    requires
        typed(text) == typed(other),
    ensures
        text == other,
{
    assert(typed(text).len() == text.len());
    assert(typed(other).len() == other.len());
    assert forall|i: int| 0 <= i < text.len() implies text[i] == other[i] by {
        lemma_scalar(text[i]);
        lemma_scalar(other[i]);
        assert(typed(text)[i] == text_event(text[i]));
        assert(typed(other)[i] == text_event(other[i]));
        assert(text[i] as int == other[i] as int);
    }
    assert(text =~= other);
}

/// `NX_KEYTYPE_SOUND_UP`, and after it the other key types of
/// `<IOKit/hidsystem/ev_keymap.h>` that are in use.
pub const NX_KEYTYPE_SOUND_UP: i32 = 0;

pub const NX_KEYTYPE_SOUND_DOWN: i32 = 1;

pub const NX_KEYTYPE_MUTE: i32 = 7;

pub const NX_KEYTYPE_PLAY: i32 = 16;

pub const NX_KEYTYPE_NEXT: i32 = 17;

pub const NX_KEYTYPE_PREVIOUS: i32 = 18;

/// `NX_SUBTYPE_AUX_CONTROL_BUTTONS`.
pub const NX_SUBTYPE_AUX_CONTROL_BUTTONS: i16 = 8;

pub const NX_KEY_DOWN: i32 = 0x0a;

pub const NX_KEY_UP: i32 = 0x0b;

/// The `NX_KEYTYPE_*` of a media key.
pub open spec fn media_key_type(key: MediaKey) -> i32 {
    match key {
        MediaKey::PlayPause => NX_KEYTYPE_PLAY,
        MediaKey::NextTrack => NX_KEYTYPE_NEXT,
        MediaKey::PrevTrack => NX_KEYTYPE_PREVIOUS,
        MediaKey::VolumeUp => NX_KEYTYPE_SOUND_UP,
        MediaKey::VolumeDown => NX_KEYTYPE_SOUND_DOWN,
        MediaKey::Mute => NX_KEYTYPE_MUTE,
    }
}

/// The `NX_KEYTYPE_*` of a media key.
pub fn nx_key(key: MediaKey) -> (nx_key: i32)
    ensures
        nx_key == media_key_type(key),
{
    match key {
        MediaKey::PlayPause => NX_KEYTYPE_PLAY,
        MediaKey::NextTrack => NX_KEYTYPE_NEXT,
        MediaKey::PrevTrack => NX_KEYTYPE_PREVIOUS,
        MediaKey::VolumeUp => NX_KEYTYPE_SOUND_UP,
        MediaKey::VolumeDown => NX_KEYTYPE_SOUND_DOWN,
        MediaKey::Mute => NX_KEYTYPE_MUTE,
    }
}

/// The low sixteen bits of a key type, as a signed number: the key type itself
/// wherever it fits in fifteen bits.
pub open spec fn key_type_word(nx_key: i32) -> int {
    (nx_key + 0x8000) % 0x1_0000 - 0x8000
}

/// The first data word of an auxiliary control button event: the high word is
/// the key type, the next byte the key state, the low bit the repeat (never
/// set).
pub open spec fn media_data(nx_key: i32, state: i32) -> int {
    key_type_word(nx_key) * 0x1_0000 + state * 0x100
}

/// The event of a media key in a state.
pub open spec fn media_event(nx_key: i32, state: i32) -> MediaEvent {
    MediaEvent {
        subtype: NX_SUBTYPE_AUX_CONTROL_BUTTONS,
        data1: media_data(nx_key, state) as isize,
        data2: 0,
    }
}

proof fn lemma_media_data(nx_key: i32)
    ensures
        (nx_key << 16) | (NX_KEY_DOWN << 8) == media_data(nx_key, NX_KEY_DOWN),
        (nx_key << 16) | (NX_KEY_UP << 8) == media_data(nx_key, NX_KEY_UP),
{
    assert((nx_key << 16i32) | (0x0ai32 << 8i32) == ((nx_key + 0x8000) % 0x1_0000 - 0x8000)
        * 0x1_0000 + 0x0a00) by (bit_vector);
    assert((nx_key << 16i32) | (0x0bi32 << 8i32) == ((nx_key + 0x8000) % 0x1_0000 - 0x8000)
        * 0x1_0000 + 0x0b00) by (bit_vector);
}

/// The press and release of a media or system key (play, track navigation,
/// volume).
pub fn media_tap(nx_key: i32) -> (tap: MediaTap)
    ensures
        tap.down == media_event(nx_key, NX_KEY_DOWN),
        tap.up == media_event(nx_key, NX_KEY_UP),
{
    proof {
        lemma_media_data(nx_key);
    }
    let subtype: i16 = NX_SUBTYPE_AUX_CONTROL_BUTTONS;
    let down: isize = ((nx_key << 16) | (NX_KEY_DOWN << 8)) as isize;
    let up: isize = ((nx_key << 16) | (NX_KEY_UP << 8)) as isize;
    MediaTap {
        down: MediaEvent { subtype, data1: down, data2: 0 },
        up: MediaEvent { subtype, data1: up, data2: 0 },
    }
}

/// The events of a media key that are posted, given whether each could be
/// built. A press that cannot be built takes the release with it.
pub fn post_media_key(nx_key: i32, down_built: bool, up_built: bool) -> (posted: Vec<MediaEvent>)
    ensures
        posted@ == if !down_built {
            seq![]
        } else if !up_built {
            seq![media_event(nx_key, NX_KEY_DOWN)]
        } else {
            seq![media_event(nx_key, NX_KEY_DOWN), media_event(nx_key, NX_KEY_UP)]
        },
        posted@ == posts(
            EventGroup::MediaTap,
            seq![media_event(nx_key, NX_KEY_DOWN), media_event(nx_key, NX_KEY_UP)],
            seq![down_built, up_built],
        ),
{
    let tap = media_tap(nx_key);
    proof {
        lemma_pair_posts(EventGroup::MediaTap, tap.down, tap.up, down_built, up_built);
    }
    pair_posts(EventGroup::MediaTap, tap.down, tap.up, down_built, up_built)
}

/// The chord of a key with no Option held.
pub open spec fn chord_of(command: bool, control: bool, shift: bool, code: u8) -> KeyCombo {
    KeyCombo { command, control, shift, option: false, key: KeyboardUsage { code } }
}

/// The macOS chord of each named shortcut, as text.
pub open spec fn shortcut_label(shortcut: Shortcut) -> Seq<char> {
    match shortcut {
        Shortcut::Copy => "Cmd+C"@,
        Shortcut::Paste => "Cmd+V"@,
        Shortcut::Cut => "Cmd+X"@,
        Shortcut::Undo => "Cmd+Z"@,
        Shortcut::Redo => "Cmd+Shift+Z"@,
        Shortcut::SelectAll => "Cmd+A"@,
        Shortcut::Find => "Cmd+F"@,
        Shortcut::Save => "Cmd+S"@,
        Shortcut::BrowserBack => "Cmd+["@,
        Shortcut::BrowserForward => "Cmd+]"@,
        Shortcut::NewTab => "Cmd+T"@,
        Shortcut::CloseTab => "Cmd+W"@,
        Shortcut::ReopenTab => "Cmd+Shift+T"@,
        Shortcut::NextTab => "Ctrl+Tab"@,
        Shortcut::PrevTab => "Ctrl+Shift+Tab"@,
        Shortcut::ReloadPage => "Cmd+R"@,
    }
}

/// The macOS chord of each named shortcut.
pub open spec fn shortcut_chord(shortcut: Shortcut) -> KeyCombo {
    match shortcut {
        Shortcut::Copy => chord_of(true, false, false, 0x06),
        Shortcut::Paste => chord_of(true, false, false, 0x19),
        Shortcut::Cut => chord_of(true, false, false, 0x1b),
        Shortcut::Undo => chord_of(true, false, false, 0x1d),
        Shortcut::Redo => chord_of(true, false, true, 0x1d),
        Shortcut::SelectAll => chord_of(true, false, false, 0x04),
        Shortcut::Find => chord_of(true, false, false, 0x09),
        Shortcut::Save => chord_of(true, false, false, 0x16),
        Shortcut::BrowserBack => chord_of(true, false, false, 0x2f),
        Shortcut::BrowserForward => chord_of(true, false, false, 0x30),
        Shortcut::NewTab => chord_of(true, false, false, 0x17),
        Shortcut::CloseTab => chord_of(true, false, false, 0x1a),
        Shortcut::ReopenTab => chord_of(true, false, true, 0x17),
        Shortcut::NextTab => chord_of(false, true, false, 0x2b),
        Shortcut::PrevTab => chord_of(false, true, true, 0x2b),
        Shortcut::ReloadPage => chord_of(true, false, false, 0x15),
    }
}

/// The text of a key under Shift where `shift`.
spec fn shifted(shift: bool, name: Seq<char>) -> Seq<char> {
    if shift {
        "Shift+"@ + name
    } else {
        name
    }
}

/// The chord of a table entry under Cmd.
proof fn lemma_command_entry(text: Seq<char>, shift: bool, name: Seq<char>, code: u8)
    requires
        text =~= "Cmd+"@ + shifted(shift, name),
        name.len() <= 3,
        named_key(name) == Some(KeyboardUsage { code }),
    ensures
        chord(text) == Some(chord_of(true, false, shift, code)),
{
    lemma_bare_key(name);
    lemma_modifier_prefix(name);
    lemma_modifier_prefix(shifted(shift, name));
}

/// The chord of a table entry under Ctrl.
proof fn lemma_control_entry(text: Seq<char>, shift: bool, name: Seq<char>, code: u8)
    requires
        text =~= "Ctrl+"@ + shifted(shift, name),
        name.len() <= 3,
        named_key(name) == Some(KeyboardUsage { code }),
    ensures
        chord(text) == Some(chord_of(false, true, shift, code)),
{
    lemma_bare_key(name);
    lemma_modifier_prefix(name);
    lemma_modifier_prefix(shifted(shift, name));
}

/// The table entries stand for the chords of the shortcuts.
pub proof fn lemma_shortcut_table(shortcut: Shortcut)
    ensures
        chord(shortcut_label(shortcut)) == Some(shortcut_chord(shortcut)),
{
    reveal_strlit("Cmd+");
    reveal_strlit("Ctrl+");
    reveal_strlit("Shift+");
    reveal_strlit("A");
    reveal_strlit("C");
    reveal_strlit("F");
    reveal_strlit("R");
    reveal_strlit("S");
    reveal_strlit("T");
    reveal_strlit("Tab");
    reveal_strlit("V");
    reveal_strlit("W");
    reveal_strlit("X");
    reveal_strlit("Z");
    reveal_strlit("[");
    reveal_strlit("]");
    match shortcut {
        Shortcut::Copy => {
            reveal_strlit("Cmd+C");
            lemma_command_entry("Cmd+C"@, false, "C"@, 0x06);
        },
        Shortcut::Paste => {
            reveal_strlit("Cmd+V");
            lemma_command_entry("Cmd+V"@, false, "V"@, 0x19);
        },
        Shortcut::Cut => {
            reveal_strlit("Cmd+X");
            lemma_command_entry("Cmd+X"@, false, "X"@, 0x1b);
        },
        Shortcut::Undo => {
            reveal_strlit("Cmd+Z");
            lemma_command_entry("Cmd+Z"@, false, "Z"@, 0x1d);
        },
        Shortcut::Redo => {
            reveal_strlit("Cmd+Shift+Z");
            lemma_command_entry("Cmd+Shift+Z"@, true, "Z"@, 0x1d);
        },
        Shortcut::SelectAll => {
            reveal_strlit("Cmd+A");
            lemma_command_entry("Cmd+A"@, false, "A"@, 0x04);
        },
        Shortcut::Find => {
            reveal_strlit("Cmd+F");
            lemma_command_entry("Cmd+F"@, false, "F"@, 0x09);
        },
        Shortcut::Save => {
            reveal_strlit("Cmd+S");
            lemma_command_entry("Cmd+S"@, false, "S"@, 0x16);
        },
        Shortcut::BrowserBack => {
            reveal_strlit("Cmd+[");
            lemma_command_entry("Cmd+["@, false, "["@, 0x2f);
        },
        Shortcut::BrowserForward => {
            reveal_strlit("Cmd+]");
            lemma_command_entry("Cmd+]"@, false, "]"@, 0x30);
        },
        Shortcut::NewTab => {
            reveal_strlit("Cmd+T");
            lemma_command_entry("Cmd+T"@, false, "T"@, 0x17);
        },
        Shortcut::CloseTab => {
            reveal_strlit("Cmd+W");
            lemma_command_entry("Cmd+W"@, false, "W"@, 0x1a);
        },
        Shortcut::ReopenTab => {
            reveal_strlit("Cmd+Shift+T");
            lemma_command_entry("Cmd+Shift+T"@, true, "T"@, 0x17);
        },
        Shortcut::NextTab => {
            reveal_strlit("Ctrl+Tab");
            lemma_control_entry("Ctrl+Tab"@, false, "Tab"@, 0x2b);
        },
        Shortcut::PrevTab => {
            reveal_strlit("Ctrl+Shift+Tab");
            lemma_control_entry("Ctrl+Shift+Tab"@, true, "Tab"@, 0x2b);
        },
        Shortcut::ReloadPage => {
            reveal_strlit("Cmd+R");
            lemma_command_entry("Cmd+R"@, false, "R"@, 0x15);
        },
    }
}

/// The macOS chord for each named [`Shortcut`].
///
/// Parsed from text rather than built from modifier bits, so the table stays a
/// flat, auditable list of chord strings.
pub fn combo(shortcut: Shortcut) -> (combo: KeyCombo)
    ensures
        combo == shortcut_chord(shortcut),
{
    let text: &str = match shortcut {
        Shortcut::Copy => "Cmd+C",
        Shortcut::Paste => "Cmd+V",
        Shortcut::Cut => "Cmd+X",
        Shortcut::Undo => "Cmd+Z",
        Shortcut::Redo => "Cmd+Shift+Z",
        Shortcut::SelectAll => "Cmd+A",
        Shortcut::Find => "Cmd+F",
        Shortcut::Save => "Cmd+S",
        Shortcut::BrowserBack => "Cmd+[",
        Shortcut::BrowserForward => "Cmd+]",
        Shortcut::NewTab => "Cmd+T",
        Shortcut::CloseTab => "Cmd+W",
        Shortcut::ReopenTab => "Cmd+Shift+T",
        Shortcut::NextTab => "Ctrl+Tab",
        Shortcut::PrevTab => "Ctrl+Shift+Tab",
        Shortcut::ReloadPage => "Cmd+R",
    };
    proof {
        lemma_shortcut_table(shortcut);
    }
    parse_shortcut(text)
}

/// No two shortcuts share a chord.
pub proof fn law_shortcuts_distinct(a: Shortcut, b: Shortcut)
    requires
        shortcut_chord(a) == shortcut_chord(b),
    ensures
        a == b,
{
}

/// Every named shortcut has a key on macOS, so each comes to a tap.
pub proof fn law_shortcuts_are_mapped(shortcut: Shortcut)
    ensures
        macos_key(shortcut_chord(shortcut).key.code) is Some,
{
}

/// What each native action comes to.
pub open spec fn native_commands(native: NativeAction) -> Seq<MacCommand> {
    match native {
        NativeAction::MissionControl => seq![MacCommand::Dock(DockAction::MissionControl)],
        NativeAction::AppExpose => seq![MacCommand::Dock(DockAction::AppExpose)],
        NativeAction::PreviousDesktop => seq![MacCommand::Space(SpaceStep::Previous)],
        NativeAction::NextDesktop => seq![MacCommand::Space(SpaceStep::Next)],
        NativeAction::ShowDesktop => seq![MacCommand::Dock(DockAction::ShowDesktop)],
        NativeAction::LaunchpadShow => seq![MacCommand::Dock(DockAction::Launchpad)],
        NativeAction::AppSwitcher => seq![MacCommand::QuickSwitch],
        // Cmd+Ctrl+Q
        NativeAction::LockScreen => tap(0x0c, flag_sum(true, false, true, false)),
        // Cmd+Shift+3
        NativeAction::Screenshot => tap(0x14, flag_sum(true, true, false, false)),
        // Cmd+Shift+Ctrl+4
        NativeAction::CaptureRegion => tap(0x15, flag_sum(true, true, true, false)),
        NativeAction::Sleep => seq![MacCommand::SleepSystem],
    }
}

/// Dispatch a window-manager or power [`NativeAction`].
///
/// The window actions go straight to the Dock or the WindowServer rather than
/// through a synthesised chord, which the user's keyboard settings could turn
/// off. The switcher is a balanced quick switch: press and immediately release
/// the same held output the press lifecycle drives, so a dispatcher without a
/// release context leaves the system state exactly as it found it.
pub fn dispatch_native(native: NativeAction) -> (commands: Vec<MacCommand>)
    ensures
        commands@ == native_commands(native),
{
    let command = match native {
        NativeAction::MissionControl => MacCommand::Dock(DockAction::MissionControl),
        NativeAction::AppExpose => MacCommand::Dock(DockAction::AppExpose),
        NativeAction::PreviousDesktop => MacCommand::Space(SpaceStep::Previous),
        NativeAction::NextDesktop => MacCommand::Space(SpaceStep::Next),
        NativeAction::ShowDesktop => MacCommand::Dock(DockAction::ShowDesktop),
        NativeAction::LaunchpadShow => MacCommand::Dock(DockAction::Launchpad),
        NativeAction::AppSwitcher => MacCommand::QuickSwitch,
        NativeAction::LockScreen => {
            // Cmd+Ctrl+Q (`kVK_ANSI_Q`)
            MacCommand::Tap(post_key(0x0c, join_flags(true, false, true, false)))
        },
        NativeAction::Screenshot => {
            // Cmd+Shift+3 (`kVK_ANSI_3`)
            MacCommand::Tap(post_key(0x14, join_flags(true, true, false, false)))
        },
        NativeAction::CaptureRegion => {
            // Cmd+Shift+Ctrl+4 (`kVK_ANSI_4`)
            MacCommand::Tap(post_key(0x15, join_flags(true, true, true, false)))
        },
        // Sleep has no event equivalent (the WindowServer ignores a
        // synthesised power key), so power management is asked directly.
        NativeAction::Sleep => MacCommand::SleepSystem,
    };
    one_command(command)
}

/// A program to run and the arguments it is given.
#[derive(Debug, PartialEq, Eq)]
pub struct Process {
    pub program: String,
    pub args: Vec<String>,
}

impl Process {
    /// Whether the process runs `program` with exactly `args`.
    pub open spec fn runs(&self, program: Seq<char>, args: Seq<Seq<char>>) -> bool {
        &&& self.program@ == program
        &&& self.args@.len() == args.len()
        &&& forall|i: int| 0 <= i < args.len() ==> (#[trigger] self.args@[i])@ == args[i]
    }
}

/// The arguments of a program that takes a source after an option.
pub open spec fn source_args(option: Seq<char>, source: Seq<char>) -> Seq<Seq<char>> {
    seq![option, source]
}

/// The process that runs an AppleScript.
pub fn run_apple_script(src: &str) -> (process: Process)
    ensures
        process.runs("osascript"@, seq!["-e"@, src@]),
        process.runs("osascript"@, source_args("-e"@, src@)),
{
    let mut args: Vec<String> = Vec::new();
    args.push("-e".to_owned());
    args.push(src.to_owned());
    Process { program: "osascript".to_owned(), args }
}

/// The process that runs a shell command.
pub fn run_shell_command(cmd: &str) -> (process: Process)
    ensures
        process.runs("/bin/sh"@, seq!["-c"@, cmd@]),
        process.runs("/bin/sh"@, source_args("-c"@, cmd@)),
{
    let mut args: Vec<String> = Vec::new();
    args.push("-c".to_owned());
    args.push(cmd.to_owned());
    Process { program: "/bin/sh".to_owned(), args }
}

/// The process that puts the system to sleep. It works for the console user
/// without privileges.
pub fn sleep_system() -> (process: Process)
    ensures
        process.runs("/usr/bin/pmset"@, seq!["sleepnow"@]),
{
    let mut args: Vec<String> = Vec::new();
    args.push("sleepnow".to_owned());
    Process { program: "/usr/bin/pmset".to_owned(), args }
}

/// What one call of a script comes to.
pub open spec fn call_commands(call: ScriptCall) -> Seq<MacCommand> {
    match call {
        ScriptCall::TypeText(text) => seq![MacCommand::Text(text)],
        ScriptCall::PressCombo(combo) => chord_tap(combo),
        ScriptCall::Sleep { millis } => seq![MacCommand::Pause { millis }],
        ScriptCall::RunAppleScript(src) => seq![MacCommand::AppleScript(src)],
        ScriptCall::RunShellCommand(cmd) => seq![MacCommand::Shell(cmd)],
    }
}

/// Perform one call of a script.
pub fn run_call(call: &ScriptCall) -> (commands: Vec<MacCommand>)
    ensures
        commands@ == call_commands(*call),
{
    match call {
        ScriptCall::TypeText(text) => one_command(MacCommand::Text(text.clone())),
        ScriptCall::PressCombo(combo) => press_combo(combo),
        ScriptCall::Sleep { millis } => one_command(MacCommand::Pause { millis: *millis }),
        ScriptCall::RunAppleScript(src) => one_command(MacCommand::AppleScript(src.clone())),
        ScriptCall::RunShellCommand(cmd) => one_command(MacCommand::Shell(cmd.clone())),
    }
}

/// What an effect comes to, and where it runs.
#[derive(Debug, PartialEq, Eq)]
pub enum MacPlan {
    /// On the caller's thread, in this order.
    Commands(Vec<MacCommand>),
    /// On a worker thread, one call after the other; see [`run_call`].
    Script(Vec<ScriptCall>),
}

/// What each effect comes to, a script apart, whose calls are not made on the
/// caller's thread.
pub open spec fn effect_commands(effect: Effect) -> Seq<MacCommand> {
    match effect {
        Effect::Suppressed => seq![],
        Effect::Click(button) => seq![MacCommand::Click(button_click(button))],
        Effect::Shortcut(shortcut) => chord_tap(shortcut_chord(shortcut)),
        Effect::Key(combo) => chord_tap(combo),
        Effect::HeldKey(combo) => chord_tap(combo),
        Effect::Scroll { dx, dy } => seq![MacCommand::Wheel { dx, dy }],
        Effect::Media(key) => seq![
            MacCommand::Media(
                MediaTap {
                    down: media_event(media_key_type(key), NX_KEY_DOWN),
                    up: media_event(media_key_type(key), NX_KEY_UP),
                },
            ),
        ],
        Effect::Native(native) => native_commands(native),
        Effect::Script(_) => seq![],
        Effect::Text(text) => seq![MacCommand::Text(text)],
        Effect::AgentSide => seq![MacCommand::AgentSide],
    }
}

/// Dispatch an effect to the commands that perform it. Only scripts run off the
/// caller's thread.
pub fn execute(effect: &Effect) -> (plan: MacPlan)
    ensures
        match *effect {
            Effect::Script(script) => plan matches MacPlan::Script(calls) && calls@
                == script_calls(script),
            _ => plan matches MacPlan::Commands(commands) && commands@ == effect_commands(*effect),
        },
{
    let commands = match effect {
        Effect::Suppressed => Vec::new(),
        // Remapping a different button to a click lands here. A button left on
        // its own native click never does: the hook passes it through.
        Effect::Click(button) => one_command(MacCommand::Click(dispatch_click(*button))),
        Effect::Shortcut(shortcut) => press_combo(&combo(*shortcut)),
        Effect::Key(combo) => press_combo(combo),
        Effect::HeldKey(combo) => press_combo(combo),
        Effect::Scroll { dx, dy } => one_command(MacCommand::Wheel { dx: *dx, dy: *dy }),
        // Media and volume controls are system-defined keys, not ordinary
        // virtual keys, which the volume handler ignores.
        Effect::Media(key) => one_command(MacCommand::Media(media_tap(nx_key(*key)))),
        Effect::Native(native) => dispatch_native(*native),
        Effect::Script(script) => {
            return MacPlan::Script(dispatch_script(script));
        },
        Effect::Text(text) => one_command(MacCommand::Text(text.clone())),
        Effect::AgentSide => one_command(MacCommand::AgentSide),
    };
    assert(commands@ =~= effect_commands(*effect));
    MacPlan::Commands(commands)
}

/// The first data word of a media event is its key type in the high word and
/// its state in the next byte, for every key type that fits the word.
pub proof fn law_media_data_fields(nx_key: i32, state: i32)
    requires
        0 <= nx_key < 0x8000,
        state == NX_KEY_DOWN || state == NX_KEY_UP,
    ensures
        media_event(nx_key, state).data1 == nx_key * 0x1_0000 + state * 0x100,
{
}

/// The key type of every media key fits the data word.
pub proof fn law_media_key_types_fit(key: MediaKey)
    ensures
        0 <= media_key_type(key) < 0x8000,
{
}

/// Both mouse events of a click carry the synthetic mark.
pub proof fn law_clicks_are_marked(button: MouseButton)
    ensures
        button_click(button).down.user_data == SYNTHETIC_EVENT_USER_DATA,
        button_click(button).up.user_data == SYNTHETIC_EVENT_USER_DATA,
{
}

} // verus!
