//! USB HID keyboard usages as the virtual keys of each platform.

use vstd::prelude::*;

verus! {

/// The macOS virtual key (`kVK_*`) of a keyboard usage, for the keys that have
/// one.
pub open spec fn macos_key(usage: u8) -> Option<u16> {
    match usage {
        0x04 => Some(0x00u16),  // A
        0x05 => Some(0x0bu16),  // B
        0x06 => Some(0x08u16),  // C
        0x07 => Some(0x02u16),  // D
        0x08 => Some(0x0eu16),  // E
        0x09 => Some(0x03u16),  // F
        0x0a => Some(0x05u16),  // G
        0x0b => Some(0x04u16),  // H
        0x0c => Some(0x22u16),  // I
        0x0d => Some(0x26u16),  // J
        0x0e => Some(0x28u16),  // K
        0x0f => Some(0x25u16),  // L
        0x10 => Some(0x2eu16),  // M
        0x11 => Some(0x2du16),  // N
        0x12 => Some(0x1fu16),  // O
        0x13 => Some(0x23u16),  // P
        0x14 => Some(0x0cu16),  // Q
        0x15 => Some(0x0fu16),  // R
        0x16 => Some(0x01u16),  // S
        0x17 => Some(0x11u16),  // T
        0x18 => Some(0x20u16),  // U
        0x19 => Some(0x09u16),  // V
        0x1a => Some(0x0du16),  // W
        0x1b => Some(0x07u16),  // X
        0x1c => Some(0x10u16),  // Y
        0x1d => Some(0x06u16),  // Z
        0x1e => Some(0x12u16),  // 1
        0x1f => Some(0x13u16),  // 2
        0x20 => Some(0x14u16),  // 3
        0x21 => Some(0x15u16),  // 4
        0x22 => Some(0x17u16),  // 5
        0x23 => Some(0x16u16),  // 6
        0x24 => Some(0x1au16),  // 7
        0x25 => Some(0x1cu16),  // 8
        0x26 => Some(0x19u16),  // 9
        0x27 => Some(0x1du16),  // 0
        0x28 => Some(0x24u16),  // Return
        0x29 => Some(0x35u16),  // Escape
        0x2a => Some(0x33u16),  // Backspace
        0x2b => Some(0x30u16),  // Tab
        0x2c => Some(0x31u16),  // Space
        0x2d => Some(0x1bu16),  // -
        0x2e => Some(0x18u16),  // =
        0x2f => Some(0x21u16),  // [
        0x30 => Some(0x1eu16),  // ]
        0x31 => Some(0x2au16),  // \
        0x33 => Some(0x29u16),  // ;
        0x34 => Some(0x27u16),  // '
        0x35 => Some(0x32u16),  // `
        0x36 => Some(0x2bu16),  // ,
        0x37 => Some(0x2fu16),  // .
        0x38 => Some(0x2cu16),  // /
        0x3a => Some(0x7au16),  // F1
        0x3b => Some(0x78u16),  // F2
        0x3c => Some(0x63u16),  // F3
        0x3d => Some(0x76u16),  // F4
        0x3e => Some(0x60u16),  // F5
        0x3f => Some(0x61u16),  // F6
        0x40 => Some(0x62u16),  // F7
        0x41 => Some(0x64u16),  // F8
        0x42 => Some(0x65u16),  // F9
        0x43 => Some(0x6du16),  // F10
        0x44 => Some(0x67u16),  // F11
        0x45 => Some(0x6fu16),  // F12
        0x4a => Some(0x73u16),  // Home
        0x4b => Some(0x74u16),  // Page Up
        0x4c => Some(0x75u16),  // Forward Delete
        0x4d => Some(0x77u16),  // End
        0x4e => Some(0x79u16),  // Page Down
        0x4f => Some(0x7cu16),  // Right
        0x50 => Some(0x7bu16),  // Left
        0x51 => Some(0x7du16),  // Down
        0x52 => Some(0x7eu16),  // Up
        0x68 => Some(0x69u16),  // F13
        0x69 => Some(0x6bu16),  // F14
        0x6a => Some(0x71u16),  // F15
        0x6b => Some(0x6au16),  // F16
        0x6c => Some(0x40u16),  // F17
        0x6d => Some(0x4fu16),  // F18
        0x6e => Some(0x50u16),  // F19
        0x6f => Some(0x5au16),  // F20
        _ => None,
    }
}

/// The Win32 virtual key (`VK_*`) of a keyboard usage, for the keys that have
/// one.
pub open spec fn windows_key(usage: u8) -> Option<u16> {
    match usage {
        0x04 => Some(0x41u16),  // A
        0x05 => Some(0x42u16),  // B
        0x06 => Some(0x43u16),  // C
        0x07 => Some(0x44u16),  // D
        0x08 => Some(0x45u16),  // E
        0x09 => Some(0x46u16),  // F
        0x0a => Some(0x47u16),  // G
        0x0b => Some(0x48u16),  // H
        0x0c => Some(0x49u16),  // I
        0x0d => Some(0x4au16),  // J
        0x0e => Some(0x4bu16),  // K
        0x0f => Some(0x4cu16),  // L
        0x10 => Some(0x4du16),  // M
        0x11 => Some(0x4eu16),  // N
        0x12 => Some(0x4fu16),  // O
        0x13 => Some(0x50u16),  // P
        0x14 => Some(0x51u16),  // Q
        0x15 => Some(0x52u16),  // R
        0x16 => Some(0x53u16),  // S
        0x17 => Some(0x54u16),  // T
        0x18 => Some(0x55u16),  // U
        0x19 => Some(0x56u16),  // V
        0x1a => Some(0x57u16),  // W
        0x1b => Some(0x58u16),  // X
        0x1c => Some(0x59u16),  // Y
        0x1d => Some(0x5au16),  // Z
        0x1e => Some(0x31u16),  // 1
        0x1f => Some(0x32u16),  // 2
        0x20 => Some(0x33u16),  // 3
        0x21 => Some(0x34u16),  // 4
        0x22 => Some(0x35u16),  // 5
        0x23 => Some(0x36u16),  // 6
        0x24 => Some(0x37u16),  // 7
        0x25 => Some(0x38u16),  // 8
        0x26 => Some(0x39u16),  // 9
        0x27 => Some(0x30u16),  // 0
        0x28 => Some(0x0du16),  // Return
        0x29 => Some(0x1bu16),  // Escape
        0x2a => Some(0x08u16),  // Backspace
        0x2b => Some(0x09u16),  // Tab
        0x2c => Some(0x20u16),  // Space
        0x2d => Some(0xbdu16),  // -
        0x2e => Some(0xbbu16),  // =
        0x2f => Some(0xdbu16),  // [
        0x30 => Some(0xddu16),  // ]
        0x31 => Some(0xdcu16),  // \
        0x33 => Some(0xbau16),  // ;
        0x34 => Some(0xdeu16),  // '
        0x35 => Some(0xc0u16),  // `
        0x36 => Some(0xbcu16),  // ,
        0x37 => Some(0xbeu16),  // .
        0x38 => Some(0xbfu16),  // /
        0x3a => Some(0x70u16),  // F1
        0x3b => Some(0x71u16),  // F2
        0x3c => Some(0x72u16),  // F3
        0x3d => Some(0x73u16),  // F4
        0x3e => Some(0x74u16),  // F5
        0x3f => Some(0x75u16),  // F6
        0x40 => Some(0x76u16),  // F7
        0x41 => Some(0x77u16),  // F8
        0x42 => Some(0x78u16),  // F9
        0x43 => Some(0x79u16),  // F10
        0x44 => Some(0x7au16),  // F11
        0x45 => Some(0x7bu16),  // F12
        0x4a => Some(0x24u16),  // Home
        0x4b => Some(0x21u16),  // Page Up
        0x4c => Some(0x2eu16),  // Forward Delete
        0x4d => Some(0x23u16),  // End
        0x4e => Some(0x22u16),  // Page Down
        0x4f => Some(0x27u16),  // Right
        0x50 => Some(0x25u16),  // Left
        0x51 => Some(0x28u16),  // Down
        0x52 => Some(0x26u16),  // Up
        0x68 => Some(0x7cu16),  // F13
        0x69 => Some(0x7du16),  // F14
        0x6a => Some(0x7eu16),  // F15
        0x6b => Some(0x7fu16),  // F16
        0x6c => Some(0x80u16),  // F17
        0x6d => Some(0x81u16),  // F18
        0x6e => Some(0x82u16),  // F19
        0x6f => Some(0x83u16),  // F20
        _ => None,
    }
}

/// A key of the programmable row: Escape and F1 to F19.
#[derive(Clone, Copy, Debug, PartialEq, Eq, Structural)]
pub enum FunctionKey {
    Esc,
    F1,
    F2,
    F3,
    F4,
    F5,
    F6,
    F7,
    F8,
    F9,
    F10,
    F11,
    F12,
    F13,
    F14,
    F15,
    F16,
    F17,
    F18,
    F19,
}

impl FunctionKey {
    /// The `n`-th F key, counted from one.
    pub open spec fn spec_nth_f(n: u16) -> Option<FunctionKey> {
        match n {
            1 => Some(FunctionKey::F1),
            2 => Some(FunctionKey::F2),
            3 => Some(FunctionKey::F3),
            4 => Some(FunctionKey::F4),
            5 => Some(FunctionKey::F5),
            6 => Some(FunctionKey::F6),
            7 => Some(FunctionKey::F7),
            8 => Some(FunctionKey::F8),
            9 => Some(FunctionKey::F9),
            10 => Some(FunctionKey::F10),
            11 => Some(FunctionKey::F11),
            12 => Some(FunctionKey::F12),
            13 => Some(FunctionKey::F13),
            14 => Some(FunctionKey::F14),
            15 => Some(FunctionKey::F15),
            16 => Some(FunctionKey::F16),
            17 => Some(FunctionKey::F17),
            18 => Some(FunctionKey::F18),
            19 => Some(FunctionKey::F19),
            _ => None,
        }
    }

    /// The `n`-th F key, counted from one.
    pub fn nth_f(n: u16) -> (key: Option<FunctionKey>)
        ensures
            key == Self::spec_nth_f(n),
    {
        match n {
            1 => Some(FunctionKey::F1),
            2 => Some(FunctionKey::F2),
            3 => Some(FunctionKey::F3),
            4 => Some(FunctionKey::F4),
            5 => Some(FunctionKey::F5),
            6 => Some(FunctionKey::F6),
            7 => Some(FunctionKey::F7),
            8 => Some(FunctionKey::F8),
            9 => Some(FunctionKey::F9),
            10 => Some(FunctionKey::F10),
            11 => Some(FunctionKey::F11),
            12 => Some(FunctionKey::F12),
            13 => Some(FunctionKey::F13),
            14 => Some(FunctionKey::F14),
            15 => Some(FunctionKey::F15),
            16 => Some(FunctionKey::F16),
            17 => Some(FunctionKey::F17),
            18 => Some(FunctionKey::F18),
            19 => Some(FunctionKey::F19),
            _ => None,
        }
    }

    pub open spec fn spec_keycode(self) -> u16 {
        match self {
            FunctionKey::Esc => 0x35,
            FunctionKey::F1 => 0x7a,
            FunctionKey::F2 => 0x78,
            FunctionKey::F3 => 0x63,
            FunctionKey::F4 => 0x76,
            FunctionKey::F5 => 0x60,
            FunctionKey::F6 => 0x61,
            FunctionKey::F7 => 0x62,
            FunctionKey::F8 => 0x64,
            FunctionKey::F9 => 0x65,
            FunctionKey::F10 => 0x6d,
            FunctionKey::F11 => 0x67,
            FunctionKey::F12 => 0x6f,
            FunctionKey::F13 => 0x69,
            FunctionKey::F14 => 0x6b,
            FunctionKey::F15 => 0x71,
            FunctionKey::F16 => 0x6a,
            FunctionKey::F17 => 0x40,
            FunctionKey::F18 => 0x4f,
            FunctionKey::F19 => 0x50,
        }
    }

    /// The macOS virtual key (`kVK_Escape`, `kVK_F1` to `kVK_F19`).
    pub fn keycode(self) -> (keycode: u16)
        ensures
            keycode == self.spec_keycode(),
    {
        match self {
            FunctionKey::Esc => 0x35,
            FunctionKey::F1 => 0x7a,
            FunctionKey::F2 => 0x78,
            FunctionKey::F3 => 0x63,
            FunctionKey::F4 => 0x76,
            FunctionKey::F5 => 0x60,
            FunctionKey::F6 => 0x61,
            FunctionKey::F7 => 0x62,
            FunctionKey::F8 => 0x64,
            FunctionKey::F9 => 0x65,
            FunctionKey::F10 => 0x6d,
            FunctionKey::F11 => 0x67,
            FunctionKey::F12 => 0x6f,
            FunctionKey::F13 => 0x69,
            FunctionKey::F14 => 0x6b,
            FunctionKey::F15 => 0x71,
            FunctionKey::F16 => 0x6a,
            FunctionKey::F17 => 0x40,
            FunctionKey::F18 => 0x4f,
            FunctionKey::F19 => 0x50,
        }
    }
}

fn function_keycode(n: u8) -> (keycode: Option<u16>)
    ensures
        keycode == match FunctionKey::spec_nth_f(n as u16) {
            Some(key) => Some(key.spec_keycode()),
            None => None,
        },
{
    match FunctionKey::nth_f(n as u16) {
        Some(key) => Some(key.keycode()),
        None => None,
    }
}

/// Map a platform-neutral USB HID keyboard usage to a macOS virtual key.
pub fn hid_usage_to_macos(usage: u8) -> (key: Option<u16>)
    ensures
        key == macos_key(usage),
{
    let letters: [u16; 26] = [
        0x00, 0x0b, 0x08, 0x02, 0x0e, 0x03, 0x05, 0x04, 0x22, 0x26, 0x28, 0x25, 0x2e,
        0x2d, 0x1f, 0x23, 0x0c, 0x0f, 0x01, 0x11, 0x20, 0x09, 0x0d, 0x07, 0x10, 0x06,
    ];
    let digits: [u16; 10] = [0x12, 0x13, 0x14, 0x15, 0x17, 0x16, 0x1a, 0x1c, 0x19, 0x1d];
    // `kVK_F20`, one past the programmable row that `FunctionKey` covers.
    let f20: u16 = 0x5a;
    match usage {
        0x04..=0x1d => Some(letters[(usage - 0x04) as usize]),
        0x1e..=0x27 => Some(digits[(usage - 0x1e) as usize]),
        0x3a..=0x45 => function_keycode(usage - 0x3a + 1),
        0x68..=0x6e => function_keycode(usage - 0x68 + 13),
        0x6f => Some(f20),
        0x29 => Some(FunctionKey::Esc.keycode()),
        0x28 => Some(0x24),
        0x2a => Some(0x33),
        0x2b => Some(0x30),
        0x2c => Some(0x31),
        0x2d => Some(0x1b),
        0x2e => Some(0x18),
        0x2f => Some(0x21),
        0x30 => Some(0x1e),
        0x31 => Some(0x2a),
        0x33 => Some(0x29),
        0x34 => Some(0x27),
        0x35 => Some(0x32),
        0x36 => Some(0x2b),
        0x37 => Some(0x2f),
        0x38 => Some(0x2c),
        0x4a => Some(0x73),
        0x4b => Some(0x74),
        0x4c => Some(0x75),
        0x4d => Some(0x77),
        0x4e => Some(0x79),
        0x4f => Some(0x7c),
        0x50 => Some(0x7b),
        0x51 => Some(0x7d),
        0x52 => Some(0x7e),
        _ => None,
    }
}

/// Map a platform-neutral USB HID keyboard usage to a Win32 virtual key.
pub fn hid_usage_to_windows(usage: u8) -> (key: Option<u16>)
    ensures
        key == windows_key(usage),
{
    match usage {
        // The letters, the digits and the F keys are runs on both sides.
        0x04..=0x1d => Some(0x41 + (usage - 0x04) as u16),
        0x1e..=0x26 => Some(0x31 + (usage - 0x1e) as u16),
        0x27 => Some(0x30),
        0x3a..=0x45 => Some(0x70 + (usage - 0x3a) as u16),
        0x68..=0x6f => Some(0x7c + (usage - 0x68) as u16),
        0x28 => Some(0x0d),
        0x29 => Some(0x1b),
        0x2a => Some(0x08),
        0x2b => Some(0x09),
        0x2c => Some(0x20),
        0x2d => Some(0xbd),
        0x2e => Some(0xbb),
        0x2f => Some(0xdb),
        0x30 => Some(0xdd),
        0x31 => Some(0xdc),
        0x33 => Some(0xba),
        0x34 => Some(0xde),
        0x35 => Some(0xc0),
        0x36 => Some(0xbc),
        0x37 => Some(0xbe),
        0x38 => Some(0xbf),
        0x4a => Some(0x24),
        0x4b => Some(0x21),
        0x4c => Some(0x2e),
        0x4d => Some(0x23),
        0x4e => Some(0x22),
        0x4f => Some(0x27),
        0x50 => Some(0x25),
        0x51 => Some(0x28),
        0x52 => Some(0x26),
        _ => None,
    }
}

/// No two usages share a macOS virtual key.
pub proof fn law_macos_keys_distinct(a: u8, b: u8)
    requires
        macos_key(a) is Some,
        macos_key(a) == macos_key(b),
    ensures
        a == b,
{
}

/// No two usages share a Win32 virtual key.
pub proof fn law_windows_keys_distinct(a: u8, b: u8)
    requires
        windows_key(a) is Some,
        windows_key(a) == windows_key(b),
    ensures
        a == b,
{
}

/// macOS and Windows have a virtual key for exactly the same usages.
pub proof fn law_same_usages_supported(usage: u8)
    ensures
        macos_key(usage) is Some <==> windows_key(usage) is Some,
{
}

/// The ASCII code of what a usage types on the US layout, letters as capitals;
/// none for a key that types nothing.
pub open spec fn usage_types(usage: u8) -> Option<int> {
    if 0x04 <= usage <= 0x1d {
        Some('A' as int + (usage - 0x04))
    } else if 0x1e <= usage <= 0x26 {
        Some('1' as int + (usage - 0x1e))
    } else if usage == 0x27 {
        Some('0' as int)
    } else {
        match usage {
            0x2c => Some(0x20int),  // Space
            0x2d => Some(0x2dint),  // -
            0x2e => Some(0x3dint),  // =
            0x2f => Some(0x5bint),  // [
            0x30 => Some(0x5dint),  // ]
            0x31 => Some(0x5cint),  // \
            0x33 => Some(0x3bint),  // ;
            0x34 => Some(0x27int),  // '
            0x35 => Some(0x60int),  // `
            0x36 => Some(0x2cint),  // ,
            0x37 => Some(0x2eint),  // .
            0x38 => Some(0x2fint),  // /
            _ => None,
        }
    }
}

/// The ASCII code of what a macOS virtual key types on the US layout, letters
/// as capitals, in the order of the virtual keys; zero for any other key.
pub open spec fn macos_types(vk: u16) -> int {
    match vk {
        0x00 => 0x41,  // A
        0x01 => 0x53,  // S
        0x02 => 0x44,  // D
        0x03 => 0x46,  // F
        0x04 => 0x48,  // H
        0x05 => 0x47,  // G
        0x06 => 0x5a,  // Z
        0x07 => 0x58,  // X
        0x08 => 0x43,  // C
        0x09 => 0x56,  // V
        0x0b => 0x42,  // B
        0x0c => 0x51,  // Q
        0x0d => 0x57,  // W
        0x0e => 0x45,  // E
        0x0f => 0x52,  // R
        0x10 => 0x59,  // Y
        0x11 => 0x54,  // T
        0x12 => 0x31,  // 1
        0x13 => 0x32,  // 2
        0x14 => 0x33,  // 3
        0x15 => 0x34,  // 4
        0x16 => 0x36,  // 6
        0x17 => 0x35,  // 5
        0x18 => 0x3d,  // =
        0x19 => 0x39,  // 9
        0x1a => 0x37,  // 7
        0x1b => 0x2d,  // -
        0x1c => 0x38,  // 8
        0x1d => 0x30,  // 0
        0x1e => 0x5d,  // ]
        0x1f => 0x4f,  // O
        0x20 => 0x55,  // U
        0x21 => 0x5b,  // [
        0x22 => 0x49,  // I
        0x23 => 0x50,  // P
        0x25 => 0x4c,  // L
        0x26 => 0x4a,  // J
        0x27 => 0x27,  // '
        0x28 => 0x4b,  // K
        0x29 => 0x3b,  // ;
        0x2a => 0x5c,  // \
        0x2b => 0x2c,  // ,
        0x2c => 0x2f,  // /
        0x2d => 0x4e,  // N
        0x2e => 0x4d,  // M
        0x2f => 0x2e,  // .
        0x31 => 0x20,  // Space
        0x32 => 0x60,  // `
        _ => 0,
    }
}

/// The ASCII code of what a Win32 virtual key types on the US layout: its own
/// number for a capital letter, a digit or the space, and the `VK_OEM_*` keys
/// in order; zero for any other key.
pub open spec fn windows_types(vk: u16) -> int {
    if 0x41 <= vk <= 0x5a || 0x30 <= vk <= 0x39 || vk == 0x20 {
        vk as int
    } else {
        match vk {
            0xba => 0x3b,  // ;
            0xbb => 0x3d,  // =
            0xbc => 0x2c,  // ,
            0xbd => 0x2d,  // -
            0xbe => 0x2e,  // .
            0xbf => 0x2f,  // /
            0xc0 => 0x60,  // `
            0xdb => 0x5b,  // [
            0xdc => 0x5c,  // \
            0xdd => 0x5d,  // ]
            0xde => 0x27,  // '
            _ => 0,
        }
    }
}

/// A usage that types a character is mapped, on either platform, to the key
/// that types the same character.
pub proof fn law_mapped_keys_type_the_same(usage: u8)
    requires
        usage_types(usage) is Some,
    ensures
        macos_key(usage) is Some && macos_types(macos_key(usage).unwrap()) == usage_types(
            usage,
        ).unwrap(),
        windows_key(usage) is Some && windows_types(windows_key(usage).unwrap()) == usage_types(
            usage,
        ).unwrap(),
{
}

/// On Windows the letters, the digits and the F keys are runs: a step from one
/// usage to the next is a step from one virtual key to the next.
pub proof fn law_windows_runs(usage: u8)
    ensures
        0x04 <= usage <= 0x1d ==> windows_key(usage) == Some(('A' as int + (usage - 0x04)) as u16),
        0x1e <= usage <= 0x26 ==> windows_key(usage) == Some(('1' as int + (usage - 0x1e)) as u16),
        usage == 0x27 ==> windows_key(usage) == Some('0' as u16),
        0x3a <= usage <= 0x45 ==> windows_key(usage) == Some((0x70 + (usage - 0x3a)) as u16),
        0x68 <= usage <= 0x6f ==> windows_key(usage) == Some((0x7c + (usage - 0x68)) as u16),
{
}

/// Each key that types nothing is reached from its own usage and from no other.
pub proof fn law_named_keys_have_their_usage(usage: u8)
    ensures
        // Return
        macos_key(usage) == Some(0x24u16) <==> usage == 0x28,
        windows_key(usage) == Some(0x0du16) <==> usage == 0x28,
        // Escape
        macos_key(usage) == Some(0x35u16) <==> usage == 0x29,
        windows_key(usage) == Some(0x1bu16) <==> usage == 0x29,
        // Backspace
        macos_key(usage) == Some(0x33u16) <==> usage == 0x2a,
        windows_key(usage) == Some(0x08u16) <==> usage == 0x2a,
        // Tab
        macos_key(usage) == Some(0x30u16) <==> usage == 0x2b,
        windows_key(usage) == Some(0x09u16) <==> usage == 0x2b,
        // Home
        macos_key(usage) == Some(0x73u16) <==> usage == 0x4a,
        windows_key(usage) == Some(0x24u16) <==> usage == 0x4a,
        // Page Up
        macos_key(usage) == Some(0x74u16) <==> usage == 0x4b,
        windows_key(usage) == Some(0x21u16) <==> usage == 0x4b,
        // Forward Delete
        macos_key(usage) == Some(0x75u16) <==> usage == 0x4c,
        windows_key(usage) == Some(0x2eu16) <==> usage == 0x4c,
        // End
        macos_key(usage) == Some(0x77u16) <==> usage == 0x4d,
        windows_key(usage) == Some(0x23u16) <==> usage == 0x4d,
        // Page Down
        macos_key(usage) == Some(0x79u16) <==> usage == 0x4e,
        windows_key(usage) == Some(0x22u16) <==> usage == 0x4e,
        // Right
        macos_key(usage) == Some(0x7cu16) <==> usage == 0x4f,
        windows_key(usage) == Some(0x27u16) <==> usage == 0x4f,
        // Left
        macos_key(usage) == Some(0x7bu16) <==> usage == 0x50,
        windows_key(usage) == Some(0x25u16) <==> usage == 0x50,
        // Down
        macos_key(usage) == Some(0x7du16) <==> usage == 0x51,
        windows_key(usage) == Some(0x28u16) <==> usage == 0x51,
        // Up
        macos_key(usage) == Some(0x7eu16) <==> usage == 0x52,
        windows_key(usage) == Some(0x26u16) <==> usage == 0x52,
{
}

/// Each F key of macOS is reached from its own usage and from no other.
pub proof fn law_macos_f_keys_have_their_usage(usage: u8)
    ensures
        macos_key(usage) == Some(0x7au16) <==> usage == 0x3a,  // F1
        macos_key(usage) == Some(0x78u16) <==> usage == 0x3b,  // F2
        macos_key(usage) == Some(0x63u16) <==> usage == 0x3c,  // F3
        macos_key(usage) == Some(0x76u16) <==> usage == 0x3d,  // F4
        macos_key(usage) == Some(0x60u16) <==> usage == 0x3e,  // F5
        macos_key(usage) == Some(0x61u16) <==> usage == 0x3f,  // F6
        macos_key(usage) == Some(0x62u16) <==> usage == 0x40,  // F7
        macos_key(usage) == Some(0x64u16) <==> usage == 0x41,  // F8
        macos_key(usage) == Some(0x65u16) <==> usage == 0x42,  // F9
        macos_key(usage) == Some(0x6du16) <==> usage == 0x43,  // F10
        macos_key(usage) == Some(0x67u16) <==> usage == 0x44,  // F11
        macos_key(usage) == Some(0x6fu16) <==> usage == 0x45,  // F12
        macos_key(usage) == Some(0x69u16) <==> usage == 0x68,  // F13
        macos_key(usage) == Some(0x6bu16) <==> usage == 0x69,  // F14
        macos_key(usage) == Some(0x71u16) <==> usage == 0x6a,  // F15
        macos_key(usage) == Some(0x6au16) <==> usage == 0x6b,  // F16
        macos_key(usage) == Some(0x40u16) <==> usage == 0x6c,  // F17
        macos_key(usage) == Some(0x4fu16) <==> usage == 0x6d,  // F18
        macos_key(usage) == Some(0x50u16) <==> usage == 0x6e,  // F19
        macos_key(usage) == Some(0x5au16) <==> usage == 0x6f,  // F20
{
}

/// The usages that have a virtual key: all from A to `/` but the non-US `#`,
/// the F keys, and the keys from Home to Up.
pub proof fn law_supported_usages(usage: u8)
    ensures
        macos_key(usage) is Some <==> (0x04 <= usage <= 0x38 && usage != 0x32) || 0x3a <= usage
            <= 0x45 || 0x4a <= usage <= 0x52 || 0x68 <= usage <= 0x6f,
        windows_key(usage) is Some <==> (0x04 <= usage <= 0x38 && usage != 0x32) || 0x3a <= usage
            <= 0x45 || 0x4a <= usage <= 0x52 || 0x68 <= usage <= 0x6f,
{
}

/// The programmable row counts its F keys from one to nineteen, and gives each
/// the virtual key that its usage has.
pub proof fn law_function_keys_agree_with_usages(n: u16)
    ensures
        FunctionKey::spec_nth_f(n) is Some <==> 1 <= n <= 19,
        1 <= n <= 12 ==> macos_key((0x39 + n) as u8) == Some(
            FunctionKey::spec_nth_f(n).unwrap().spec_keycode(),
        ),
        13 <= n <= 19 ==> macos_key((0x5b + n) as u8) == Some(
            FunctionKey::spec_nth_f(n).unwrap().spec_keycode(),
        ),
        macos_key(0x29) == Some(FunctionKey::Esc.spec_keycode()),
{
}

/// No two F keys share a number or a virtual key, and none is Escape's.
pub proof fn law_function_keys_distinct(a: FunctionKey, b: FunctionKey, n: u16)
    ensures
        a.spec_keycode() == b.spec_keycode() ==> a == b,
        FunctionKey::spec_nth_f(n) != Some(FunctionKey::Esc),
{
}

/// The place of a key in the row.
pub open spec fn row_place(key: FunctionKey) -> u16 {
    match key {
        FunctionKey::Esc => 0,
        FunctionKey::F1 => 1,
        FunctionKey::F2 => 2,
        FunctionKey::F3 => 3,
        FunctionKey::F4 => 4,
        FunctionKey::F5 => 5,
        FunctionKey::F6 => 6,
        FunctionKey::F7 => 7,
        FunctionKey::F8 => 8,
        FunctionKey::F9 => 9,
        FunctionKey::F10 => 10,
        FunctionKey::F11 => 11,
        FunctionKey::F12 => 12,
        FunctionKey::F13 => 13,
        FunctionKey::F14 => 14,
        FunctionKey::F15 => 15,
        FunctionKey::F16 => 16,
        FunctionKey::F17 => 17,
        FunctionKey::F18 => 18,
        FunctionKey::F19 => 19,
    }
}

/// Counting to an F key's place finds that key.
pub proof fn law_nth_f_finds_its_place(key: FunctionKey)
    requires
        !(key is Esc),
    ensures
        FunctionKey::spec_nth_f(row_place(key)) == Some(key),
{
}

} // verus!
