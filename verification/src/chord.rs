//! The text form of a chord, as in `Cmd+Shift+Z`.

use vstd::prelude::*;

use crate::binding::{KeyCombo, KeyboardUsage};

verus! {

/// The key a name stands for: a letter `A` to `Z`, `[`, `]` or `Tab`.
pub open spec fn named_key(name: Seq<char>) -> Option<KeyboardUsage> {
    if name.len() == 1 && 'A' <= name[0] <= 'Z' {
        Some(KeyboardUsage { code: (0x04 + (name[0] as int - 'A' as int)) as u8 })
    } else if name == "["@ {
        Some(KeyboardUsage { code: 0x2f })
    } else if name == "]"@ {
        Some(KeyboardUsage { code: 0x30 })
    } else if name == "Tab"@ {
        Some(KeyboardUsage { code: 0x2b })
    } else {
        None
    }
}

/// The chord a text stands for: any of `Cmd+`, `Ctrl+`, `Shift+` and `Alt+`,
/// and after them the name of a key.
pub open spec fn chord(text: Seq<char>) -> Option<KeyCombo>
    decreases text.len(),
    via chord_shrinks
{
    if "Cmd+"@.is_prefix_of(text) {
        match chord(text.skip("Cmd+"@.len() as int)) {
            Some(combo) => Some(KeyCombo { command: true, ..combo }),
            None => None,
        }
    } else if "Ctrl+"@.is_prefix_of(text) {
        match chord(text.skip("Ctrl+"@.len() as int)) {
            Some(combo) => Some(KeyCombo { control: true, ..combo }),
            None => None,
        }
    } else if "Shift+"@.is_prefix_of(text) {
        match chord(text.skip("Shift+"@.len() as int)) {
            Some(combo) => Some(KeyCombo { shift: true, ..combo }),
            None => None,
        }
    } else if "Alt+"@.is_prefix_of(text) {
        match chord(text.skip("Alt+"@.len() as int)) {
            Some(combo) => Some(KeyCombo { option: true, ..combo }),
            None => None,
        }
    } else {
        match named_key(text) {
            Some(key) => Some(
                KeyCombo { command: false, control: false, shift: false, option: false, key },
            ),
            None => None,
        }
    }
}

#[via_fn]
proof fn chord_shrinks(text: Seq<char>) {
    reveal_strlit("Cmd+");
    reveal_strlit("Ctrl+");
    reveal_strlit("Shift+");
    reveal_strlit("Alt+");
}

/// The characters of a text.
pub(crate) fn chars_of(text: &str) -> (chars: Vec<char>)
    ensures
        chars@ == text@,
{
    let mut chars: Vec<char> = Vec::new();
    for c in it: text.chars()
        invariant
            chars@ == text@.take(it.index()),
            it.seq() == text@,
    {
        chars.push(c);
    }
    chars
}

/// Whether `word` stands at `at`.
fn stands_at(chars: &Vec<char>, at: usize, word: &str) -> (stands: bool)
    requires
        at <= chars@.len(),
    ensures
        stands == word@.is_prefix_of(chars@.skip(at as int)),
{
    let word_chars = chars_of(word);
    let len: usize = chars.len();
    if len - at < word_chars.len() {
        return false;
    }
    let mut i: usize = 0;
    while i < word_chars.len()
        invariant
            i <= word_chars@.len(),
            word_chars@ == word@,
            at + word_chars@.len() <= chars@.len() == len,
            forall|j: int| 0 <= j < i ==> #[trigger] word@[j] == chars@.skip(at as int)[j],
        decreases word_chars@.len() - i,
    {
        if chars[at + i] != word_chars[i] {
            assert(chars@.skip(at as int)[i as int] != word@[i as int]);
            assert(chars@.skip(at as int).take(word@.len() as int)[i as int] != word@[i as int]);
            return false;
        }
        i = i + 1;
    }
    assert(chars@.skip(at as int).take(word@.len() as int) =~= word@);
    true
}

/// The key whose name is all that stands from `at` on.
fn parse_key(chars: &Vec<char>, at: usize) -> (key: Option<KeyboardUsage>)
    requires
        at <= chars@.len(),
    ensures
        key == named_key(chars@.skip(at as int)),
{
    proof {
        reveal_strlit("[");
        reveal_strlit("]");
        reveal_strlit("Tab");
    }
    let ghost name = chars@.skip(at as int);
    let len: usize = chars.len() - at;
    if len == 1 {
        let c: char = chars[at];
        if 'A' <= c && c <= 'Z' {
            return Some(KeyboardUsage { code: 0x04 + (c as u8 - 'A' as u8) });
        }
        if c == '[' {
            assert(name =~= "["@);
            return Some(KeyboardUsage { code: 0x2f });
        }
        if c == ']' {
            assert(name =~= "]"@);
            return Some(KeyboardUsage { code: 0x30 });
        }
        None
    } else if len == 3 && stands_at(chars, at, "Tab") {
        assert(name.take(3) =~= name);
        Some(KeyboardUsage { code: 0x2b })
    } else {
        assert(name == "Tab"@ ==> name.take(3) =~= name);
        None
    }
}

/// Read a chord from its text form.
pub fn parse_chord(text: &str) -> (combo: Option<KeyCombo>)
    ensures
        combo == chord(text@),
{
    proof {
        reveal_strlit("Cmd+");
        reveal_strlit("Ctrl+");
        reveal_strlit("Shift+");
        reveal_strlit("Alt+");
    }
    let chars = chars_of(text);
    let mut command: bool = false;
    let mut control: bool = false;
    let mut shift: bool = false;
    let mut option: bool = false;
    let len: usize = chars.len();
    let mut at: usize = 0;
    let mut modifiers: bool = true;
    assert(chars@.skip(0) =~= chars@);
    while modifiers
        invariant
            at <= chars@.len() == len,
            chars@ == text@,
            "Cmd+"@.len() == 4,
            "Ctrl+"@.len() == 5,
            "Shift+"@.len() == 6,
            "Alt+"@.len() == 4,
            chord(text@) == match chord(chars@.skip(at as int)) {
                Some(combo) => Some(
                    KeyCombo {
                        command: combo.command || command,
                        control: combo.control || control,
                        shift: combo.shift || shift,
                        option: combo.option || option,
                        key: combo.key,
                    },
                ),
                None => None,
            },
            !modifiers ==> chord(chars@.skip(at as int)) == match named_key(
                chars@.skip(at as int),
            ) {
                Some(key) => Some(
                    KeyCombo { command: false, control: false, shift: false, option: false, key },
                ),
                None => None,
            },
        decreases chars@.len() - at, (if modifiers { 1int } else { 0int }),
    {
        let ghost rest = chars@.skip(at as int);
        if stands_at(&chars, at, "Cmd+") {
            assert(at + 4 <= len);
            assert(rest.skip(4) =~= chars@.skip(at + 4));
            command = true;
            at = at + 4;
        } else if stands_at(&chars, at, "Ctrl+") {
            assert(at + 5 <= len);
            assert(rest.skip(5) =~= chars@.skip(at + 5));
            control = true;
            at = at + 5;
        } else if stands_at(&chars, at, "Shift+") {
            assert(at + 6 <= len);
            assert(rest.skip(6) =~= chars@.skip(at + 6));
            shift = true;
            at = at + 6;
        } else if stands_at(&chars, at, "Alt+") {
            assert(at + 4 <= len);
            assert(rest.skip(4) =~= chars@.skip(at + 4));
            option = true;
            at = at + 4;
        } else {
            modifiers = false;
        }
    }
    match parse_key(&chars, at) {
        Some(key) => Some(KeyCombo { command, control, shift, option, key }),
        None => None,
    }
}

/// A shortcut-table entry, parsed into the chord it names. The tables are
/// hand-written constants, so every entry is the text form of a chord.
pub fn parse_shortcut(text: &str) -> (combo: KeyCombo)
    requires
        chord(text@) is Some,
    ensures
        chord(text@) == Some(combo),
{
    parse_chord(text).unwrap()
}

/// How a modifier in front of a text changes the chord it stands for.
pub proof fn lemma_modifier_prefix(rest: Seq<char>)
    ensures
        chord("Cmd+"@ + rest) == match chord(rest) {
            Some(combo) => Some(KeyCombo { command: true, ..combo }),
            None => None,
        },
        chord("Ctrl+"@ + rest) == match chord(rest) {
            Some(combo) => Some(KeyCombo { control: true, ..combo }),
            None => None,
        },
        chord("Shift+"@ + rest) == match chord(rest) {
            Some(combo) => Some(KeyCombo { shift: true, ..combo }),
            None => None,
        },
        chord("Alt+"@ + rest) == match chord(rest) {
            Some(combo) => Some(KeyCombo { option: true, ..combo }),
            None => None,
        },
{
    reveal_strlit("Cmd+");
    reveal_strlit("Ctrl+");
    reveal_strlit("Shift+");
    reveal_strlit("Alt+");
    let command = "Cmd+"@ + rest;
    let control = "Ctrl+"@ + rest;
    let shift = "Shift+"@ + rest;
    let option = "Alt+"@ + rest;
    assert("Cmd+"@.is_prefix_of(command));
    assert("Ctrl+"@.is_prefix_of(control));
    assert("Shift+"@.is_prefix_of(shift));
    assert("Alt+"@.is_prefix_of(option));
    assert(command.skip(4) =~= rest);
    assert(control.skip(5) =~= rest);
    assert(shift.skip(6) =~= rest);
    assert(option.skip(4) =~= rest);
    assert(command[0] == 'C' && command[1] == 'm');
    assert(control[0] == 'C' && control[1] == 't');
    assert(shift[0] == 'S');
    assert(option[0] == 'A');
    assert(!"Cmd+"@.is_prefix_of(control)) by {
        assert("Cmd+"@[1] == 'm' && control.subrange(0, 4)[1] == 't');
    }
    assert(!"Cmd+"@.is_prefix_of(shift) && !"Ctrl+"@.is_prefix_of(shift)) by {
        assert("Cmd+"@[0] == 'C' && shift.subrange(0, 4)[0] == 'S');
        assert("Ctrl+"@[0] == 'C' && shift.subrange(0, 5)[0] == 'S');
    }
    assert(!"Cmd+"@.is_prefix_of(option)) by {
        assert("Cmd+"@[0] == 'C' && option.subrange(0, 4)[0] == 'A');
    }
    assert(!"Ctrl+"@.is_prefix_of(option)) by {
        if option.len() >= 5 {
            assert("Ctrl+"@[0] == 'C' && option.subrange(0, 5)[0] == 'A');
        }
    }
    assert(!"Shift+"@.is_prefix_of(option)) by {
        if option.len() >= 6 {
            assert("Shift+"@[0] == 'S' && option.subrange(0, 6)[0] == 'A');
        }
    }
}

/// A text too short to hold a modifier is the name of a key or nothing.
pub proof fn lemma_bare_key(name: Seq<char>)
    requires
        name.len() <= 3,
    ensures
        chord(name) == match named_key(name) {
            Some(key) => Some(
                KeyCombo { command: false, control: false, shift: false, option: false, key },
            ),
            None => None,
        },
{
    reveal_strlit("Cmd+");
    reveal_strlit("Ctrl+");
    reveal_strlit("Shift+");
    reveal_strlit("Alt+");
}

} // verus!
