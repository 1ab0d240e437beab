//! Which texts stand for a chord, and for which one.

use vstd::prelude::*;

use crate::chord::{chord, lemma_bare_key, lemma_modifier_prefix, named_key};

verus! {

/// A modifier as a chord's text names it.
pub enum ChordModifier {
    Command,
    Control,
    Shift,
    Option,
}

/// The text of a modifier.
pub open spec fn modifier_text(modifier: ChordModifier) -> Seq<char> {
    match modifier {
        ChordModifier::Command => "Cmd+"@,
        ChordModifier::Control => "Ctrl+"@,
        ChordModifier::Shift => "Shift+"@,
        ChordModifier::Option => "Alt+"@,
    }
}

/// Modifiers one after the other, and after them the name of a key.
pub open spec fn spelled(modifiers: Seq<ChordModifier>, name: Seq<char>) -> Seq<char>
    decreases modifiers.len(),
{
    if modifiers.len() == 0 {
        name
    } else {
        modifier_text(modifiers.first()) + spelled(modifiers.drop_first(), name)
    }
}

/// Whether `name` is a capital letter, a bracket or `Tab`.
pub open spec fn is_key_name(name: Seq<char>) -> bool {
    ||| name.len() == 1 && 'A' <= name[0] <= 'Z'
    ||| name == seq!['[']
    ||| name == seq![']']
    ||| name == seq!['T', 'a', 'b']
}

/// The usage of a key name: letters count from A, and the others have their
/// place in the usage tables.
pub open spec fn name_code(name: Seq<char>) -> int {
    if name == seq!['['] {
        0x2f
    } else if name == seq![']'] {
        0x30
    } else if name == seq!['T', 'a', 'b'] {
        0x2b
    } else {
        0x04 + (name[0] as int - 'A' as int)
    }
}

proof fn lemma_key_names(name: Seq<char>)
    ensures
        named_key(name) is Some <==> is_key_name(name),
        is_key_name(name) ==> named_key(name).unwrap().code == name_code(name),
{
    reveal_strlit("[");
    reveal_strlit("]");
    reveal_strlit("Tab");
    assert("["@ =~= seq!['[']);
    assert("]"@ =~= seq![']']);
    assert("Tab"@ =~= seq!['T', 'a', 'b']);
}

/// However its modifiers are ordered or repeated, a spelled chord is read as
/// the key it names under exactly the modifiers it names.
pub proof fn law_spelled_chords_are_read(modifiers: Seq<ChordModifier>, name: Seq<char>)
    requires
        is_key_name(name),
    ensures
        chord(spelled(modifiers, name)) matches Some(combo) && {
            &&& combo.command == modifiers.contains(ChordModifier::Command)
            &&& combo.control == modifiers.contains(ChordModifier::Control)
            &&& combo.shift == modifiers.contains(ChordModifier::Shift)
            &&& combo.option == modifiers.contains(ChordModifier::Option)
            &&& combo.key.code == name_code(name)
        },
    decreases modifiers.len(),
{
    lemma_key_names(name);
    if modifiers.len() == 0 {
        lemma_bare_key(name);
    } else {
        let rest = modifiers.drop_first();
        law_spelled_chords_are_read(rest, name);
        lemma_modifier_prefix(spelled(rest, name));
        assert forall|m: ChordModifier| #[trigger] modifiers.contains(m) == (modifiers.first() == m
            || rest.contains(m)) by {
            if modifiers.contains(m) && modifiers.first() != m {
                let i = choose|i: int| 0 <= i < modifiers.len() && modifiers[i] == m;
                assert(rest[i - 1] == m);
            }
            if rest.contains(m) {
                let i = choose|i: int| 0 <= i < rest.len() && rest[i] == m;
                assert(modifiers[i + 1] == m);
            }
            if modifiers.first() == m {
                assert(modifiers[0] == m);
            }
        }
    }
}

/// Nothing else is read: a text that stands for a chord is spelled from
/// modifiers and the name of a key.
pub proof fn law_only_spelled_chords_are_read(text: Seq<char>)
    requires
        chord(text) is Some,
    ensures
        exists|modifiers: Seq<ChordModifier>, name: Seq<char>|
            is_key_name(name) && text == #[trigger] spelled(modifiers, name),
    decreases text.len(),
{
    reveal_strlit("Cmd+");
    reveal_strlit("Ctrl+");
    reveal_strlit("Shift+");
    reveal_strlit("Alt+");
    let first = if "Cmd+"@.is_prefix_of(text) {
        Some(ChordModifier::Command)
    } else if "Ctrl+"@.is_prefix_of(text) {
        Some(ChordModifier::Control)
    } else if "Shift+"@.is_prefix_of(text) {
        Some(ChordModifier::Shift)
    } else if "Alt+"@.is_prefix_of(text) {
        Some(ChordModifier::Option)
    } else {
        None
    };
    match first {
        Some(modifier) => {
            let word = modifier_text(modifier);
            let rest = text.skip(word.len() as int);
            law_only_spelled_chords_are_read(rest);
            let (modifiers, name) = choose|modifiers: Seq<ChordModifier>, name: Seq<char>|
                is_key_name(name) && rest == #[trigger] spelled(modifiers, name);
            let longer = seq![modifier] + modifiers;
            assert(longer.drop_first() =~= modifiers);
            assert(text =~= word + rest);
            assert(text == spelled(longer, name));
        },
        None => {
            lemma_key_names(text);
            assert(text == spelled(Seq::<ChordModifier>::empty(), text));
        },
    }
}

} // verus!
