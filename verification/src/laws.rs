//! What holds of held outputs as a whole, over every state they can be in.

use vstd::prelude::*;

use crate::binding::{HoldKind, KeyCombo, Platform};
use crate::held::{
    count_after, counts_positive, crossing, lemma_front_or_last, lemma_occurs_iff_contained,
    occurrences, owned_modifiers, owner_count, owners_after, HeldKey, KeyPhase,
};
use crate::hold::{
    chord_key_list, held_key_list, lemma_split_batch, mac_hold_events, owners_held, retarget_plan,
    steps_owners, steps_posts, switcher_key_list, tap_post, transition_post, PostView,
};
use crate::keymap::law_macos_keys_distinct;
use crate::macos::{
    chord_flags, edge_events, held_event, held_flags, held_vk, modifiers_after_all, HeldKeyEvent,
    KeyEvent,
};

verus! {

/// Membership in the list of crossed keys.
proof fn lemma_crossing_contains(
    keys: Seq<HeldKey>,
    from: Map<HeldKey, nat>,
    to: Map<HeldKey, nat>,
    key: HeldKey,
)
    ensures
        crossing(keys, from, to).contains(key) <==> keys.contains(key) && from.contains_key(key)
            && !to.contains_key(key),
    decreases keys.len(),
{
    reveal(Seq::filter);
    let crossed = crossing(keys, from, to);
    if keys.len() > 0 {
        let rest = crossing(keys.drop_last(), from, to);
        lemma_crossing_contains(keys.drop_last(), from, to, key);
        lemma_front_or_last(keys, key);
        if rest.contains(key) {
            let i = choose|i: int| 0 <= i < rest.len() && rest[i] == key;
            assert(crossed[i] == key);
        }
        if crossed.contains(key) && !rest.contains(key) {
            let i = choose|i: int| 0 <= i < crossed.len() && crossed[i] == key;
            if i < rest.len() {
                assert(rest[i] == key);
            }
            assert(key == keys.last());
        }
        if from.contains_key(keys.last()) && !to.contains_key(keys.last()) {
            assert(crossed[crossed.len() - 1] == keys.last());
        }
    }
}

/// A batch reports an up edge for exactly the keys that lose their last owner,
/// and a down edge for exactly those that gain their first. A key owned before
/// and after it, or at neither end, has no edge at all, so posting the edges
/// keeps the physical keys in step with the ownership.
pub proof fn law_edges_track_ownership(
    owners: Map<HeldKey, nat>,
    released: Seq<HeldKey>,
    pressed: Seq<HeldKey>,
    key: HeldKey,
)
    requires
        counts_positive(owners),
    ensures
        ({
            let after = owners_after(owners, released, pressed);
            &&& crossing(released, owners, after).contains(key) <==> owners.contains_key(key)
                && !after.contains_key(key)
            &&& crossing(pressed, after, owners).contains(key) <==> !owners.contains_key(key)
                && after.contains_key(key)
        }),
{
    let after = owners_after(owners, released, pressed);
    lemma_crossing_contains(released, owners, after, key);
    lemma_crossing_contains(pressed, after, owners, key);
    lemma_occurs_iff_contained(released, key);
    lemma_occurs_iff_contained(pressed, key);
}

/// A key that is counted once in a batch has one edge at most: a list without
/// duplicates leaves edges without duplicates, in the order of the list.
proof fn lemma_crossing_in_order(
    keys: Seq<HeldKey>,
    from: Map<HeldKey, nat>,
    to: Map<HeldKey, nat>,
)
    requires
        keys.no_duplicates(),
    ensures
        crossing(keys, from, to).no_duplicates(),
        in_order_of(crossing(keys, from, to), keys),
    decreases keys.len(),
{
    reveal(Seq::filter);
    let crossed = crossing(keys, from, to);
    assert forall|i: int| 0 <= i < crossed.len() implies keys.contains(#[trigger] crossed[i]) by {
        lemma_crossing_contains(keys, from, to, crossed[i]);
    }
    if keys.len() > 0 {
        let short = keys.drop_last();
        let rest = crossing(short, from, to);
        lemma_crossing_in_order(short, from, to);
        assert forall|i: int, j: int| 0 <= i < j < crossed.len() implies keys.index_of(
            #[trigger] crossed[i],
        ) < keys.index_of(#[trigger] crossed[j]) by {
            lemma_crossing_contains(short, from, to, crossed[i]);
            assert(crossed[i] == rest[i]);
            assert(rest.contains(crossed[i]));
            lemma_same_index(keys, crossed[i]);
            if j < rest.len() {
                lemma_crossing_contains(short, from, to, crossed[j]);
                assert(crossed[j] == rest[j]);
                assert(rest.contains(crossed[j]));
                lemma_same_index(keys, crossed[j]);
                assert(short.index_of(rest[i]) < short.index_of(rest[j]));
            } else {
                assert(crossed[j] == keys[keys.len() - 1]);
            }
        }
    }
}

/// Dropping the last key moves none of the others.
proof fn lemma_same_index(keys: Seq<HeldKey>, key: HeldKey)
    requires
        keys.no_duplicates(),
        keys.len() > 0,
        keys.drop_last().contains(key),
    ensures
        keys.index_of(key) == keys.drop_last().index_of(key),
        keys.index_of(key) < keys.len() - 1,
{
    let i = keys.drop_last().index_of(key);
    assert(keys.drop_last()[i] == key);
    assert(keys[i] == key);
}

/// Whether the keys of `part` stand in `whole`, in the same order.
pub open spec fn in_order_of(part: Seq<HeldKey>, whole: Seq<HeldKey>) -> bool {
    &&& forall|i: int| 0 <= i < part.len() ==> whole.contains(#[trigger] part[i])
    &&& forall|i: int, j: int|
        0 <= i < j < part.len() ==> whole.index_of(#[trigger] part[i]) < whole.index_of(
            #[trigger] part[j],
        )
}

/// Where neither list of a batch names a key twice, every key that changes
/// hands has exactly one edge. The up edges stand in the order of the released
/// keys, the down edges in that of the pressed ones, and no key has both.
pub proof fn law_one_edge_in_order(
    owners: Map<HeldKey, nat>,
    released: Seq<HeldKey>,
    pressed: Seq<HeldKey>,
)
    requires
        counts_positive(owners),
        released.no_duplicates(),
        pressed.no_duplicates(),
    ensures
        ({
            let after = owners_after(owners, released, pressed);
            let up = crossing(released, owners, after);
            let down = crossing(pressed, after, owners);
            &&& forall|key: HeldKey| #[trigger]
                up.contains(key) <==> owners.contains_key(key) && !after.contains_key(key)
            &&& forall|key: HeldKey| #[trigger]
                down.contains(key) <==> !owners.contains_key(key) && after.contains_key(key)
            &&& up.no_duplicates()
            &&& down.no_duplicates()
            &&& in_order_of(up, released)
            &&& in_order_of(down, pressed)
            &&& forall|key: HeldKey| !(#[trigger] up.contains(key) && down.contains(key))
        }),
{
    let after = owners_after(owners, released, pressed);
    let up = crossing(released, owners, after);
    let down = crossing(pressed, after, owners);
    lemma_crossing_in_order(released, owners, after);
    lemma_crossing_in_order(pressed, after, owners);
    assert forall|key: HeldKey| #[trigger]
        up.contains(key) <==> owners.contains_key(key) && !after.contains_key(key) by {
        law_edges_track_ownership(owners, released, pressed, key);
    }
    assert forall|key: HeldKey| #[trigger]
        down.contains(key) <==> !owners.contains_key(key) && after.contains_key(key) by {
        law_edges_track_ownership(owners, released, pressed, key);
    }
}

/// Releasing a list of keys right after pressing it leaves the ownership as it
/// was and undoes exactly the edges of the press: the press lifts nothing, the
/// release presses nothing, and the keys that went down are the ones that come
/// up, whatever the list and whatever else is held.
pub proof fn law_release_undoes_press(owners: Map<HeldKey, nat>, keys: Seq<HeldKey>)
    requires
        counts_positive(owners),
    ensures
        ({
            let held = owners_after(owners, seq![], keys);
            let restored = owners_after(held, keys, seq![]);
            &&& restored == owners
            &&& crossing(seq![], owners, held) == Seq::<HeldKey>::empty()
            &&& crossing(seq![], restored, held) == Seq::<HeldKey>::empty()
            &&& crossing(keys, held, restored) == crossing(keys, held, owners)
        }),
{
    reveal(Seq::filter);
    let held = owners_after(owners, seq![], keys);
    assert(owners_after(held, keys, seq![]) =~= owners);
}

/// How often a key stands in a list, as the list's multiset counts it.
pub(crate) proof fn lemma_occurrences_counted(keys: Seq<HeldKey>, key: HeldKey)
    ensures
        occurrences(keys, key) == keys.to_multiset().count(key),
    decreases keys.len(),
{
    broadcast use vstd::seq_lib::group_to_multiset_ensures;
    broadcast use vstd::multiset::group_multiset_axioms;

    if keys.len() > 0 {
        lemma_occurrences_counted(keys.drop_last(), key);
        assert(keys =~= keys.drop_last().push(keys.last()));
    } else {
        assert(!keys.contains(key));
    }
}

/// How often a key stands in the list of crossed keys.
pub(crate) proof fn lemma_crossing_occurrences(
    keys: Seq<HeldKey>,
    from: Map<HeldKey, nat>,
    to: Map<HeldKey, nat>,
    key: HeldKey,
)
    ensures
        occurrences(crossing(keys, from, to), key) == if from.contains_key(key)
            && !to.contains_key(key) {
            occurrences(keys, key)
        } else {
            0
        },
    decreases keys.len(),
{
    reveal(Seq::filter);
    if keys.len() > 0 {
        let rest = crossing(keys.drop_last(), from, to);
        lemma_crossing_occurrences(keys.drop_last(), from, to, key);
        assert(rest.push(keys.last()).drop_last() =~= rest);
    }
}

/// Permuted lists leave permuted edges.
proof fn lemma_crossing_permuted(
    keys: Seq<HeldKey>,
    permuted: Seq<HeldKey>,
    from: Map<HeldKey, nat>,
    to: Map<HeldKey, nat>,
)
    requires
        keys.to_multiset() == permuted.to_multiset(),
    ensures
        crossing(keys, from, to).to_multiset() == crossing(permuted, from, to).to_multiset(),
{
    let ours = crossing(keys, from, to);
    let theirs = crossing(permuted, from, to);
    assert forall|key: HeldKey| #[trigger]
        ours.to_multiset().count(key) == theirs.to_multiset().count(key) by {
        lemma_occurrences_counted(keys, key);
        lemma_occurrences_counted(permuted, key);
        lemma_occurrences_counted(ours, key);
        lemma_occurrences_counted(theirs, key);
        lemma_crossing_occurrences(keys, from, to, key);
        lemma_crossing_occurrences(permuted, from, to, key);
    }
    assert(ours.to_multiset() =~= theirs.to_multiset());
}

/// The order within one batch carries no meaning: the same keys in another
/// order leave the same ownership and the same edges, in some other order.
pub proof fn law_order_within_a_batch_is_free(
    owners: Map<HeldKey, nat>,
    released: Seq<HeldKey>,
    pressed: Seq<HeldKey>,
    other_released: Seq<HeldKey>,
    other_pressed: Seq<HeldKey>,
)
    requires
        released.to_multiset() == other_released.to_multiset(),
        pressed.to_multiset() == other_pressed.to_multiset(),
    ensures
        ({
            let after = owners_after(owners, released, pressed);
            let other_after = owners_after(owners, other_released, other_pressed);
            &&& after == other_after
            &&& crossing(released, owners, after).to_multiset() == crossing(
                other_released,
                owners,
                other_after,
            ).to_multiset()
            &&& crossing(pressed, after, owners).to_multiset() == crossing(
                other_pressed,
                other_after,
                owners,
            ).to_multiset()
        }),
{
    let after = owners_after(owners, released, pressed);
    let other_after = owners_after(owners, other_released, other_pressed);
    assert forall|key: HeldKey|
        count_after(owners, released, pressed, key) == count_after(
            owners,
            other_released,
            other_pressed,
            key,
        ) by {
        lemma_occurrences_counted(released, key);
        lemma_occurrences_counted(other_released, key);
        lemma_occurrences_counted(pressed, key);
        lemma_occurrences_counted(other_pressed, key);
    }
    assert(after =~= other_after);
    lemma_crossing_permuted(released, other_released, owners, after);
    lemma_crossing_permuted(pressed, other_pressed, after, owners);
}

/// Where the keys that are physically down are the owned ones, they still are
/// once a batch's up edges and down edges have been posted.
pub proof fn law_posted_edges_follow_ownership(
    owners: Map<HeldKey, nat>,
    released: Seq<HeldKey>,
    pressed: Seq<HeldKey>,
)
    requires
        counts_positive(owners),
    ensures
        ({
            let after = owners_after(owners, released, pressed);
            let up = crossing(released, owners, after).to_set();
            let down = crossing(pressed, after, owners).to_set();
            owners.dom().difference(up).union(down) == after.dom()
        }),
{
    let after = owners_after(owners, released, pressed);
    let up = crossing(released, owners, after);
    let down = crossing(pressed, after, owners);
    assert forall|key: HeldKey| owners.dom().difference(up.to_set()).union(down.to_set()).contains(
        key,
    ) == after.dom().contains(key) by {
        law_edges_track_ownership(owners, released, pressed, key);
        assert(up.to_set().contains(key) == up.contains(key));
        assert(down.to_set().contains(key) == down.contains(key));
    }
    assert(owners.dom().difference(up.to_set()).union(down.to_set()) =~= after.dom());
}

/// The modifiers after a run of edges: a key with an edge is held as the edge
/// says, any other as before.
pub(crate) proof fn lemma_modifiers_after_all(
    modifiers: Set<HeldKey>,
    keys: Seq<HeldKey>,
    held: bool,
    key: HeldKey,
)
    ensures
        modifiers_after_all(modifiers, keys, held).contains(key) == (if key.is_modifier()
            && keys.contains(key) {
            held
        } else {
            modifiers.contains(key)
        }),
    decreases keys.len(),
{
    if keys.len() > 0 {
        lemma_modifiers_after_all(modifiers, keys.drop_last(), held, key);
        lemma_front_or_last(keys, key);
    }
}

pub(crate) proof fn lemma_reverse_contains(keys: Seq<HeldKey>, key: HeldKey)
    ensures
        keys.reverse().contains(key) == keys.contains(key),
{
    if keys.contains(key) {
        let i = choose|i: int| 0 <= i < keys.len() && keys[i] == key;
        assert(keys.reverse()[keys.len() - 1 - i] == key);
    }
    if keys.reverse().contains(key) {
        let i = choose|i: int| 0 <= i < keys.len() && keys.reverse()[i] == key;
        assert(keys[keys.len() - 1 - i] == key);
    }
}

/// The modifier state that macOS events carry starts at the ownership before a
/// batch and, advanced through the batch's edges, ends at the ownership after
/// it.
pub proof fn law_cursor_reaches_ownership(
    owners: Map<HeldKey, nat>,
    released: Seq<HeldKey>,
    pressed: Seq<HeldKey>,
)
    requires
        counts_positive(owners),
    ensures
        ({
            let after = owners_after(owners, released, pressed);
            let up = crossing(released, owners, after);
            let down = crossing(pressed, after, owners);
            modifiers_after_all(
                modifiers_after_all(owned_modifiers(owners), up.reverse(), false),
                down,
                true,
            ) == owned_modifiers(after)
        }),
{
    let after = owners_after(owners, released, pressed);
    let up = crossing(released, owners, after);
    let down = crossing(pressed, after, owners);
    let middle = modifiers_after_all(owned_modifiers(owners), up.reverse(), false);
    let end = modifiers_after_all(middle, down, true);
    assert forall|key: HeldKey| end.contains(key) == owned_modifiers(after).contains(key) by {
        law_edges_track_ownership(owners, released, pressed, key);
        lemma_modifiers_after_all(owned_modifiers(owners), up.reverse(), false, key);
        lemma_modifiers_after_all(middle, down, true, key);
        lemma_reverse_contains(up, key);
    }
    assert(end =~= owned_modifiers(after));
}

/// No output owns a key twice.
pub proof fn law_held_keys_distinct(platform: Platform, kind: HoldKind)
    ensures
        held_key_list(platform, kind).no_duplicates(),
        forall|key: HeldKey| #[trigger]
            occurrences(held_key_list(platform, kind), key) == if held_key_list(
                platform,
                kind,
            ).contains(key) {
                1nat
            } else {
                0nat
            },
{
    let keys = held_key_list(platform, kind);
    assert forall|key: HeldKey| #[trigger]
        occurrences(keys, key) == if keys.contains(key) {
            1nat
        } else {
            0nat
        } by {
        lemma_occurrences_distinct(keys, key);
    }
}

/// A list without duplicates holds a key once at most.
proof fn lemma_occurrences_distinct(keys: Seq<HeldKey>, key: HeldKey)
    requires
        keys.no_duplicates(),
    ensures
        occurrences(keys, key) == if keys.contains(key) {
            1nat
        } else {
            0nat
        },
    decreases keys.len(),
{
    lemma_occurs_iff_contained(keys, key);
    if keys.len() > 0 {
        let rest = keys.drop_last();
        lemma_occurrences_distinct(rest, key);
        lemma_front_or_last(keys, key);
    }
}

/// Cmd and Ctrl alias one key on Linux and Windows, and no output owns the
/// Command key there.
pub proof fn law_command_aliases_control(platform: Platform, combo: KeyCombo)
    requires
        platform is Linux || platform is Windows,
    ensures
        chord_key_list(platform, combo) == chord_key_list(
            platform,
            KeyCombo { command: false, control: combo.command || combo.control, ..combo },
        ),
        !held_key_list(platform, HoldKind::Chord(combo)).contains(HeldKey::Command),
        !held_key_list(platform, HoldKind::AppSwitcher).contains(HeldKey::Command),
{
}

/// Cmd and Ctrl are distinct keys on macOS: a chord owns each exactly when it
/// names it.
pub proof fn law_command_and_control_distinct_on_macos(combo: KeyCombo)
    ensures
        chord_key_list(Platform::MacOs, combo).contains(HeldKey::Command) == combo.command,
        chord_key_list(Platform::MacOs, combo).contains(HeldKey::Control) == combo.control,
{
    lemma_chord_modifiers(combo);
}

/// How many of `outputs` hold `key`.
pub open spec fn holders(platform: Platform, outputs: Seq<HoldKind>, key: HeldKey) -> nat
    decreases outputs.len(),
{
    if outputs.len() == 0 {
        0
    } else {
        holders(platform, outputs.drop_last(), key) + if held_key_list(
            platform,
            outputs.last(),
        ).contains(key) {
            1nat
        } else {
            0nat
        }
    }
}

/// The ownership counts exactly the outputs that are held.
pub open spec fn accounts_for(
    platform: Platform,
    owners: Map<HeldKey, nat>,
    outputs: Seq<HoldKind>,
) -> bool {
    &&& counts_positive(owners)
    &&& forall|key: HeldKey| #[trigger]
        owner_count(owners, key) == holders(platform, outputs, key)
}

/// Changing one output changes the holders of a key by what that output holds.
proof fn lemma_holders_update(
    platform: Platform,
    outputs: Seq<HoldKind>,
    i: int,
    kind: HoldKind,
    key: HeldKey,
)
    requires
        0 <= i < outputs.len(),
    ensures
        holders(platform, outputs.update(i, kind), key) + (if held_key_list(
            platform,
            outputs[i],
        ).contains(key) {
            1int
        } else {
            0int
        }) == holders(platform, outputs, key) + (if held_key_list(platform, kind).contains(key) {
            1int
        } else {
            0int
        }),
    decreases outputs.len(),
{
    let updated = outputs.update(i, kind);
    if i == outputs.len() - 1 {
        assert(updated.drop_last() =~= outputs.drop_last());
    } else {
        lemma_holders_update(platform, outputs.drop_last(), i, kind, key);
        assert(updated.drop_last() =~= outputs.drop_last().update(i, kind));
    }
}

/// Dropping one output drops what it holds.
proof fn lemma_holders_remove(
    platform: Platform,
    outputs: Seq<HoldKind>,
    i: int,
    key: HeldKey,
)
    requires
        0 <= i < outputs.len(),
    ensures
        holders(platform, outputs.remove(i), key) + (if held_key_list(
            platform,
            outputs[i],
        ).contains(key) {
            1int
        } else {
            0int
        }) == holders(platform, outputs, key),
    decreases outputs.len(),
{
    let removed = outputs.remove(i);
    if i == outputs.len() - 1 {
        assert(removed =~= outputs.drop_last());
    } else {
        lemma_holders_remove(platform, outputs.drop_last(), i, key);
        assert(removed.drop_last() =~= outputs.drop_last().remove(i));
    }
}

/// With no output held, no key is owned, and the other way round: the
/// ownership that starts out empty accounts for no output.
pub proof fn law_nothing_held_nothing_owned(platform: Platform, owners: Map<HeldKey, nat>)
    ensures
        accounts_for(platform, owners, seq![]) <==> owners == Map::<HeldKey, nat>::empty(),
{
    if accounts_for(platform, owners, seq![]) {
        assert forall|key: HeldKey| !owners.contains_key(key) by {
            assert(owner_count(owners, key) == holders(platform, seq![], key));
        }
        assert(owners =~= Map::<HeldKey, nat>::empty());
    }
}

/// Pressing an output keeps the ownership accounting for exactly the held
/// outputs.
pub proof fn law_press_keeps_accounts(
    platform: Platform,
    owners: Map<HeldKey, nat>,
    outputs: Seq<HoldKind>,
    kind: HoldKind,
)
    requires
        !(platform is Other),
        accounts_for(platform, owners, outputs),
    ensures
        accounts_for(
            platform,
            owners_held(platform, owners, seq![], held_key_list(platform, kind)),
            outputs.push(kind),
        ),
{
    let after = owners_held(platform, owners, seq![], held_key_list(platform, kind));
    law_held_keys_distinct(platform, kind);
    assert forall|key: HeldKey| #[trigger]
        owner_count(after, key) == holders(platform, outputs.push(kind), key) by {
        assert(owner_count(owners, key) == holders(platform, outputs, key));
        assert(outputs.push(kind).drop_last() =~= outputs);
        assert(occurrences(held_key_list(platform, kind), key) <= 1);
    }
}

/// Releasing an output keeps the ownership accounting for exactly the outputs
/// still held.
pub proof fn law_release_keeps_accounts(
    platform: Platform,
    owners: Map<HeldKey, nat>,
    outputs: Seq<HoldKind>,
    i: int,
)
    requires
        !(platform is Other),
        accounts_for(platform, owners, outputs),
        0 <= i < outputs.len(),
    ensures
        accounts_for(
            platform,
            owners_held(platform, owners, held_key_list(platform, outputs[i]), seq![]),
            outputs.remove(i),
        ),
{
    let keys = held_key_list(platform, outputs[i]);
    let after = owners_held(platform, owners, keys, seq![]);
    law_held_keys_distinct(platform, outputs[i]);
    assert forall|key: HeldKey| #[trigger]
        owner_count(after, key) == holders(platform, outputs.remove(i), key) by {
        assert(owner_count(owners, key) == holders(platform, outputs, key));
        lemma_holders_remove(platform, outputs, i, key);
        assert(occurrences(keys, key) <= 1);
    }
}

/// The ownership after a repointed press is that of one batch from the old
/// keys to the new, whichever steps it takes.
pub proof fn law_retarget_counts_as_one_batch(
    platform: Platform,
    owners: Map<HeldKey, nat>,
    previous: HoldKind,
    next: HoldKind,
)
    requires
        counts_positive(owners),
        forall|key: HeldKey| #[trigger]
            held_key_list(platform, previous).contains(key) ==> platform is Other
                || owners.contains_key(key),
    ensures
        steps_owners(platform, owners, retarget_plan(platform, previous, next)) == owners_held(
            platform,
            owners,
            held_key_list(platform, previous),
            held_key_list(platform, next),
        ),
{
    reveal_with_fuel(steps_owners, 3);
    let plan = retarget_plan(platform, previous, next);
    let from = held_key_list(platform, previous);
    let to = held_key_list(platform, next);
    if plan.len() == 2 {
        assert(plan.drop_last().drop_last() =~= seq![]);
        assert(plan.drop_last().last() == plan[0]);
    }
    if plan.len() == 1 {
        assert(plan.drop_last() =~= seq![]);
    }
    lemma_split_batch(owners, from, to);
    if plan.len() == 0 && !(platform is Other) {
        law_held_keys_distinct(platform, previous);
        assert forall|key: HeldKey| count_after(owners, from, to, key) == owner_count(
            owners,
            key,
        ) by {
            assert(occurrences(from, key) <= 1);
            if from.contains(key) {
                assert(owners.contains_key(key));
            }
        }
        assert(owners_after(owners, from, to) =~= owners);
    }
}

/// Repointing an output keeps the ownership accounting for exactly the held
/// outputs.
pub proof fn law_retarget_keeps_accounts(
    platform: Platform,
    owners: Map<HeldKey, nat>,
    outputs: Seq<HoldKind>,
    i: int,
    next: HoldKind,
)
    requires
        !(platform is Other),
        accounts_for(platform, owners, outputs),
        0 <= i < outputs.len(),
    ensures
        accounts_for(
            platform,
            steps_owners(platform, owners, retarget_plan(platform, outputs[i], next)),
            outputs.update(i, next),
        ),
{
    let from = held_key_list(platform, outputs[i]);
    let to = held_key_list(platform, next);
    let after = owners_held(platform, owners, from, to);
    law_held_keys_distinct(platform, outputs[i]);
    law_held_keys_distinct(platform, next);
    assert forall|key: HeldKey| #[trigger] from.contains(key) implies owners.contains_key(key) by {
        assert(owner_count(owners, key) == holders(platform, outputs, key));
        lemma_holders_remove(platform, outputs, i, key);
    }
    law_retarget_counts_as_one_batch(platform, owners, outputs[i], next);
    assert forall|key: HeldKey| #[trigger]
        owner_count(after, key) == holders(platform, outputs.update(i, next), key) by {
        assert(owner_count(owners, key) == holders(platform, outputs, key));
        lemma_holders_update(platform, outputs, i, next, key);
        lemma_holders_remove(platform, outputs, i, key);
        assert(occurrences(from, key) <= 1);
        assert(occurrences(to, key) <= 1);
    }
}

/// A key that outputs share stays down until the last of them ends: releasing
/// an output lifts exactly those of its keys that no other output holds.
pub proof fn law_shared_key_stays_down(
    platform: Platform,
    owners: Map<HeldKey, nat>,
    outputs: Seq<HoldKind>,
    i: int,
    key: HeldKey,
)
    requires
        !(platform is Other),
        accounts_for(platform, owners, outputs),
        0 <= i < outputs.len(),
    ensures
        ({
            let keys = held_key_list(platform, outputs[i]);
            let after = owners_held(platform, owners, keys, seq![]);
            crossing(keys, owners, after).contains(key) <==> keys.contains(key) && holders(
                platform,
                outputs.remove(i),
                key,
            ) == 0
        }),
{
    let keys = held_key_list(platform, outputs[i]);
    let after = owners_held(platform, owners, keys, seq![]);
    lemma_crossing_contains(keys, owners, after, key);
    law_release_keeps_accounts(platform, owners, outputs, i);
    lemma_holders_remove(platform, outputs, i, key);
    assert(owner_count(owners, key) == holders(platform, outputs, key));
    assert(owner_count(after, key) == holders(platform, outputs.remove(i), key));
}

/// Releasing an output right after pressing it leaves the ownership exactly as
/// it was, whatever else is held.
pub proof fn law_press_then_release_restores(
    platform: Platform,
    owners: Map<HeldKey, nat>,
    kind: HoldKind,
)
    requires
        counts_positive(owners),
    ensures
        owners_held(
            platform,
            owners_held(platform, owners, seq![], held_key_list(platform, kind)),
            held_key_list(platform, kind),
            seq![],
        ) == owners,
{
    law_release_undoes_press(owners, held_key_list(platform, kind));
}

/// The ownership after a press that starts at the first of `kinds` and is
/// repointed at each of the others in turn.
pub open spec fn life_owners(
    platform: Platform,
    owners: Map<HeldKey, nat>,
    kinds: Seq<HoldKind>,
) -> Map<HeldKey, nat>
    recommends
        kinds.len() > 0,
    decreases kinds.len(),
{
    if kinds.len() <= 1 {
        owners_held(platform, owners, seq![], held_key_list(platform, kinds.last()))
    } else {
        steps_owners(
            platform,
            life_owners(platform, owners, kinds.drop_last()),
            retarget_plan(platform, kinds[kinds.len() - 2], kinds.last()),
        )
    }
}

/// However often a press has been repointed, the ownership is that of pressing
/// the current output alone.
pub proof fn law_life_counts_the_current_output(
    platform: Platform,
    owners: Map<HeldKey, nat>,
    kinds: Seq<HoldKind>,
)
    requires
        counts_positive(owners),
        kinds.len() > 0,
    ensures
        life_owners(platform, owners, kinds) == owners_held(
            platform,
            owners,
            seq![],
            held_key_list(platform, kinds.last()),
        ),
    decreases kinds.len(),
{
    if kinds.len() > 1 {
        let earlier = kinds.drop_last();
        let previous = kinds[kinds.len() - 2];
        let next = kinds.last();
        let from = held_key_list(platform, previous);
        let to = held_key_list(platform, next);
        law_life_counts_the_current_output(platform, owners, earlier);
        let held = owners_held(platform, owners, seq![], from);
        assert forall|key: HeldKey| #[trigger] from.contains(key) implies platform is Other
            || held.contains_key(key) by {
            lemma_occurs_iff_contained(from, key);
        }
        law_retarget_counts_as_one_batch(platform, held, previous, next);
        if !(platform is Other) {
            assert(owners_after(held, from, to) =~= owners_after(owners, seq![], to));
        }
    }
}

/// The whole life of a held output: a press, any number of repointings, and the
/// release. The ownership ends as it began. The release posts up edges alone,
/// for exactly the keys of the current output that nothing else owned when the
/// press began; it posts no down edge and no tap.
pub proof fn law_whole_life_restores(
    platform: Platform,
    owners: Map<HeldKey, nat>,
    kinds: Seq<HoldKind>,
)
    requires
        counts_positive(owners),
        kinds.len() > 0,
    ensures
        ({
            let held = life_owners(platform, owners, kinds);
            let keys = held_key_list(platform, kinds.last());
            let up = crossing(keys, held, owners);
            &&& owners_held(platform, held, keys, seq![]) == owners
            &&& transition_post(platform, held, keys, seq![]) == match platform {
                Platform::MacOs => PostView::MacKeys(
                    edge_events(up.reverse(), KeyPhase::Up, owned_modifiers(held)),
                ),
                Platform::Linux => PostView::HoldKeys { up, down: seq![] },
                Platform::Windows => PostView::HoldKeys { up, down: seq![] },
                Platform::Other => PostView::Unsupported,
            }
            &&& !(platform is Other) ==> forall|key: HeldKey| #[trigger]
                up.contains(key) <==> keys.contains(key) && !owners.contains_key(key)
        }),
{
    let held = life_owners(platform, owners, kinds);
    let keys = held_key_list(platform, kinds.last());
    let up = crossing(keys, held, owners);
    law_life_counts_the_current_output(platform, owners, kinds);
    if !(platform is Other) {
        law_release_undoes_press(owners, keys);
        assert forall|key: HeldKey| #[trigger]
            up.contains(key) <==> keys.contains(key) && !owners.contains_key(key) by {
            lemma_crossing_contains(keys, held, owners, key);
            lemma_occurs_iff_contained(keys, key);
        }
        let events = edge_events(up.reverse(), KeyPhase::Up, owned_modifiers(held));
        assert(mac_hold_events(up, seq![], owned_modifiers(held)) =~= events);
    }
}

/// Repointing a held output and then pointing it back leaves the ownership
/// exactly as it was.
pub proof fn law_retarget_back_restores(
    platform: Platform,
    owners: Map<HeldKey, nat>,
    previous: HoldKind,
    next: HoldKind,
)
    requires
        counts_positive(owners),
        forall|key: HeldKey| #[trigger]
            held_key_list(platform, previous).contains(key) ==> platform is Other
                || owners.contains_key(key),
    ensures
        steps_owners(
            platform,
            steps_owners(platform, owners, retarget_plan(platform, previous, next)),
            retarget_plan(platform, next, previous),
        ) == owners,
{
    let from = held_key_list(platform, previous);
    let to = held_key_list(platform, next);
    let middle = owners_held(platform, owners, from, to);
    law_held_keys_distinct(platform, previous);
    law_held_keys_distinct(platform, next);
    law_retarget_counts_as_one_batch(platform, owners, previous, next);
    assert forall|key: HeldKey| #[trigger] to.contains(key) implies platform is Other
        || middle.contains_key(key) by {
        assert(occurrences(to, key) == 1);
    }
    law_retarget_counts_as_one_batch(platform, middle, next, previous);
    if !(platform is Other) {
        assert forall|key: HeldKey| count_after(middle, to, from, key) == owner_count(
            owners,
            key,
        ) by {
            assert(occurrences(from, key) <= 1);
            assert(occurrences(to, key) <= 1);
            if from.contains(key) {
                assert(owners.contains_key(key));
            }
        }
        assert(owners_after(middle, to, from) =~= owners);
    }
}

/// A key that both outputs of a repointed press hold keeps its down edge: the
/// batch between them reports no edge for it.
pub proof fn law_replacement_preserves_shared_keys(
    platform: Platform,
    owners: Map<HeldKey, nat>,
    previous: HoldKind,
    next: HoldKind,
    key: HeldKey,
)
    requires
        counts_positive(owners),
        owners.contains_key(key),
        held_key_list(platform, previous).contains(key),
        held_key_list(platform, next).contains(key),
    ensures
        ({
            let from = held_key_list(platform, previous);
            let to = held_key_list(platform, next);
            let after = owners_after(owners, from, to);
            &&& !crossing(from, owners, after).contains(key)
            &&& !crossing(to, after, owners).contains(key)
        }),
{
    let from = held_key_list(platform, previous);
    let to = held_key_list(platform, next);
    law_held_keys_distinct(platform, next);
    assert(occurrences(to, key) == 1);
    law_edges_track_ownership(owners, from, to, key);
}

/// Repointing an open switcher at the switcher posts nothing and changes
/// nothing.
pub proof fn law_open_switcher_is_left_alone(platform: Platform, owners: Map<HeldKey, nat>)
    ensures
        steps_posts(
            platform,
            owners,
            retarget_plan(platform, HoldKind::AppSwitcher, HoldKind::AppSwitcher),
        ) == Seq::<PostView>::empty(),
        steps_owners(
            platform,
            owners,
            retarget_plan(platform, HoldKind::AppSwitcher, HoldKind::AppSwitcher),
        ) == owners,
{
    assert(steps_posts(
        platform,
        owners,
        retarget_plan(platform, HoldKind::AppSwitcher, HoldKind::AppSwitcher),
    ) =~= Seq::<PostView>::empty());
}

/// A list of one key that crosses zero is reported whole.
proof fn lemma_crossing_single(key: HeldKey, from: Map<HeldKey, nat>, to: Map<HeldKey, nat>)
    ensures
        crossing(seq![key], from, to) == if from.contains_key(key) && !to.contains_key(key) {
            seq![key]
        } else {
            seq![]
        },
        crossing(seq![], from, to) == Seq::<HeldKey>::empty(),
{
    reveal_with_fuel(Seq::filter, 2);
    assert(seq![key].drop_last() =~= seq![]);
    assert(seq![key].last() == key);
    assert(crossing(seq![key], from, to) =~= if from.contains_key(key) && !to.contains_key(key) {
        seq![key]
    } else {
        seq![]
    });
    assert(crossing(seq![], from, to) =~= Seq::<HeldKey>::empty());
}

/// Repointing an open switcher at a chord commits it first: where the switcher
/// alone holds its modifier, the first post is that modifier's up edge and
/// nothing else, and only the second presses the chord. A chord that shares
/// the modifier presses it anew.
pub proof fn law_switcher_commits_before_the_chord(
    platform: Platform,
    owners: Map<HeldKey, nat>,
    combo: KeyCombo,
)
    requires
        !(platform is Other),
        counts_positive(owners),
        owner_count(owners, switcher_key_list(platform)[0]) == 1,
    ensures
        ({
            let modifier = switcher_key_list(platform)[0];
            let chord = chord_key_list(platform, combo);
            let plan = retarget_plan(platform, HoldKind::AppSwitcher, HoldKind::Chord(combo));
            let posts = steps_posts(platform, owners, plan);
            let committed = owners_after(owners, seq![modifier], seq![]);
            let pressed = owners_after(committed, seq![], chord);
            &&& posts.len() == 2
            &&& posts[0] == match platform {
                Platform::MacOs => PostView::MacKeys(
                    seq![
                        held_event(modifier, KeyPhase::Up, owned_modifiers(owners).remove(modifier)),
                    ],
                ),
                _ => PostView::HoldKeys { up: seq![modifier], down: seq![] },
            }
            &&& posts[1] == match platform {
                Platform::MacOs => PostView::MacKeys(
                    edge_events(
                        crossing(chord, pressed, committed),
                        KeyPhase::Down,
                        owned_modifiers(committed),
                    ),
                ),
                _ => PostView::HoldKeys {
                    up: seq![],
                    down: crossing(chord, pressed, committed),
                },
            }
            &&& crossing(chord, pressed, committed).contains(modifier) <==> chord.contains(
                modifier,
            )
        }),
{
    let modifier = switcher_key_list(platform)[0];
    let chord = chord_key_list(platform, combo);
    let plan = retarget_plan(platform, HoldKind::AppSwitcher, HoldKind::Chord(combo));
    let posts = steps_posts(platform, owners, plan);
    let committed = owners_after(owners, seq![modifier], seq![]);
    let pressed = owners_after(committed, seq![], chord);
    assert(switcher_key_list(platform) =~= seq![modifier]);
    law_held_keys_distinct(platform, HoldKind::AppSwitcher);
    assert(occurrences(seq![modifier], modifier) == 1) by {
        assert(seq![modifier][0] == modifier);
        assert(occurrences(held_key_list(platform, HoldKind::AppSwitcher), modifier) == 1);
    }
    reveal_with_fuel(steps_owners, 2);
    assert(plan.take(0) =~= seq![]);
    assert(plan.take(1).drop_last() =~= seq![]);
    assert(plan.take(1).last() == plan[0]);
    assert(steps_owners(platform, owners, plan.take(1)) == committed);
    lemma_crossing_single(modifier, owners, committed);
    lemma_crossing_single(modifier, committed, owners);
    lemma_crossing_single(modifier, committed, pressed);
    lemma_crossing_contains(chord, pressed, committed, modifier);
    lemma_occurs_iff_contained(chord, modifier);
    let none = Seq::<HeldKey>::empty();
    assert(none.reverse() =~= none);
    assert(seq![modifier].reverse() =~= seq![modifier]);
    if platform is MacOs {
        let modifiers = owned_modifiers(owners);
        assert(seq![modifier].take(1) =~= seq![modifier]);
        assert(seq![modifier].drop_last() =~= none);
        assert(modifiers_after_all(modifiers, none, false) == modifiers);
        assert(modifiers_after_all(modifiers, seq![modifier], false) == modifiers.remove(modifier));
        assert(mac_hold_events(seq![modifier], none, modifiers) =~= seq![
            held_event(modifier, KeyPhase::Up, modifiers.remove(modifier)),
        ]);
        let down = crossing(chord, pressed, committed);
        assert(mac_hold_events(none, down, owned_modifiers(committed)) =~= edge_events(
            down,
            KeyPhase::Down,
            owned_modifiers(committed),
        ));
    }
}

/// Repointing a chord at the switcher is one batch and, after it, the tap. When
/// the tap comes, the switcher's keys are down and no key that the chord alone
/// held still is.
pub proof fn law_switcher_opens_after_the_chord(
    platform: Platform,
    owners: Map<HeldKey, nat>,
    combo: KeyCombo,
    key: HeldKey,
)
    requires
        !(platform is Other),
        counts_positive(owners),
    ensures
        ({
            let chord = chord_key_list(platform, combo);
            let switcher = switcher_key_list(platform);
            let plan = retarget_plan(platform, HoldKind::Chord(combo), HoldKind::AppSwitcher);
            let posts = steps_posts(platform, owners, plan);
            let at_tap = steps_owners(platform, owners, plan.take(1));
            &&& posts == seq![
                transition_post(platform, owners, chord, switcher),
                tap_post(platform),
            ]
            &&& switcher.contains(key) ==> at_tap.contains_key(key)
            &&& chord.contains(key) && !switcher.contains(key) && owner_count(owners, key) == 1
                ==> !at_tap.contains_key(key)
        }),
{
    let chord = chord_key_list(platform, combo);
    let switcher = switcher_key_list(platform);
    let plan = retarget_plan(platform, HoldKind::Chord(combo), HoldKind::AppSwitcher);
    let posts = steps_posts(platform, owners, plan);
    reveal_with_fuel(steps_owners, 2);
    assert(plan.take(0) =~= seq![]);
    assert(plan.take(1).drop_last() =~= seq![]);
    assert(plan.take(1).last() == plan[0]);
    assert(posts =~= seq![transition_post(platform, owners, chord, switcher), tap_post(platform)]);
    lemma_occurs_iff_contained(chord, key);
    lemma_occurs_iff_contained(switcher, key);
}

/// On macOS no two held keys share a virtual key, so an edge of one is never
/// taken for an edge of another.
pub proof fn law_held_virtual_keys_distinct(a: HeldKey, b: HeldKey)
    requires
        held_vk(a) is Some,
        held_vk(a) == held_vk(b),
    ensures
        a == b,
{
    if let HeldKey::Key(usage_a) = a {
        if let HeldKey::Key(usage_b) = b {
            law_macos_keys_distinct(usage_a.code, usage_b.code);
        }
    }
}

/// On macOS a chord held from rest reaches its key under the same flags that a
/// tap of the chord carries.
pub proof fn law_held_chord_carries_its_flags(combo: KeyCombo)
    ensures
        ({
            let none = Map::<HeldKey, nat>::empty();
            let keys = chord_key_list(Platform::MacOs, combo);
            let post = transition_post(Platform::MacOs, none, seq![], keys);
            &&& post matches PostView::MacKeys(events)
            &&& events.len() == keys.len()
            &&& events.last() == match held_vk(HeldKey::Key(combo.key)) {
                Some(vk) => HeldKeyEvent::Post(
                    KeyEvent { vk, flags: chord_flags(combo) as u64, phase: KeyPhase::Down },
                ),
                None => HeldKeyEvent::Unmapped(HeldKey::Key(combo.key)),
            }
        }),
{
    let keys = chord_key_list(Platform::MacOs, combo);
    assert(keys.len() > 0 && keys.last() == HeldKey::Key(combo.key));
    lemma_press_from_rest(keys);
    lemma_chord_flags(combo);
}

/// The macOS events of a press from rest: a down edge for each key in order,
/// the last under the modifiers of them all.
proof fn lemma_press_from_rest(keys: Seq<HeldKey>)
    requires
        keys.len() > 0,
    ensures
        transition_post(Platform::MacOs, Map::empty(), seq![], keys) == PostView::MacKeys(
            edge_events(keys, KeyPhase::Down, Set::empty()),
        ),
        edge_events(keys, KeyPhase::Down, Set::empty()).last() == held_event(
            keys.last(),
            KeyPhase::Down,
            modifiers_after_all(Set::empty(), keys, true),
        ),
{
    let none = Map::<HeldKey, nat>::empty();
    let after = owners_after(none, seq![], keys);
    let empty = Seq::<HeldKey>::empty();
    let start = Set::<HeldKey>::empty();
    assert(owned_modifiers(none) =~= start);
    assert(crossing(empty, none, after) == empty) by {
        lemma_crossing_single(HeldKey::Alt, none, after);
    }
    assert(crossing(keys, after, none) == keys) by {
        assert forall|i: int| 0 <= i < keys.len() implies after.contains_key(#[trigger] keys[i])
            && !none.contains_key(keys[i]) by {
            lemma_occurs_iff_contained(keys, keys[i]);
        }
        lemma_crossing_all(keys, after, none);
    }
    assert(empty.reverse() =~= empty);
    assert(modifiers_after_all(start, empty, false) == start);
    assert(mac_hold_events(empty, keys, start) =~= edge_events(keys, KeyPhase::Down, start));
    assert(keys.take(keys.len() as int) =~= keys);
}

/// Holding the keys of a chord is holding the modifiers its flags name.
proof fn lemma_chord_flags(combo: KeyCombo)
    ensures
        held_flags(
            modifiers_after_all(Set::empty(), chord_key_list(Platform::MacOs, combo), true),
        ) == chord_flags(combo),
{
    let keys = chord_key_list(Platform::MacOs, combo);
    let start = Set::<HeldKey>::empty();
    lemma_chord_modifiers(combo);
    lemma_modifiers_after_all(start, keys, true, HeldKey::Command);
    lemma_modifiers_after_all(start, keys, true, HeldKey::Control);
    lemma_modifiers_after_all(start, keys, true, HeldKey::Shift);
    lemma_modifiers_after_all(start, keys, true, HeldKey::Alt);
}

/// On macOS a chord owns exactly the modifiers it names.
proof fn lemma_chord_modifiers(combo: KeyCombo)
    ensures
        chord_key_list(Platform::MacOs, combo).contains(HeldKey::Command) == combo.command,
        chord_key_list(Platform::MacOs, combo).contains(HeldKey::Control) == combo.control,
        chord_key_list(Platform::MacOs, combo).contains(HeldKey::Shift) == combo.shift,
        chord_key_list(Platform::MacOs, combo).contains(HeldKey::Alt) == combo.option,
{
    let keys = chord_key_list(Platform::MacOs, combo);
    let n = keys.len() as int;
    if combo.command {
        assert(keys[0] == HeldKey::Command);
    }
    if combo.control {
        assert(keys[if combo.command { 1int } else { 0int }] == HeldKey::Control);
    }
    if combo.option {
        assert(keys[n - 2] == HeldKey::Alt);
    }
    if combo.shift {
        assert(keys[if combo.option { n - 3 } else { n - 2 }] == HeldKey::Shift);
    }
}

/// Keys that are all owned in `from` and not in `to` are all reported.
proof fn lemma_crossing_all(keys: Seq<HeldKey>, from: Map<HeldKey, nat>, to: Map<HeldKey, nat>)
    requires
        forall|i: int|
            0 <= i < keys.len() ==> from.contains_key(#[trigger] keys[i]) && !to.contains_key(
                keys[i],
            ),
    ensures
        crossing(keys, from, to) == keys,
    decreases keys.len(),
{
    reveal(Seq::filter);
    if keys.len() > 0 {
        let rest = keys.drop_last();
        assert forall|i: int| 0 <= i < rest.len() implies from.contains_key(#[trigger] rest[i])
            && !to.contains_key(rest[i]) by {
            assert(rest[i] == keys[i]);
        }
        lemma_crossing_all(rest, from, to);
        assert(keys[keys.len() - 1] == keys.last());
        assert(rest.push(keys.last()) =~= keys);
    }
}

} // verus!
