//! The keyboard as the posts leave it: which edge each key gets, and when.

use vstd::prelude::*;

use crate::binding::{HoldKind, Platform};
use crate::effects::flag_bits;
use crate::held::{
    count_after, counts_fit, counts_positive, crossing, modifiers_after, occurrences,
    owned_modifiers, owners_after, HeldKey, HeldKeyOwners, KeyPhase,
};
use crate::hold::{
    batch_fits, held_key_list, lemma_press_owners, lemma_steps_in_a_row, mac_hold_events,
    owners_held, post_views, press_plan, release_plan, retarget_plan, step_fits, step_owners,
    step_post, step_views, steps_owners, steps_posts, tap_post, transition_post, HoldStep, Post,
    PostView, StepView,
};
use crate::keymap::macos_key;
use crate::laws::{
    in_order_of, law_edges_track_ownership, law_held_keys_distinct, law_held_virtual_keys_distinct,
    law_one_edge_in_order, law_retarget_counts_as_one_batch, lemma_crossing_occurrences,
    lemma_modifiers_after_all, lemma_occurrences_counted, lemma_reverse_contains,
};
use crate::macos::{
    edge_events, edge_order, held_event, held_vk, modifiers_after_all, HeldKeyEvent,
};

verus! {

/// Whether an output holds a key down. The switcher holds the modifier that
/// keeps it open. A chord holds its key and its modifiers; off macOS Command is
/// Control's key.
pub open spec fn output_holds(platform: Platform, kind: HoldKind, key: HeldKey) -> bool {
    match kind {
        HoldKind::AppSwitcher => match platform {
            Platform::MacOs => key == HeldKey::Command,
            Platform::Linux => key == HeldKey::Alt,
            Platform::Windows => key == HeldKey::Alt,
            Platform::Other => false,
        },
        HoldKind::Chord(combo) => match key {
            HeldKey::Command => platform == Platform::MacOs && combo.command,
            HeldKey::Control => match platform {
                Platform::MacOs => combo.control,
                Platform::Other => false,
                _ => combo.control || combo.command,
            },
            HeldKey::Shift => combo.shift,
            HeldKey::Alt => combo.option,
            HeldKey::Key(usage) => usage == combo.key,
        },
    }
}

/// The place a key has in a chord: the four modifiers, then the key.
pub open spec fn place(key: HeldKey) -> int {
    match key {
        HeldKey::Command => 0,
        HeldKey::Control => 1,
        HeldKey::Shift => 2,
        HeldKey::Alt => 3,
        HeldKey::Key(_) => 4,
    }
}

/// The keys an output lists are those it holds, each once, modifiers before the
/// key and in their order.
pub proof fn law_outputs_list_what_they_hold(platform: Platform, kind: HoldKind)
    ensures
        forall|key: HeldKey| #[trigger]
            held_key_list(platform, kind).contains(key) <==> output_holds(platform, kind, key),
        forall|i: int, j: int|
            0 <= i < j < held_key_list(platform, kind).len() ==> place(
                #[trigger] held_key_list(platform, kind)[i],
            ) < place(#[trigger] held_key_list(platform, kind)[j]),
{
    let keys = held_key_list(platform, kind);
    assert forall|key: HeldKey| #[trigger]
        keys.contains(key) <==> output_holds(platform, kind, key) by {
        match kind {
            HoldKind::AppSwitcher => {
                if output_holds(platform, kind, key) {
                    assert(keys[0] == key);
                }
            },
            HoldKind::Chord(combo) => {
                let control = if platform is MacOs {
                    combo.control
                } else {
                    (combo.control || combo.command) && !(platform is Other)
                };
                let first = if platform is MacOs && combo.command {
                    1int
                } else {
                    0int
                };
                let second = first + if control {
                    1int
                } else {
                    0int
                };
                let third = second + if combo.shift {
                    1int
                } else {
                    0int
                };
                let fourth = third + if combo.option {
                    1int
                } else {
                    0int
                };
                assert(keys.len() == fourth + 1);
                assert(keys[fourth] == HeldKey::Key(combo.key));
                if combo.option {
                    assert(keys[third] == HeldKey::Alt);
                }
                if combo.shift {
                    assert(keys[second] == HeldKey::Shift);
                }
                if control {
                    assert(keys[first] == HeldKey::Control);
                }
                if platform is MacOs && combo.command {
                    assert(keys[0] == HeldKey::Command);
                }
            },
        }
    }
}

/// How many owners a key is recorded with.
pub open spec fn owners_of(owners: Map<HeldKey, nat>, key: HeldKey) -> int {
    if owners.contains_key(key) {
        owners[key] as int
    } else {
        0
    }
}

/// A batch takes an owner away for every time a key is released, down to none,
/// and adds one for every time it is pressed. A key is recorded exactly while
/// it has an owner.
pub proof fn law_counts_follow_the_batch(
    owners: Map<HeldKey, nat>,
    released: Seq<HeldKey>,
    pressed: Seq<HeldKey>,
    key: HeldKey,
)
    requires
        counts_positive(owners),
    ensures
        ({
            let after = owners_after(owners, released, pressed);
            let left = owners_of(owners, key) - released.to_multiset().count(key);
            &&& owners_of(after, key) == (if left > 0 {
                left
            } else {
                0
            }) + pressed.to_multiset().count(key)
            &&& after.contains_key(key) <==> owners_of(after, key) > 0
        }),
{
    lemma_occurrences_counted(released, key);
    lemma_occurrences_counted(pressed, key);
}

/// A batch fits exactly where no key ends with more owners than a machine
/// number can count.
pub proof fn law_batch_fits_where_every_count_does(
    owners: Map<HeldKey, nat>,
    released: Seq<HeldKey>,
    pressed: Seq<HeldKey>,
)
    ensures
        counts_fit(owners, released, pressed) <==> forall|key: HeldKey|
            (if owners_of(owners, key) > released.to_multiset().count(key) {
                owners_of(owners, key) - released.to_multiset().count(key)
            } else {
                0
            }) + #[trigger] pressed.to_multiset().count(key) <= usize::MAX,
{
    assert forall|key: HeldKey| #[trigger]
        count_after(owners, released, pressed, key) == (if owners_of(owners, key)
            > released.to_multiset().count(key) {
            owners_of(owners, key) - released.to_multiset().count(key)
        } else {
            0
        }) + #[trigger] pressed.to_multiset().count(key) by {
        lemma_occurrences_counted(released, key);
        lemma_occurrences_counted(pressed, key);
    }
    if counts_fit(owners, released, pressed) {
        assert forall|key: HeldKey|
            (if owners_of(owners, key) > released.to_multiset().count(key) {
                owners_of(owners, key) - released.to_multiset().count(key)
            } else {
                0
            }) + #[trigger] pressed.to_multiset().count(key) <= usize::MAX by {
            assert(count_after(owners, released, pressed, key) <= usize::MAX);
        }
    } else {
        let key = choose|key: HeldKey| #[trigger]
            count_after(owners, released, pressed, key) > usize::MAX;
        assert(pressed.to_multiset().count(key) >= 0);
    }
}

/// The macOS virtual key of a physical key.
#[verifier::opaque]
pub open spec fn vk_of(key: HeldKey) -> Option<u16> {
    match key {
        HeldKey::Command => Some(0x37u16),
        HeldKey::Shift => Some(0x38u16),
        HeldKey::Alt => Some(0x3au16),
        HeldKey::Control => Some(0x3bu16),
        HeldKey::Key(usage) => macos_key(usage.code),
    }
}

/// The modifiers of macOS have their own virtual keys, which no usage shares.
pub proof fn law_physical_keys_have_their_virtual_key(key: HeldKey, code: u8)
    ensures
        held_vk(key) == vk_of(key),
        macos_key(code) != Some(0x37u16),
        macos_key(code) != Some(0x38u16),
        macos_key(code) != Some(0x3au16),
        macos_key(code) != Some(0x3bu16),
{
    reveal(vk_of);
}

/// The modifiers are the four keys that are no usage; an edge of one changes
/// that one alone, an edge of any other key none, and those owned are those
/// held.
pub proof fn law_modifiers_are_the_four(
    modifiers: Set<HeldKey>,
    owners: Map<HeldKey, nat>,
    key: HeldKey,
    held: bool,
    other: HeldKey,
)
    ensures
        ({
            let four = |k: HeldKey|
                k == HeldKey::Command || k == HeldKey::Control || k == HeldKey::Shift || k
                    == HeldKey::Alt;
            &&& key.is_modifier() <==> four(key)
            &&& modifiers_after(modifiers, key, held).contains(other) == if four(key) && other
                == key {
                held
            } else {
                modifiers.contains(other)
            }
            &&& owned_modifiers(owners).contains(key) <==> four(key) && owners.contains_key(key)
        }),
{
}

/// Whether an event posts an edge of a key.
pub open spec fn posts_edge(event: HeldKeyEvent, key: HeldKey, phase: KeyPhase) -> bool {
    event matches HeldKeyEvent::Post(e) && Some(e.vk) == vk_of(key) && e.phase == phase
}

/// Whether an event is what an edge of a key comes to: the edge, or the report
/// that the key has no virtual key.
pub open spec fn is_event_of(event: HeldKeyEvent, key: HeldKey, phase: KeyPhase) -> bool {
    match vk_of(key) {
        Some(_) => posts_edge(event, key, phase),
        None => event == HeldKeyEvent::Unmapped(key),
    }
}

/// An event is of one key and one phase.
proof fn lemma_event_is_of_one_key(
    event: HeldKeyEvent,
    a: HeldKey,
    a_phase: KeyPhase,
    b: HeldKey,
    b_phase: KeyPhase,
)
    requires
        is_event_of(event, a, a_phase),
        posts_edge(event, b, b_phase),
    ensures
        a == b,
        a_phase == b_phase,
{
    law_physical_keys_have_their_virtual_key(a, 0);
    law_physical_keys_have_their_virtual_key(b, 0);
    law_held_virtual_keys_distinct(a, b);
}

/// A modifier has a virtual key.
proof fn lemma_modifiers_are_mapped(key: HeldKey)
    requires
        key.is_modifier(),
    ensures
        vk_of(key) is Some,
{
    reveal(vk_of);
}

/// Whether a post holds an edge of a key.
pub open spec fn has_edge(post: PostView, key: HeldKey, phase: KeyPhase) -> bool {
    match post {
        PostView::HoldKeys { up, down } => match phase {
            KeyPhase::Up => up.contains(key),
            KeyPhase::Down => down.contains(key),
        },
        PostView::MacKeys(events) => exists|i: int|
            0 <= i < events.len() && posts_edge(#[trigger] events[i], key, phase),
        _ => false,
    }
}

/// The keys of a Linux or Windows post are exactly those that the batch took
/// from owned to not owned, to lift, and from not owned to owned, to press. So
/// where the keys that are down are the owned ones, they still are once the
/// post is made. Each is listed as often as the batch names it.
pub proof fn law_posts_lift_and_press_what_changed(
    platform: Platform,
    owners: Map<HeldKey, nat>,
    released: Seq<HeldKey>,
    pressed: Seq<HeldKey>,
)
    requires
        platform == Platform::Linux || platform == Platform::Windows,
        counts_positive(owners),
    ensures
        ({
            let after = owners_held(platform, owners, released, pressed);
            transition_post(platform, owners, released, pressed) matches PostView::HoldKeys {
                up,
                down,
            } && {
                &&& forall|key: HeldKey| #[trigger]
                    up.contains(key) <==> owners.contains_key(key) && !after.contains_key(key)
                &&& forall|key: HeldKey| #[trigger]
                    down.contains(key) <==> !owners.contains_key(key) && after.contains_key(key)
                &&& owners.dom().difference(up.to_set()).union(down.to_set()) == after.dom()
                &&& forall|key: HeldKey|
                    up.contains(key) ==> #[trigger] up.to_multiset().count(key)
                        == released.to_multiset().count(key)
                &&& forall|key: HeldKey|
                    down.contains(key) ==> #[trigger] down.to_multiset().count(key)
                        == pressed.to_multiset().count(key)
            }
        }),
{
    let after = owners_after(owners, released, pressed);
    let up = crossing(released, owners, after);
    let down = crossing(pressed, after, owners);
    assert forall|key: HeldKey| #[trigger]
        up.contains(key) <==> owners.contains_key(key) && !after.contains_key(key) by {
        law_edges_track_ownership(owners, released, pressed, key);
    }
    assert forall|key: HeldKey| #[trigger]
        down.contains(key) <==> !owners.contains_key(key) && after.contains_key(key) by {
        law_edges_track_ownership(owners, released, pressed, key);
    }
    assert(owners.dom().difference(up.to_set()).union(down.to_set()) =~= after.dom()) by {
        assert forall|key: HeldKey|
            owners.dom().difference(up.to_set()).union(down.to_set()).contains(key)
                == after.dom().contains(key) by {
            assert(up.to_set().contains(key) == up.contains(key));
            assert(down.to_set().contains(key) == down.contains(key));
        }
    }
    assert forall|key: HeldKey| up.contains(key) implies #[trigger] up.to_multiset().count(key)
        == released.to_multiset().count(key) by {
        lemma_occurrences_counted(up, key);
        lemma_occurrences_counted(released, key);
        lemma_crossing_occurrences(released, owners, after, key);
    }
    assert forall|key: HeldKey| down.contains(key) implies #[trigger] down.to_multiset().count(key)
        == pressed.to_multiset().count(key) by {
        lemma_occurrences_counted(down, key);
        lemma_occurrences_counted(pressed, key);
        lemma_crossing_occurrences(pressed, after, owners, key);
    }
}

/// Where a batch names no key twice, neither does its post, and the keys stand
/// in the order the batch names them in.
pub proof fn law_posts_keep_the_order_of_the_batch(
    platform: Platform,
    owners: Map<HeldKey, nat>,
    released: Seq<HeldKey>,
    pressed: Seq<HeldKey>,
)
    requires
        platform == Platform::Linux || platform == Platform::Windows,
        counts_positive(owners),
        released.no_duplicates(),
        pressed.no_duplicates(),
    ensures
        transition_post(platform, owners, released, pressed) matches PostView::HoldKeys {
            up,
            down,
        } && up.no_duplicates() && down.no_duplicates() && in_order_of(up, released)
            && in_order_of(down, pressed),
{
    law_one_edge_in_order(owners, released, pressed);
}

/// What crosses of a list is what crosses of its front part, and then its last
/// key where that one crosses.
pub proof fn law_edges_come_in_the_order_of_the_list(
    keys: Seq<HeldKey>,
    key: HeldKey,
    from: Map<HeldKey, nat>,
    to: Map<HeldKey, nat>,
)
    ensures
        crossing(keys.push(key), from, to) == crossing(keys, from, to) + (if from.contains_key(key)
            && !to.contains_key(key) {
            seq![key]
        } else {
            Seq::<HeldKey>::empty()
        }),
        crossing(Seq::empty(), from, to) == Seq::<HeldKey>::empty(),
{
    reveal(Seq::filter);
    assert(keys.push(key).drop_last() =~= keys);
    assert(crossing(keys.push(key), from, to) =~= crossing(keys, from, to) + (
    if from.contains_key(key) && !to.contains_key(key) {
        seq![key]
    } else {
        Seq::<HeldKey>::empty()
    }));
}

/// macOS posts the edges that Linux posts for the same batch, one event for
/// each: first the keys that come up, the last of them first, and after them
/// the keys that go down, in order.
pub proof fn law_mac_events_follow_the_edges(
    owners: Map<HeldKey, nat>,
    released: Seq<HeldKey>,
    pressed: Seq<HeldKey>,
)
    ensures
        transition_post(Platform::Linux, owners, released, pressed) matches PostView::HoldKeys {
            up,
            down,
        } && (transition_post(Platform::MacOs, owners, released, pressed) matches PostView::MacKeys(
            events,
        ) && {
            &&& events.len() == up.len() + down.len()
            &&& forall|i: int|
                0 <= i < up.len() ==> is_event_of(
                    #[trigger] events[i],
                    up[up.len() - 1 - i],
                    KeyPhase::Up,
                )
            &&& forall|i: int|
                up.len() <= i < events.len() ==> is_event_of(
                    #[trigger] events[i],
                    down[i - up.len()],
                    KeyPhase::Down,
                )
        }),
        transition_post(Platform::Windows, owners, released, pressed) == transition_post(
            Platform::Linux,
            owners,
            released,
            pressed,
        ),
        transition_post(Platform::Other, owners, released, pressed) is Unsupported,
{
    reveal(vk_of);
}

/// The first events of a batch post an edge of a key exactly where the key is
/// among those the events are of.
proof fn lemma_edges_so_far(
    up: Seq<HeldKey>,
    down: Seq<HeldKey>,
    events: Seq<HeldKeyEvent>,
    n: int,
    key: HeldKey,
)
    requires
        vk_of(key) is Some,
        events.len() == up.len() + down.len(),
        0 <= n <= events.len(),
        forall|i: int|
            0 <= i < up.len() ==> is_event_of(
                #[trigger] events[i],
                up[up.len() - 1 - i],
                KeyPhase::Up,
            ),
        forall|i: int|
            up.len() <= i < events.len() ==> is_event_of(
                #[trigger] events[i],
                down[i - up.len()],
                KeyPhase::Down,
            ),
    ensures
        has_edge(PostView::MacKeys(events.take(n)), key, KeyPhase::Up) == up.reverse().take(
            if n < up.len() {
                n
            } else {
                up.len() as int
            },
        ).contains(key),
        has_edge(PostView::MacKeys(events.take(n)), key, KeyPhase::Down) == down.take(
            if n < up.len() {
                0
            } else {
                n - up.len()
            },
        ).contains(key),
{
    let so_far = events.take(n);
    let ups = up.reverse().take(
        if n < up.len() {
            n
        } else {
            up.len() as int
        },
    );
    let downs = down.take(
        if n < up.len() {
            0
        } else {
            n - up.len()
        },
    );
    if ups.contains(key) {
        let i = choose|i: int| 0 <= i < ups.len() && ups[i] == key;
        assert(is_event_of(events[i], up[up.len() - 1 - i], KeyPhase::Up));
        assert(so_far[i] == events[i]);
        assert(posts_edge(so_far[i], key, KeyPhase::Up));
    }
    if downs.contains(key) {
        let j = choose|j: int| 0 <= j < downs.len() && downs[j] == key;
        let i = up.len() + j;
        assert(is_event_of(events[i], down[i - up.len()], KeyPhase::Down));
        assert(so_far[i] == events[i]);
        assert(posts_edge(so_far[i], key, KeyPhase::Down));
    }
    if has_edge(PostView::MacKeys(so_far), key, KeyPhase::Up) {
        let i = choose|i: int|
            0 <= i < so_far.len() && posts_edge(#[trigger] so_far[i], key, KeyPhase::Up);
        assert(so_far[i] == events[i]);
        if i < up.len() {
            lemma_event_is_of_one_key(
                events[i],
                up[up.len() - 1 - i],
                KeyPhase::Up,
                key,
                KeyPhase::Up,
            );
            assert(ups[i] == key);
        } else {
            lemma_event_is_of_one_key(
                events[i],
                down[i - up.len()],
                KeyPhase::Down,
                key,
                KeyPhase::Up,
            );
        }
    }
    if has_edge(PostView::MacKeys(so_far), key, KeyPhase::Down) {
        let i = choose|i: int|
            0 <= i < so_far.len() && posts_edge(#[trigger] so_far[i], key, KeyPhase::Down);
        assert(so_far[i] == events[i]);
        if i < up.len() {
            lemma_event_is_of_one_key(
                events[i],
                up[up.len() - 1 - i],
                KeyPhase::Up,
                key,
                KeyPhase::Down,
            );
        } else {
            lemma_event_is_of_one_key(
                events[i],
                down[i - up.len()],
                KeyPhase::Down,
                key,
                KeyPhase::Down,
            );
            assert(downs[i - up.len()] == key);
        }
    }
}

/// Whether a modifier is down once the event at `n` is posted: it went down
/// with one of the events so far, or it was owned and has not come up.
pub open spec fn is_down_at(
    owners: Map<HeldKey, nat>,
    events: Seq<HeldKeyEvent>,
    n: int,
    modifier: HeldKey,
) -> bool {
    ||| has_edge(PostView::MacKeys(events.take(n + 1)), modifier, KeyPhase::Down)
    ||| owners.contains_key(modifier) && !has_edge(
        PostView::MacKeys(events.take(n + 1)),
        modifier,
        KeyPhase::Up,
    )
}

/// Every event of a batch carries the flags of exactly the modifiers that are
/// physically down once it is posted.
pub proof fn law_mac_events_carry_what_is_down(
    owners: Map<HeldKey, nat>,
    released: Seq<HeldKey>,
    pressed: Seq<HeldKey>,
    n: int,
)
    requires
        counts_positive(owners),
    ensures
        transition_post(Platform::MacOs, owners, released, pressed) matches PostView::MacKeys(
            events,
        ) && (0 <= n < events.len() ==> (events[n] matches HeldKeyEvent::Post(event) ==> event.flags
            == flag_bits(
            is_down_at(owners, events, n, HeldKey::Command),
            is_down_at(owners, events, n, HeldKey::Control),
            is_down_at(owners, events, n, HeldKey::Shift),
            is_down_at(owners, events, n, HeldKey::Alt),
        ))),
{
    let after = owners_after(owners, released, pressed);
    let up = crossing(released, owners, after);
    let down = crossing(pressed, after, owners);
    let events = mac_hold_events(up, down, owned_modifiers(owners));
    assert(events.len() == up.len() + down.len());
    if 0 <= n < events.len() {
        lemma_modifier_at(owners, released, pressed, n, HeldKey::Command);
        lemma_modifier_at(owners, released, pressed, n, HeldKey::Control);
        lemma_modifier_at(owners, released, pressed, n, HeldKey::Shift);
        lemma_modifier_at(owners, released, pressed, n, HeldKey::Alt);
    }
}

/// The modifiers that the event at `n` is posted under.
spec fn modifiers_at(
    owners: Map<HeldKey, nat>,
    released: Seq<HeldKey>,
    pressed: Seq<HeldKey>,
    n: int,
) -> Set<HeldKey> {
    let after = owners_after(owners, released, pressed);
    let up = crossing(released, owners, after);
    let down = crossing(pressed, after, owners);
    let start = owned_modifiers(owners);
    if n < up.len() {
        modifiers_after_all(start, up.reverse().take(n + 1), false)
    } else {
        modifiers_after_all(
            modifiers_after_all(start, up.reverse(), false),
            down.take(n - up.len() + 1),
            true,
        )
    }
}

/// The modifiers an event is posted under are those that are down.
proof fn lemma_modifier_at(
    owners: Map<HeldKey, nat>,
    released: Seq<HeldKey>,
    pressed: Seq<HeldKey>,
    n: int,
    modifier: HeldKey,
)
    requires
        counts_positive(owners),
        modifier.is_modifier(),
        ({
            let after = owners_after(owners, released, pressed);
            let up = crossing(released, owners, after);
            let down = crossing(pressed, after, owners);
            0 <= n < up.len() + down.len()
        }),
    ensures
        ({
            let after = owners_after(owners, released, pressed);
            let up = crossing(released, owners, after);
            let down = crossing(pressed, after, owners);
            let events = mac_hold_events(up, down, owned_modifiers(owners));
            modifiers_at(owners, released, pressed, n).contains(modifier) == is_down_at(
                owners,
                events,
                n,
                modifier,
            )
        }),
{
    let after = owners_after(owners, released, pressed);
    let up = crossing(released, owners, after);
    let down = crossing(pressed, after, owners);
    let start = owned_modifiers(owners);
    let events = mac_hold_events(up, down, start);
    let lifted = up.reverse();
    law_edges_track_ownership(owners, released, pressed, modifier);
    law_mac_events_follow_the_edges(owners, released, pressed);
    lemma_modifiers_are_mapped(modifier);
    lemma_edges_so_far(up, down, events, n + 1, modifier);
    lemma_reverse_contains(up, modifier);
    if n < up.len() {
        lemma_modifiers_after_all(start, lifted.take(n + 1), false, modifier);
        assert(!down.take(0).contains(modifier));
    } else {
        assert(lifted.take(up.len() as int) =~= lifted);
        lemma_modifiers_after_all(start, lifted, false, modifier);
        lemma_modifiers_after_all(
            modifiers_after_all(start, lifted, false),
            down.take(n - up.len() + 1),
            true,
            modifier,
        );
    }
}

/// On every platform a batch posts an up edge of exactly the keys that lose
/// their last owner, and a down edge of exactly those that gain their first. On
/// macOS that is said of the keys that have a virtual key.
pub proof fn law_every_change_has_its_edge(
    platform: Platform,
    owners: Map<HeldKey, nat>,
    released: Seq<HeldKey>,
    pressed: Seq<HeldKey>,
    key: HeldKey,
)
    requires
        platform != Platform::Other,
        platform == Platform::MacOs ==> vk_of(key) is Some,
        counts_positive(owners),
    ensures
        ({
            let post = transition_post(platform, owners, released, pressed);
            let after = owners_held(platform, owners, released, pressed);
            &&& has_edge(post, key, KeyPhase::Up) <==> owners.contains_key(key)
                && !after.contains_key(key)
            &&& has_edge(post, key, KeyPhase::Down) <==> !owners.contains_key(key)
                && after.contains_key(key)
        }),
{
    let after = owners_after(owners, released, pressed);
    let up = crossing(released, owners, after);
    let down = crossing(pressed, after, owners);
    law_edges_track_ownership(owners, released, pressed, key);
    if platform is MacOs {
        law_mac_events_follow_the_edges(owners, released, pressed);
        let events = mac_hold_events(up, down, owned_modifiers(owners));
        lemma_edges_so_far(up, down, events, events.len() as int, key);
        lemma_reverse_contains(up, key);
        assert(events.take(events.len() as int) =~= events);
        assert(up.reverse().take(up.len() as int) =~= up.reverse());
        assert(down.take(down.len() as int) =~= down);
    }
}

/// Whether a post is the tap that opens the switcher: on macOS Tab down and up
/// under the Command flag alone, elsewhere the backend's own tap.
pub open spec fn is_switcher_tap(platform: Platform, post: PostView) -> bool {
    match platform {
        Platform::MacOs => post matches PostView::MacKeys(events) && {
            &&& events.len() == 2
            &&& events[0] matches HeldKeyEvent::Post(down)
            &&& events[1] matches HeldKeyEvent::Post(up)
            &&& down.vk == 0x30
            &&& up.vk == 0x30
            &&& down.flags == 0x10_0000
            &&& up.flags == 0x10_0000
            &&& down.phase == KeyPhase::Down
            &&& up.phase == KeyPhase::Up
        },
        Platform::Linux => post is TapSwitcher,
        Platform::Windows => post is TapSwitcher,
        Platform::Other => post is Nothing,
    }
}

/// The switcher is opened by one tap.
pub proof fn law_switcher_opens_with_a_tap(platform: Platform)
    ensures
        is_switcher_tap(platform, tap_post(platform)),
{
}

/// Whether an output holds a key, as a number of owners.
pub open spec fn holds(platform: Platform, kind: HoldKind, key: HeldKey) -> int {
    if output_holds(platform, kind, key) {
        1
    } else {
        0
    }
}

/// How often an output's list names a key.
proof fn lemma_listed_once(platform: Platform, kind: HoldKind, key: HeldKey)
    ensures
        occurrences(held_key_list(platform, kind), key) == holds(platform, kind, key),
        occurrences(Seq::<HeldKey>::empty(), key) == 0,
{
    law_outputs_list_what_they_hold(platform, kind);
    law_held_keys_distinct(platform, kind);
    assert(held_key_list(platform, kind).contains(key) == output_holds(platform, kind, key));
}

/// Pressing an output adds an owner to each key it holds and to no other. The
/// press lifts nothing and puts down exactly the keys that nothing held before;
/// the tap that opens a switcher comes after it.
pub proof fn law_press_puts_down_what_was_free(
    platform: Platform,
    owners: Map<HeldKey, nat>,
    kind: HoldKind,
    key: HeldKey,
)
    requires
        platform != Platform::Other,
        platform == Platform::MacOs ==> vk_of(key) is Some,
        counts_positive(owners),
    ensures
        ({
            let posts = steps_posts(platform, owners, press_plan(platform, kind));
            let after = owners_held(platform, owners, seq![], held_key_list(platform, kind));
            &&& posts.len() == if kind is AppSwitcher {
                2int
            } else {
                1int
            }
            &&& !has_edge(posts[0], key, KeyPhase::Up)
            &&& has_edge(posts[0], key, KeyPhase::Down) <==> output_holds(platform, kind, key)
                && !owners.contains_key(key)
            &&& kind is AppSwitcher ==> is_switcher_tap(platform, posts[1])
            &&& owners_of(after, key) == owners_of(owners, key) + holds(platform, kind, key)
        }),
{
    let plan = press_plan(platform, kind);
    let keys = held_key_list(platform, kind);
    lemma_listed_once(platform, kind, key);
    assert(plan.take(0) =~= seq![]);
    law_every_change_has_its_edge(platform, owners, seq![], keys, key);
}

/// Releasing an output takes an owner from each key it holds and from no other.
/// It presses nothing and lifts exactly the keys that nothing else holds.
pub proof fn law_release_lifts_what_nothing_else_holds(
    platform: Platform,
    owners: Map<HeldKey, nat>,
    kind: HoldKind,
    key: HeldKey,
)
    requires
        platform != Platform::Other,
        platform == Platform::MacOs ==> vk_of(key) is Some,
        counts_positive(owners),
        output_holds(platform, kind, key) ==> owners.contains_key(key),
    ensures
        ({
            let keys = held_key_list(platform, kind);
            let post = transition_post(platform, owners, keys, seq![]);
            let after = owners_held(platform, owners, keys, seq![]);
            &&& !has_edge(post, key, KeyPhase::Down)
            &&& has_edge(post, key, KeyPhase::Up) <==> output_holds(platform, kind, key)
                && owners_of(owners, key) == 1
            &&& owners_of(after, key) == owners_of(owners, key) - holds(platform, kind, key)
        }),
{
    let keys = held_key_list(platform, kind);
    lemma_listed_once(platform, kind, key);
    law_every_change_has_its_edge(platform, owners, keys, seq![], key);
}

/// Repointing a press moves an owner from each key of the old output to each of
/// the new.
///
/// - From a chord it is one post: up the keys of the old output that nothing
///   else holds and the new one does not take over, down the keys of the new
///   one that nothing held. A key that both hold has no edge. Where the new one
///   is the switcher, its tap comes last.
/// - From the switcher to a chord it is two: first the switcher's modifier
///   comes up, where nothing else holds it, even if the chord wants it too;
///   then the keys of the chord go down that are not down by now.
/// - From the switcher to itself it is none.
pub proof fn law_retarget_moves_what_is_not_shared(
    platform: Platform,
    owners: Map<HeldKey, nat>,
    previous: HoldKind,
    next: HoldKind,
    key: HeldKey,
)
    requires
        platform != Platform::Other,
        platform == Platform::MacOs ==> vk_of(key) is Some,
        counts_positive(owners),
        forall|held: HeldKey| #[trigger]
            output_holds(platform, previous, held) ==> owners.contains_key(held),
    ensures
        ({
            let plan = retarget_plan(platform, previous, next);
            let posts = steps_posts(platform, owners, plan);
            let after = steps_owners(platform, owners, plan);
            let old_holds = output_holds(platform, previous, key);
            let new_holds = output_holds(platform, next, key);
            let freed = old_holds && owners_of(owners, key) == 1;
            &&& owners_of(after, key) == owners_of(owners, key) - holds(platform, previous, key)
                + holds(platform, next, key)
            &&& match (previous, next) {
                (HoldKind::Chord(_), _) => {
                    &&& posts.len() == if next is AppSwitcher {
                        2int
                    } else {
                        1int
                    }
                    &&& has_edge(posts[0], key, KeyPhase::Up) <==> freed && !new_holds
                    &&& has_edge(posts[0], key, KeyPhase::Down) <==> new_holds
                        && !owners.contains_key(key)
                    &&& next is AppSwitcher ==> is_switcher_tap(platform, posts[1])
                },
                (HoldKind::AppSwitcher, HoldKind::Chord(_)) => {
                    &&& posts.len() == 2
                    &&& has_edge(posts[0], key, KeyPhase::Up) <==> freed
                    &&& !has_edge(posts[0], key, KeyPhase::Down)
                    &&& !has_edge(posts[1], key, KeyPhase::Up)
                    &&& has_edge(posts[1], key, KeyPhase::Down) <==> new_holds && (freed
                        || !owners.contains_key(key))
                },
                (HoldKind::AppSwitcher, HoldKind::AppSwitcher) => posts.len() == 0,
            }
        }),
{
    let plan = retarget_plan(platform, previous, next);
    lemma_listed_once(platform, previous, key);
    lemma_listed_once(platform, next, key);
    assert forall|held: HeldKey| #[trigger]
        held_key_list(platform, previous).contains(held) implies platform is Other
        || owners.contains_key(held) by {
        law_outputs_list_what_they_hold(platform, previous);
        assert(output_holds(platform, previous, held));
    }
    law_retarget_counts_as_one_batch(platform, owners, previous, next);
    match (previous, next) {
        (HoldKind::Chord(_), _) => {
            assert(plan.take(0) =~= seq![]);
            lemma_one_batch_edges(platform, owners, previous, next, key);
        },
        (HoldKind::AppSwitcher, HoldKind::Chord(_)) => {
            assert(plan.take(0) =~= seq![]);
            assert(plan.take(1).drop_last() =~= seq![]);
            assert(plan.take(1).last() == plan[0]);
            reveal_with_fuel(steps_owners, 2);
            lemma_two_batch_edges(platform, owners, previous, next, key);
        },
        (HoldKind::AppSwitcher, HoldKind::AppSwitcher) => {},
    }
}

/// The edges of one batch between two outputs.
proof fn lemma_one_batch_edges(
    platform: Platform,
    owners: Map<HeldKey, nat>,
    previous: HoldKind,
    next: HoldKind,
    key: HeldKey,
)
    requires
        platform != Platform::Other,
        platform == Platform::MacOs ==> vk_of(key) is Some,
        counts_positive(owners),
        output_holds(platform, previous, key) ==> owners.contains_key(key),
    ensures
        ({
            let post = transition_post(
                platform,
                owners,
                held_key_list(platform, previous),
                held_key_list(platform, next),
            );
            &&& has_edge(post, key, KeyPhase::Up) <==> output_holds(platform, previous, key)
                && owners_of(owners, key) == 1 && !output_holds(platform, next, key)
            &&& has_edge(post, key, KeyPhase::Down) <==> output_holds(platform, next, key)
                && !owners.contains_key(key)
        }),
{
    lemma_listed_once(platform, previous, key);
    lemma_listed_once(platform, next, key);
    law_every_change_has_its_edge(
        platform,
        owners,
        held_key_list(platform, previous),
        held_key_list(platform, next),
        key,
    );
}

/// The edges of two batches, the first of which releases one output and the
/// second of which presses another.
proof fn lemma_two_batch_edges(
    platform: Platform,
    owners: Map<HeldKey, nat>,
    previous: HoldKind,
    next: HoldKind,
    key: HeldKey,
)
    requires
        platform != Platform::Other,
        platform == Platform::MacOs ==> vk_of(key) is Some,
        counts_positive(owners),
        output_holds(platform, previous, key) ==> owners.contains_key(key),
    ensures
        ({
            let from = held_key_list(platform, previous);
            let to = held_key_list(platform, next);
            let middle = owners_held(platform, owners, from, seq![]);
            let first = transition_post(platform, owners, from, seq![]);
            let second = transition_post(platform, middle, seq![], to);
            let freed = output_holds(platform, previous, key) && owners_of(owners, key) == 1;
            &&& has_edge(first, key, KeyPhase::Up) <==> freed
            &&& !has_edge(first, key, KeyPhase::Down)
            &&& !has_edge(second, key, KeyPhase::Up)
            &&& has_edge(second, key, KeyPhase::Down) <==> output_holds(platform, next, key) && (
            freed || !owners.contains_key(key))
        }),
{
    let from = held_key_list(platform, previous);
    let to = held_key_list(platform, next);
    let middle = owners_held(platform, owners, from, seq![]);
    lemma_listed_once(platform, previous, key);
    lemma_listed_once(platform, next, key);
    law_every_change_has_its_edge(platform, owners, from, seq![], key);
    law_every_change_has_its_edge(platform, middle, seq![], to, key);
}

/// A quick switch is three posts: the switcher's modifier goes down unless it
/// is held already, the tap, and the modifier comes up again if it went down.
/// No other key has an edge.
pub proof fn law_quick_switch_is_balanced(
    platform: Platform,
    owners: Map<HeldKey, nat>,
    key: HeldKey,
)
    requires
        platform != Platform::Other,
        platform == Platform::MacOs ==> vk_of(key) is Some,
        counts_positive(owners),
    ensures
        ({
            let press = press_plan(platform, HoldKind::AppSwitcher);
            let release = release_plan(platform, HoldKind::AppSwitcher);
            let posts = steps_posts(platform, owners, press + release);
            let moves = output_holds(platform, HoldKind::AppSwitcher, key) && !owners.contains_key(
                key,
            );
            &&& posts.len() == 3
            &&& has_edge(posts[0], key, KeyPhase::Down) <==> moves
            &&& !has_edge(posts[0], key, KeyPhase::Up)
            &&& is_switcher_tap(platform, posts[1])
            &&& has_edge(posts[2], key, KeyPhase::Up) <==> moves
            &&& !has_edge(posts[2], key, KeyPhase::Down)
        }),
{
    let kind = HoldKind::AppSwitcher;
    let press = press_plan(platform, kind);
    let release = release_plan(platform, kind);
    let keys = held_key_list(platform, kind);
    let held = owners_after(owners, seq![], keys);
    lemma_listed_once(platform, kind, key);
    lemma_press_owners(platform, owners, kind);
    lemma_steps_in_a_row(platform, owners, press, release);
    assert(press.take(0) =~= seq![]);
    assert(release.take(0) =~= seq![]);
    law_press_puts_down_what_was_free(platform, owners, kind, key);
    law_every_change_has_its_edge(platform, held, keys, seq![], key);
}

/// A target without a backend counts nothing and posts no edge and no tap.
pub proof fn law_no_backend_no_posts(
    owners: Map<HeldKey, nat>,
    released: Seq<HeldKey>,
    pressed: Seq<HeldKey>,
)
    ensures
        owners_held(Platform::Other, owners, released, pressed) == owners,
        transition_post(Platform::Other, owners, released, pressed) is Unsupported,
        tap_post(Platform::Other) is Nothing,
{
}

/// Holding keys on macOS posts one event for each: in the order of the list on
/// the way down, and the other way round on the way up.
pub proof fn law_held_edges_post_in_order(
    keys: Seq<HeldKey>,
    phase: KeyPhase,
    modifiers: Set<HeldKey>,
    i: int,
)
    requires
        0 <= i < keys.len(),
    ensures
        ({
            let events = edge_events(edge_order(keys, phase), phase, modifiers);
            &&& events.len() == keys.len()
            &&& is_event_of(
                events[i],
                match phase {
                    KeyPhase::Down => keys[i],
                    KeyPhase::Up => keys[keys.len() - 1 - i],
                },
                phase,
            )
        }),
{
    reveal(vk_of);
}

/// Holding keys on macOS carries the modifiers along: an event's flags name the
/// modifiers held before that have not come up, or those and the ones that have
/// gone down, with this event and those before it.
pub proof fn law_held_edges_carry_their_modifiers(
    keys: Seq<HeldKey>,
    phase: KeyPhase,
    modifiers: Set<HeldKey>,
    i: int,
)
    requires
        0 <= i < keys.len(),
    ensures
        ({
            let order = edge_order(keys, phase);
            let events = edge_events(order, phase, modifiers);
            let held = |key: HeldKey|
                if order.take(i + 1).contains(key) {
                    phase == KeyPhase::Down
                } else {
                    modifiers.contains(key)
                };
            events[i] matches HeldKeyEvent::Post(event) ==> event.flags == flag_bits(
                held(HeldKey::Command),
                held(HeldKey::Control),
                held(HeldKey::Shift),
                held(HeldKey::Alt),
            )
        }),
{
    let so_far = edge_order(keys, phase).take(i + 1);
    lemma_modifiers_after_all(modifiers, so_far, phase is Down, HeldKey::Command);
    lemma_modifiers_after_all(modifiers, so_far, phase is Down, HeldKey::Control);
    lemma_modifiers_after_all(modifiers, so_far, phase is Down, HeldKey::Shift);
    lemma_modifiers_after_all(modifiers, so_far, phase is Down, HeldKey::Alt);
}

/// The cursor ends with every key of the list held as its edge says, and every
/// other as it was.
pub proof fn law_cursor_ends_with_every_edge(
    keys: Seq<HeldKey>,
    phase: KeyPhase,
    modifiers: Set<HeldKey>,
    key: HeldKey,
)
    ensures
        modifiers_after_all(modifiers, edge_order(keys, phase), phase == KeyPhase::Down).contains(
            key,
        ) == if !(key is Key) && keys.contains(key) {
            phase == KeyPhase::Down
        } else {
            modifiers.contains(key)
        },
{
    lemma_reverse_contains(keys, key);
    lemma_modifiers_after_all(
        modifiers,
        edge_order(keys, phase),
        phase == KeyPhase::Down,
        key,
    );
}

/// One edge of a held key is its virtual key under the modifiers given, in the
/// phase given.
pub proof fn law_one_held_edge(key: HeldKey, phase: KeyPhase, modifiers: Set<HeldKey>)
    ensures
        is_event_of(held_event(key, phase, modifiers), key, phase),
        held_event(key, phase, modifiers) matches HeldKeyEvent::Post(event) ==> event.flags
            == flag_bits(
            modifiers.contains(HeldKey::Command),
            modifiers.contains(HeldKey::Control),
            modifiers.contains(HeldKey::Shift),
            modifiers.contains(HeldKey::Alt),
        ),
{
    reveal(vk_of);
}

/// The steps that repoint a press release the keys of the old output and press
/// those of the new, in the batches that [`law_retarget_moves_what_is_not_shared`]
/// speaks of.
pub proof fn law_retarget_steps_name_both_outputs(
    platform: Platform,
    previous: HoldKind,
    next: HoldKind,
)
    ensures
        ({
            let plan = retarget_plan(platform, previous, next);
            let none = Seq::<HeldKey>::empty();
            let from = held_key_list(platform, previous);
            let to = held_key_list(platform, next);
            match (previous, next) {
                (HoldKind::AppSwitcher, HoldKind::AppSwitcher) => plan.len() == 0,
                (HoldKind::AppSwitcher, HoldKind::Chord(_)) => plan.len() == 2
                    && (plan[0] matches StepView::Transition { released, pressed } && released
                    == from && pressed == none) && (plan[1] matches StepView::Transition {
                    released,
                    pressed,
                } && released == none && pressed == to),
                (HoldKind::Chord(_), HoldKind::Chord(_)) => plan.len() == 1
                    && (plan[0] matches StepView::Transition { released, pressed } && released
                    == from && pressed == to),
                (HoldKind::Chord(_), HoldKind::AppSwitcher) => plan.len() == 2
                    && (plan[0] matches StepView::Transition { released, pressed } && released
                    == from && pressed == to) && plan[1] is TapAppSwitcher,
            }
        }),
{
}

/// A post and a step are seen as they are, and a list of them one for one.
pub proof fn law_posts_and_steps_are_seen_whole(
    post: Post,
    step: HoldStep,
    posts: Seq<Post>,
    steps: Seq<HoldStep>,
    i: int,
)
    ensures
        match post {
            Post::MacKeys(events) => post@ matches PostView::MacKeys(seen) && seen == events@,
            Post::HoldKeys(edges) => post@ matches PostView::HoldKeys { up, down } && up
                == edges.up@ && down == edges.down@,
            Post::TapSwitcher => post@ is TapSwitcher,
            Post::Nothing => post@ is Nothing,
            Post::Unsupported => post@ is Unsupported,
        },
        match step {
            HoldStep::Transition { released, pressed } => step@ matches StepView::Transition {
                released: r,
                pressed: p,
            } && r == released@ && p == pressed@,
            HoldStep::TapAppSwitcher => step@ is TapAppSwitcher,
        },
        post_views(posts).len() == posts.len(),
        step_views(steps).len() == steps.len(),
        0 <= i < posts.len() ==> post_views(posts)[i] == posts[i]@,
        0 <= i < steps.len() ==> step_views(steps)[i] == steps[i]@,
{
}

/// A platform with a backend counts a batch, and counts it like any other such
/// platform.
pub proof fn law_every_backend_counts_alike(
    platform: Platform,
    owners: Map<HeldKey, nat>,
    released: Seq<HeldKey>,
    pressed: Seq<HeldKey>,
    key: HeldKey,
)
    requires
        platform != Platform::Other,
        counts_positive(owners),
    ensures
        ({
            let after = owners_held(platform, owners, released, pressed);
            let left = owners_of(owners, key) - released.to_multiset().count(key);
            &&& owners_of(after, key) == (if left > 0 {
                left
            } else {
                0
            }) + pressed.to_multiset().count(key)
            &&& after.contains_key(key) <==> owners_of(after, key) > 0
        }),
{
    law_counts_follow_the_batch(owners, released, pressed, key);
}

/// Where a batch can be counted: on a target without a backend always, and
/// elsewhere where no key ends with more owners than a machine number counts.
pub proof fn law_batches_are_refused_only_for_their_counts(
    platform: Platform,
    owners: &HeldKeyOwners,
    released: Seq<HeldKey>,
    pressed: Seq<HeldKey>,
)
    ensures
        batch_fits(platform, owners, released, pressed) <==> platform == Platform::Other || forall|
            key: HeldKey,
        |
            (if owners_of(owners@, key) > released.to_multiset().count(key) {
                owners_of(owners@, key) - released.to_multiset().count(key)
            } else {
                0
            }) + #[trigger] pressed.to_multiset().count(key) <= usize::MAX,
{
    law_batch_fits_where_every_count_does(owners@, released, pressed);
}

/// A step is its batch or its tap. A tap changes no ownership, and always fits.
pub proof fn law_steps_do_what_they_name(
    platform: Platform,
    owners: Map<HeldKey, nat>,
    released: Seq<HeldKey>,
    pressed: Seq<HeldKey>,
)
    ensures
        ({
            let batch = StepView::Transition { released, pressed };
            &&& step_post(platform, owners, batch) == transition_post(
                platform,
                owners,
                released,
                pressed,
            )
            &&& step_owners(platform, owners, batch) == owners_held(
                platform,
                owners,
                released,
                pressed,
            )
            &&& step_fits(platform, owners, batch) <==> platform == Platform::Other || counts_fit(
                owners,
                released,
                pressed,
            )
            &&& is_switcher_tap(platform, step_post(platform, owners, StepView::TapAppSwitcher))
            &&& step_owners(platform, owners, StepView::TapAppSwitcher) == owners
            &&& step_fits(platform, owners, StepView::TapAppSwitcher)
        }),
{
}

} // verus!
