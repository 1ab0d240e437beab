//! Which events of a group are posted when some of them cannot be built.

use vstd::prelude::*;

verus! {

/// Events that are built and posted one after the other.
#[derive(Clone, Copy, Debug, PartialEq, Eq, Structural)]
pub enum EventGroup {
    /// Keyboard edges, those of a tap or those of a hold.
    Keys,
    Click,
    Text,
    MediaTap,
}

/// Whether the next event of a group is tried, given whether the one before it
/// could be built.
pub open spec fn tries_next(group: EventGroup, built: bool) -> bool {
    built || !(group is MediaTap)
}

/// Whether the next event of a group is tried, given whether the one before it
/// could be built. Key edges, a click and a text lose the one event; a media
/// key whose press cannot be built is not released either.
pub fn goes_on(group: EventGroup, built: bool) -> (tried: bool)
    ensures
        tried == tries_next(group, built),
{
    match group {
        EventGroup::MediaTap => built,
        EventGroup::Keys | EventGroup::Click | EventGroup::Text => true,
    }
}

/// The events that could be built, in order.
pub open spec fn kept<E>(events: Seq<E>, built: Seq<bool>) -> Seq<E>
    decreases events.len(),
{
    if events.len() == 0 {
        seq![]
    } else if built.first() {
        seq![events.first()] + kept(events.drop_first(), built.drop_first())
    } else {
        kept(events.drop_first(), built.drop_first())
    }
}

/// How many events were built before the first that could not be.
pub open spec fn built_at_first(built: Seq<bool>) -> nat
    decreases built.len(),
{
    if built.len() == 0 || !built.first() {
        0
    } else {
        1 + built_at_first(built.drop_first())
    }
}

/// The events of a group that are posted: each that is tried and can be built.
pub open spec fn posts<E>(group: EventGroup, events: Seq<E>, built: Seq<bool>) -> Seq<E>
    decreases events.len(),
{
    if events.len() == 0 {
        seq![]
    } else {
        (if built.first() {
            seq![events.first()]
        } else {
            seq![]
        }) + (if tries_next(group, built.first()) {
            posts(group, events.drop_first(), built.drop_first())
        } else {
            seq![]
        })
    }
}

/// The events of a group that are posted, given whether each could be built.
pub fn group_posts<E: Copy>(
    group: EventGroup,
    events: &[E],
    built: &[bool],
) -> (posted: Vec<E>)
    requires
        events@.len() == built@.len(),
    ensures
        posted@ == posts(group, events@, built@),
{
    let mut posted: Vec<E> = Vec::new();
    let mut i: usize = 0;
    assert(events@.skip(0) =~= events@);
    assert(built@.skip(0) =~= built@);
    while i < events.len()
        invariant
            i <= events@.len() == built@.len(),
            posts(group, events@, built@) == posted@ + posts(
                group,
                events@.skip(i as int),
                built@.skip(i as int),
            ),
        decreases events@.len() - i,
    {
        proof {
            assert(events@.skip(i as int).drop_first() =~= events@.skip(i + 1));
            assert(built@.skip(i as int).drop_first() =~= built@.skip(i + 1));
        }
        if built[i] {
            posted.push(events[i]);
        }
        if !goes_on(group, built[i]) {
            assert(posts(group, events@, built@) =~= posted@);
            return posted;
        }
        assert(posts(group, events@, built@) =~= posted@ + posts(
            group,
            events@.skip(i + 1),
            built@.skip(i + 1),
        ));
        i = i + 1;
    }
    assert(posts(group, events@, built@) =~= posted@);
    posted
}

/// A group other than a media key loses exactly the events that cannot be
/// built.
pub proof fn law_only_lost_events_are_missing<E>(
    group: EventGroup,
    events: Seq<E>,
    built: Seq<bool>,
)
    requires
        !(group is MediaTap),
        events.len() == built.len(),
    ensures
        posts(group, events, built) == kept(events, built),
    decreases events.len(),
{
    if events.len() > 0 {
        law_only_lost_events_are_missing(group, events.drop_first(), built.drop_first());
    }
    assert(posts(group, events, built) =~= kept(events, built));
}

/// A media key posts the events before the first that cannot be built, and
/// none after it.
pub proof fn law_a_lost_media_event_is_the_last<E>(events: Seq<E>, built: Seq<bool>)
    requires
        events.len() == built.len(),
    ensures
        built_at_first(built) <= events.len(),
        posts(EventGroup::MediaTap, events, built) == events.take(built_at_first(built) as int),
    decreases events.len(),
{
    if events.len() > 0 {
        law_a_lost_media_event_is_the_last(events.drop_first(), built.drop_first());
    }
    assert(posts(EventGroup::MediaTap, events, built) =~= events.take(
        built_at_first(built) as int,
    ));
}

/// Where every event can be built, every group is posted whole.
pub proof fn law_nothing_is_lost_when_all_are_built<E>(
    group: EventGroup,
    events: Seq<E>,
    built: Seq<bool>,
)
    requires
        events.len() == built.len(),
        forall|i: int| 0 <= i < built.len() ==> #[trigger] built[i],
    ensures
        posts(group, events, built) == events,
        kept(events, built) == events,
    decreases events.len(),
{
    if events.len() > 0 {
        law_nothing_is_lost_when_all_are_built(group, events.drop_first(), built.drop_first());
        assert(built[0]);
    }
    assert(posts(group, events, built) =~= events);
    assert(kept(events, built) =~= events);
}

/// The two events of a pair that are posted, case by case.
pub(crate) proof fn lemma_pair_posts<E>(
    group: EventGroup,
    down: E,
    up: E,
    down_built: bool,
    up_built: bool,
)
    ensures
        posts(group, seq![down, up], seq![down_built, up_built]) == if down_built && up_built {
            seq![down, up]
        } else if down_built {
            seq![down]
        } else if up_built && !(group is MediaTap) {
            seq![up]
        } else {
            seq![]
        },
{
    reveal_with_fuel(posts, 3);
    assert(seq![down, up].drop_first() =~= seq![up]);
    assert(seq![down_built, up_built].drop_first() =~= seq![up_built]);
    assert(seq![up].drop_first() =~= seq![]);
}

/// The events of a press and its release that are posted.
pub(crate) fn pair_posts<E: Copy>(
    group: EventGroup,
    down: E,
    up: E,
    down_built: bool,
    up_built: bool,
) -> (posted: Vec<E>)
    ensures
        posted@ == posts(group, seq![down, up], seq![down_built, up_built]),
{
    let mut events: Vec<E> = Vec::new();
    events.push(down);
    events.push(up);
    let mut built: Vec<bool> = Vec::new();
    built.push(down_built);
    built.push(up_built);
    assert(events@ =~= seq![down, up]);
    assert(built@ =~= seq![down_built, up_built]);
    group_posts(group, &events, &built)
}

/// Only a media key stops at an event that cannot be built.
pub proof fn law_only_media_keys_stop(group: EventGroup, built: bool)
    ensures
        !tries_next(group, built) <==> group == EventGroup::MediaTap && !built,
{
}

/// What is kept of a run is what is kept of its parts, one after the other, and
/// of a single event the event itself where it could be built.
pub proof fn law_kept_in_parts<E>(
    first: Seq<E>,
    second: Seq<E>,
    first_built: Seq<bool>,
    second_built: Seq<bool>,
    event: E,
    built: bool,
)
    requires
        first.len() == first_built.len(),
        second.len() == second_built.len(),
    ensures
        kept(first + second, first_built + second_built) == kept(first, first_built) + kept(
            second,
            second_built,
        ),
        kept(seq![event], seq![built]) == if built {
            seq![event]
        } else {
            Seq::<E>::empty()
        },
    decreases first.len(),
{
    reveal_with_fuel(kept, 2);
    assert(seq![event].drop_first() =~= Seq::<E>::empty());
    assert(kept(seq![event], seq![built]) =~= if built {
        seq![event]
    } else {
        Seq::<E>::empty()
    });
    let events = first + second;
    let all = first_built + second_built;
    if first.len() == 0 {
        assert(events =~= second);
        assert(all =~= second_built);
        assert(kept(first, first_built) + kept(second, second_built) =~= kept(
            second,
            second_built,
        ));
    } else {
        law_kept_in_parts(
            first.drop_first(),
            second,
            first_built.drop_first(),
            second_built,
            event,
            built,
        );
        assert(events.drop_first() =~= first.drop_first() + second);
        assert(all.drop_first() =~= first_built.drop_first() + second_built);
        assert(kept(events, all) =~= kept(first, first_built) + kept(second, second_built));
    }
}

/// A media key posts a run from the front: every event of the run could be
/// built, and the one after it, if there is one, could not.
pub proof fn law_media_run_ends_at_the_first_loss<E>(events: Seq<E>, built: Seq<bool>)
    requires
        events.len() == built.len(),
    ensures
        ({
            let posted = posts(EventGroup::MediaTap, events, built);
            &&& posted.len() <= events.len()
            &&& posted == events.take(posted.len() as int)
            &&& forall|i: int| 0 <= i < posted.len() ==> #[trigger] built[i]
            &&& posted.len() < events.len() ==> !built[posted.len() as int]
        }),
    decreases events.len(),
{
    law_a_lost_media_event_is_the_last(events, built);
    if events.len() > 0 && built.first() {
        let rest = built.drop_first();
        law_a_lost_media_event_is_the_last(events.drop_first(), rest);
        law_media_run_ends_at_the_first_loss(events.drop_first(), rest);
        let posted = posts(EventGroup::MediaTap, events, built);
        assert forall|i: int| 0 <= i < posted.len() implies #[trigger] built[i] by {
            if i > 0 {
                assert(rest[i - 1] == built[i]);
            }
        }
    }
}

} // verus!
