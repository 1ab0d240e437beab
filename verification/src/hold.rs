//! Held outputs: what a press holds down, how it is repointed and released.

use vstd::prelude::*;

use crate::binding::{HoldKind, KeyCombo, Platform};
use crate::held::{
    count_after, counts_fit, counts_positive, crossing, occurrences, owned_modifiers, owner_count,
    owners_after, HeldKey, HeldKeyOwners, HoldTransition, KeyPhase,
};
use crate::keyboard::{
    law_edges_come_in_the_order_of_the_list, law_posts_lift_and_press_what_changed,
};
use crate::laws::law_cursor_reaches_ownership;
use crate::macos;
use crate::macos::{edge_events, modifiers_after_all, HeldKeyEvent};

verus! {

/// The physical keys the platform's application switcher owns.
///
/// Command on macOS, where the switcher commits when Command comes up, and Alt
/// on Linux and Windows, whose native switcher is Alt+Tab. A target without a
/// switcher to open owns none.
pub open spec fn switcher_key_list(platform: Platform) -> Seq<HeldKey> {
    match platform {
        Platform::MacOs => seq![HeldKey::Command],
        Platform::Linux => seq![HeldKey::Alt],
        Platform::Windows => seq![HeldKey::Alt],
        Platform::Other => seq![],
    }
}

/// `key` alone where `held`, otherwise nothing.
pub open spec fn key_if(held: bool, key: HeldKey) -> Seq<HeldKey> {
    if held {
        seq![key]
    } else {
        seq![]
    }
}

/// The physical keys a chord owns, modifiers before the key.
pub open spec fn chord_key_list(platform: Platform, combo: KeyCombo) -> Seq<HeldKey> {
    (match platform {
        Platform::MacOs => key_if(combo.command, HeldKey::Command) + key_if(
            combo.control,
            HeldKey::Control,
        ),
        Platform::Linux => key_if(combo.command || combo.control, HeldKey::Control),
        Platform::Windows => key_if(combo.command || combo.control, HeldKey::Control),
        Platform::Other => seq![],
    }) + key_if(combo.shift, HeldKey::Shift) + key_if(combo.option, HeldKey::Alt) + seq![
        HeldKey::Key(combo.key),
    ]
}

/// The physical keys one held output owns.
pub open spec fn held_key_list(platform: Platform, kind: HoldKind) -> Seq<HeldKey> {
    match kind {
        HoldKind::Chord(combo) => chord_key_list(platform, combo),
        HoldKind::AppSwitcher => switcher_key_list(platform),
    }
}

/// The physical keys the platform's application switcher owns.
pub fn switcher_keys(platform: Platform) -> (keys: Vec<HeldKey>)
    ensures
        keys@ == switcher_key_list(platform),
{
    let mut keys: Vec<HeldKey> = Vec::new();
    match platform {
        Platform::MacOs => keys.push(HeldKey::Command),
        Platform::Linux => keys.push(HeldKey::Alt),
        Platform::Windows => keys.push(HeldKey::Alt),
        Platform::Other => {},
    }
    assert(keys@ =~= switcher_key_list(platform));
    keys
}

/// The physical keys a chord owns.
///
/// Logical Cmd and Ctrl are distinct on macOS. Cmd aliases Ctrl on Linux and
/// Windows, so the mapping resolves before ownership is counted.
pub fn chord_keys(platform: Platform, combo: &KeyCombo) -> (keys: Vec<HeldKey>)
    ensures
        keys@ == chord_key_list(platform, *combo),
{
    let mut keys: Vec<HeldKey> = Vec::with_capacity(4);
    match platform {
        Platform::MacOs => {
            if combo.has_command() {
                keys.push(HeldKey::Command);
            }
            if combo.has_control() {
                keys.push(HeldKey::Control);
            }
        },
        Platform::Linux | Platform::Windows => {
            if combo.has_command() || combo.has_control() {
                keys.push(HeldKey::Control);
            }
        },
        Platform::Other => {},
    }
    if combo.has_shift() {
        keys.push(HeldKey::Shift);
    }
    if combo.has_option() {
        keys.push(HeldKey::Alt);
    }
    keys.push(HeldKey::Key(combo.key()));
    assert(keys@ =~= chord_key_list(platform, *combo));
    keys
}

/// The physical keys one held output owns.
pub fn held_keys(platform: Platform, kind: &HoldKind) -> (keys: Vec<HeldKey>)
    ensures
        keys@ == held_key_list(platform, *kind),
{
    match kind {
        HoldKind::Chord(combo) => chord_keys(platform, combo),
        HoldKind::AppSwitcher => switcher_keys(platform),
    }
}

/// What a backend has to post for one change of the held keys.
#[derive(Debug, PartialEq, Eq)]
pub enum Post {
    /// macOS keyboard edges, in order.
    MacKeys(Vec<HeldKeyEvent>),
    /// The edges a Linux or Windows backend posts: `up`, and after it `down`.
    HoldKeys(HoldTransition),
    /// The Tab tap of a Linux or Windows backend.
    TapSwitcher,
    /// There is nothing to post.
    Nothing,
    /// Held output is not supported on the platform.
    Unsupported,
}

/// A [`Post`] with its lists as sequences.
pub enum PostView {
    MacKeys(Seq<HeldKeyEvent>),
    HoldKeys { up: Seq<HeldKey>, down: Seq<HeldKey> },
    TapSwitcher,
    Nothing,
    Unsupported,
}

impl View for Post {
    type V = PostView;

    open spec fn view(&self) -> PostView {
        match self {
            Post::MacKeys(events) => PostView::MacKeys(events@),
            Post::HoldKeys(edges) => PostView::HoldKeys { up: edges.up@, down: edges.down@ },
            Post::TapSwitcher => PostView::TapSwitcher,
            Post::Nothing => PostView::Nothing,
            Post::Unsupported => PostView::Unsupported,
        }
    }
}

/// The macOS events of a batch: the up edges in reverse, then the down edges,
/// under one modifier state that starts from what was owned before.
pub open spec fn mac_hold_events(
    up: Seq<HeldKey>,
    down: Seq<HeldKey>,
    modifiers: Set<HeldKey>,
) -> Seq<HeldKeyEvent> {
    edge_events(up.reverse(), KeyPhase::Up, modifiers) + edge_events(
        down,
        KeyPhase::Down,
        modifiers_after_all(modifiers, up.reverse(), false),
    )
}

/// The ownership after a batch. A target without a backend counts nothing.
pub open spec fn owners_held(
    platform: Platform,
    owners: Map<HeldKey, nat>,
    released: Seq<HeldKey>,
    pressed: Seq<HeldKey>,
) -> Map<HeldKey, nat> {
    if platform is Other {
        owners
    } else {
        owners_after(owners, released, pressed)
    }
}

/// What a batch posts.
pub open spec fn transition_post(
    platform: Platform,
    owners: Map<HeldKey, nat>,
    released: Seq<HeldKey>,
    pressed: Seq<HeldKey>,
) -> PostView {
    let after = owners_after(owners, released, pressed);
    let up = crossing(released, owners, after);
    let down = crossing(pressed, after, owners);
    match platform {
        Platform::MacOs => PostView::MacKeys(mac_hold_events(up, down, owned_modifiers(owners))),
        Platform::Linux => PostView::HoldKeys { up, down },
        Platform::Windows => PostView::HoldKeys { up, down },
        Platform::Other => PostView::Unsupported,
    }
}

/// What opening the switcher posts, its modifier being down already.
pub open spec fn tap_post(platform: Platform) -> PostView {
    match platform {
        Platform::MacOs => PostView::MacKeys(
            seq![
                HeldKeyEvent::Post(macos::key_tap(macos::VK_TAB, macos::FLAG_COMMAND as int).down),
                HeldKeyEvent::Post(macos::key_tap(macos::VK_TAB, macos::FLAG_COMMAND as int).up),
            ],
        ),
        Platform::Linux => PostView::TapSwitcher,
        Platform::Windows => PostView::TapSwitcher,
        Platform::Other => PostView::Nothing,
    }
}

/// Whether a batch can be counted: no count leaves the machine's range.
pub open spec fn batch_fits(
    platform: Platform,
    owners: &HeldKeyOwners,
    released: Seq<HeldKey>,
    pressed: Seq<HeldKey>,
) -> bool {
    platform is Other || owners.fits(released, pressed)
}

/// Whether a batch can be counted.
pub fn can_hold(
    platform: Platform,
    owners: &HeldKeyOwners,
    released: &[HeldKey],
    pressed: &[HeldKey],
) -> (fits: bool)
    requires
        owners.wf(),
    ensures
        fits == batch_fits(platform, owners, released@, pressed@),
{
    match platform {
        Platform::Other => true,
        _ => owners.has_room(released, pressed),
    }
}

/// Whether edges lift exactly the keys that were owned and no longer are, and
/// press exactly those that were not owned and now are.
pub open spec fn lifts_and_presses(
    edges: HoldTransition,
    before: Map<HeldKey, nat>,
    after: Map<HeldKey, nat>,
) -> bool {
    &&& forall|key: HeldKey| #[trigger]
        edges.up@.contains(key) <==> before.contains_key(key) && !after.contains_key(key)
    &&& forall|key: HeldKey| #[trigger]
        edges.down@.contains(key) <==> !before.contains_key(key) && after.contains_key(key)
}

/// Count one batch and say what it posts.
///
/// On macOS the modifier state is an event-ordering cursor: it is derived from
/// the ownership before the batch, advanced through the exact edges, and ends
/// at the ownership after it.
pub fn hold_transition(
    platform: Platform,
    owners: &mut HeldKeyOwners,
    released: &[HeldKey],
    pressed: &[HeldKey],
) -> (post: Post)
    requires
        old(owners).wf(),
        batch_fits(platform, old(owners), released@, pressed@),
    ensures
        final(owners).wf(),
        final(owners)@ == owners_held(platform, old(owners)@, released@, pressed@),
        post@ == transition_post(platform, old(owners)@, released@, pressed@),
        platform is MacOs ==> modifiers_after_all(
            modifiers_after_all(
                owned_modifiers(old(owners)@),
                crossing(released@, old(owners)@, final(owners)@).reverse(),
                false,
            ),
            crossing(pressed@, final(owners)@, old(owners)@),
            true,
        ) == owned_modifiers(final(owners)@),
        match post {
            Post::HoldKeys(edges) => {
                &&& platform is Linux || platform is Windows
                &&& lifts_and_presses(edges, old(owners)@, final(owners)@)
            },
            Post::MacKeys(_) => platform is MacOs,
            Post::Unsupported => platform is Other,
            _ => false,
        },
{
    proof {
        old(owners).lemma_counts();
        if platform is Linux || platform is Windows {
            law_posts_lift_and_press_what_changed(platform, old(owners)@, released@, pressed@);
        }
    }
    match platform {
        Platform::MacOs => {
            let modifiers = owners.modifiers();
            let edges = owners.transition(released, pressed);
            let (mut events, modifiers) = macos::hold_keys(&edges.up, KeyPhase::Up, modifiers);
            let (mut downs, modifiers) = macos::hold_keys(&edges.down, KeyPhase::Down, modifiers);
            proof {
                old(owners).lemma_counts();
                law_cursor_reaches_ownership(old(owners)@, released@, pressed@);
                assert(modifiers@ == owned_modifiers(owners@));
            }
            events.append(&mut downs);
            Post::MacKeys(events)
        },
        Platform::Linux | Platform::Windows => {
            Post::HoldKeys(owners.transition(released, pressed))
        },
        Platform::Other => Post::Unsupported,
    }
}

/// Open the application switcher with one tap, under the modifier its lease
/// already holds down.
pub fn tap_app_switcher(platform: Platform) -> (post: Post)
    ensures
        post@ == tap_post(platform),
{
    match platform {
        Platform::MacOs => Post::MacKeys(macos::tap_app_switcher()),
        Platform::Linux | Platform::Windows => Post::TapSwitcher,
        Platform::Other => Post::Nothing,
    }
}

/// One posted change to the synthetic keyboard output.
#[derive(Debug, PartialEq, Eq)]
pub enum HoldStep {
    /// One ownership batch: release these keys, then press those.
    Transition { released: Vec<HeldKey>, pressed: Vec<HeldKey> },
    /// Open the application switcher with one tap, under the modifier the
    /// transition before it left down.
    TapAppSwitcher,
}

/// A [`HoldStep`] with its lists as sequences.
pub enum StepView {
    Transition { released: Seq<HeldKey>, pressed: Seq<HeldKey> },
    TapAppSwitcher,
}

impl View for HoldStep {
    type V = StepView;

    open spec fn view(&self) -> StepView {
        match self {
            HoldStep::Transition { released, pressed } => StepView::Transition {
                released: released@,
                pressed: pressed@,
            },
            HoldStep::TapAppSwitcher => StepView::TapAppSwitcher,
        }
    }
}

/// The ownership after one step. A tap changes none.
pub open spec fn step_owners(
    platform: Platform,
    owners: Map<HeldKey, nat>,
    step: StepView,
) -> Map<HeldKey, nat> {
    match step {
        StepView::Transition { released, pressed } => owners_held(
            platform,
            owners,
            released,
            pressed,
        ),
        StepView::TapAppSwitcher => owners,
    }
}

/// What one step posts.
pub open spec fn step_post(
    platform: Platform,
    owners: Map<HeldKey, nat>,
    step: StepView,
) -> PostView {
    match step {
        StepView::Transition { released, pressed } => transition_post(
            platform,
            owners,
            released,
            pressed,
        ),
        StepView::TapAppSwitcher => tap_post(platform),
    }
}

/// Whether one step can be counted.
pub open spec fn step_fits(
    platform: Platform,
    owners: Map<HeldKey, nat>,
    step: StepView,
) -> bool {
    match step {
        StepView::Transition { released, pressed } => platform is Other || counts_fit(
            owners,
            released,
            pressed,
        ),
        StepView::TapAppSwitcher => true,
    }
}

/// The ownership after all of `steps`.
pub open spec fn steps_owners(
    platform: Platform,
    owners: Map<HeldKey, nat>,
    steps: Seq<StepView>,
) -> Map<HeldKey, nat>
    decreases steps.len(),
{
    if steps.len() == 0 {
        owners
    } else {
        step_owners(
            platform,
            steps_owners(platform, owners, steps.drop_last()),
            steps.last(),
        )
    }
}

/// What `steps` post, one after the other.
pub open spec fn steps_posts(
    platform: Platform,
    owners: Map<HeldKey, nat>,
    steps: Seq<StepView>,
) -> Seq<PostView> {
    Seq::new(
        steps.len(),
        |i: int|
            step_post(platform, steps_owners(platform, owners, steps.take(i)), steps[i]),
    )
}

/// The steps that repoint a live press from `previous` to `next`.
pub open spec fn retarget_plan(
    platform: Platform,
    previous: HoldKind,
    next: HoldKind,
) -> Seq<StepView> {
    let from = held_key_list(platform, previous);
    let to = held_key_list(platform, next);
    match (previous, next) {
        (HoldKind::AppSwitcher, HoldKind::AppSwitcher) => seq![],
        (HoldKind::AppSwitcher, HoldKind::Chord(_)) => seq![
            StepView::Transition { released: from, pressed: seq![] },
            StepView::Transition { released: seq![], pressed: to },
        ],
        (HoldKind::Chord(_), HoldKind::Chord(_)) => seq![
            StepView::Transition { released: from, pressed: to },
        ],
        (HoldKind::Chord(_), HoldKind::AppSwitcher) => seq![
            StepView::Transition { released: from, pressed: to },
            StepView::TapAppSwitcher,
        ],
    }
}

/// The steps that press an output: its keys, and for the switcher the tap that
/// opens it.
pub open spec fn press_plan(platform: Platform, kind: HoldKind) -> Seq<StepView> {
    let press = StepView::Transition {
        released: seq![],
        pressed: held_key_list(platform, kind),
    };
    match kind {
        HoldKind::Chord(_) => seq![press],
        HoldKind::AppSwitcher => seq![press, StepView::TapAppSwitcher],
    }
}

/// The one step that releases an output.
pub open spec fn release_plan(platform: Platform, kind: HoldKind) -> Seq<StepView> {
    seq![StepView::Transition { released: held_key_list(platform, kind), pressed: seq![] }]
}

/// The views of a list of steps.
pub open spec fn step_views(steps: Seq<HoldStep>) -> Seq<StepView> {
    Seq::new(steps.len(), |i: int| steps[i]@)
}

/// The views of a list of posts.
pub open spec fn post_views(posts: Seq<Post>) -> Seq<PostView> {
    Seq::new(posts.len(), |i: int| posts[i]@)
}

impl HoldStep {
    /// Count the step and say what it posts.
    pub fn post(&self, platform: Platform, owners: &mut HeldKeyOwners) -> (post: Post)
        requires
            old(owners).wf(),
            step_fits(platform, old(owners)@, self@),
        ensures
            final(owners).wf(),
            final(owners)@ == step_owners(platform, old(owners)@, self@),
            post@ == step_post(platform, old(owners)@, self@),
    {
        match self {
            HoldStep::Transition { released, pressed } => {
                hold_transition(platform, owners, released, pressed)
            },
            HoldStep::TapAppSwitcher => tap_app_switcher(platform),
        }
    }
}

/// The changes that repoint a live press from `previous` to `next`, in the
/// order they post.
///
/// [`HeldKeyOwners::transition`] releases before it presses and reports no edge
/// for a key that survives the batch, so which changes share a batch is the
/// whole contract here:
///
/// - chord to chord, and chord to switcher: one batch, which retires what only
///   the old output held and presses what only the new one holds. A key both
///   hold, the switcher's modifier included, keeps its down edge.
/// - switcher to switcher: nothing at all. The switcher is open and its tap
///   has posted; a second tap would step the selection instead of holding it.
/// - switcher to chord: release, then press. The switcher commits on its
///   modifier's up edge, so that edge has to land before a chord sharing the
///   modifier takes it over; one batch would leave the switcher open.
///
/// The tap is last, because it is what opens the switcher: a key of the
/// outgoing chord still down under it would change the tap's chord and step
/// the selection backwards.
pub fn retarget_steps(
    platform: Platform,
    previous: &HoldKind,
    next: &HoldKind,
) -> (steps: Vec<HoldStep>)
    ensures
        step_views(steps@) == retarget_plan(platform, *previous, *next),
{
    let mut steps: Vec<HoldStep> = Vec::new();
    match (previous, next) {
        (HoldKind::AppSwitcher, HoldKind::AppSwitcher) => {},
        (HoldKind::AppSwitcher, HoldKind::Chord(_)) => {
            steps.push(
                HoldStep::Transition {
                    released: held_keys(platform, previous),
                    pressed: Vec::new(),
                },
            );
            steps.push(
                HoldStep::Transition {
                    released: Vec::new(),
                    pressed: held_keys(platform, next),
                },
            );
        },
        (HoldKind::Chord(_), HoldKind::Chord(_)) => {
            steps.push(
                HoldStep::Transition {
                    released: held_keys(platform, previous),
                    pressed: held_keys(platform, next),
                },
            );
        },
        (HoldKind::Chord(_), HoldKind::AppSwitcher) => {
            steps.push(
                HoldStep::Transition {
                    released: held_keys(platform, previous),
                    pressed: held_keys(platform, next),
                },
            );
            steps.push(HoldStep::TapAppSwitcher);
        },
    }
    assert(step_views(steps@) =~= retarget_plan(platform, *previous, *next));
    steps
}

/// Post `steps` one after the other.
fn post_all(
    platform: Platform,
    owners: &mut HeldKeyOwners,
    steps: &Vec<HoldStep>,
) -> (posts: Vec<Post>)
    requires
        old(owners).wf(),
        forall|i: int|
            0 <= i < steps@.len() ==> #[trigger] step_fits(
                platform,
                steps_owners(platform, old(owners)@, step_views(steps@).take(i)),
                step_views(steps@)[i],
            ),
    ensures
        final(owners).wf(),
        final(owners)@ == steps_owners(platform, old(owners)@, step_views(steps@)),
        post_views(posts@) == steps_posts(platform, old(owners)@, step_views(steps@)),
{
    let ghost views = step_views(steps@);
    let ghost start = owners@;
    let mut posts: Vec<Post> = Vec::new();
    let mut i: usize = 0;
    while i < steps.len()
        invariant
            i <= steps@.len(),
            views == step_views(steps@),
            owners.wf(),
            owners@ == steps_owners(platform, start, views.take(i as int)),
            forall|j: int|
                0 <= j < steps@.len() ==> #[trigger] step_fits(
                    platform,
                    steps_owners(platform, start, views.take(j)),
                    views[j],
                ),
            posts@.len() == i,
            forall|j: int|
                0 <= j < i ==> (#[trigger] posts@[j])@ == step_post(
                    platform,
                    steps_owners(platform, start, views.take(j)),
                    views[j],
                ),
        decreases steps@.len() - i,
    {
        proof {
            assert(step_fits(
                platform,
                steps_owners(platform, start, views.take(i as int)),
                views[i as int],
            ));
            assert(views.take(i + 1).drop_last() =~= views.take(i as int));
        }
        let post = steps[i].post(platform, owners);
        posts.push(post);
        i = i + 1;
    }
    proof {
        assert(views.take(i as int) =~= views);
        assert(post_views(posts@) =~= steps_posts(platform, start, views));
    }
    posts
}

/// One synthetic held keyboard output.
///
/// Keep this value with the physical press lifecycle. Repointing it at another
/// output ([`HeldOutput::retarget`]) preserves the physical keys the two
/// outputs share; [`HeldOutput::release`] takes the value, so an output is
/// released once at most.
#[must_use]
pub struct HeldOutput {
    kind: HoldKind,
}

impl View for HeldOutput {
    type V = HoldKind;

    closed spec fn view(&self) -> HoldKind {
        self.kind
    }
}

/// Press the output `kind` names and return its release lease, with what the
/// press posts.
///
/// Keep the returned [`HeldOutput`] until the physical press ends.
pub fn press_hold(
    platform: Platform,
    owners: &mut HeldKeyOwners,
    kind: HoldKind,
) -> (result: (HeldOutput, Vec<Post>))
    requires
        old(owners).wf(),
        batch_fits(platform, old(owners), seq![], held_key_list(platform, kind)),
    ensures
        result.0@ == kind,
        final(owners).wf(),
        final(owners)@ == owners_held(
            platform,
            old(owners)@,
            seq![],
            held_key_list(platform, kind),
        ),
        post_views(result.1@) == steps_posts(
            platform,
            old(owners)@,
            press_plan(platform, kind),
        ),
{
    let held = HeldOutput { kind };
    let ghost plan = press_plan(platform, kind);
    let mut posts: Vec<Post> = Vec::new();
    let pressed = held_keys(platform, &held.kind);
    let released: Vec<HeldKey> = Vec::new();
    posts.push(hold_transition(platform, owners, &released, &pressed));
    match held.kind {
        // The switcher's modifier is down; one tap opens the switcher, which
        // stays open until this lease is released.
        HoldKind::AppSwitcher => posts.push(tap_app_switcher(platform)),
        HoldKind::Chord(_) => {},
    }
    proof {
        assert(plan.take(0) =~= seq![]);
        assert(post_views(posts@) =~= steps_posts(platform, old(owners)@, plan));
    }
    (held, posts)
}

impl HeldOutput {
    /// The output held.
    pub fn kind(&self) -> (kind: HoldKind)
        ensures
            kind == self@,
    {
        self.kind
    }

    /// Repoint this held output at `kind`, for a repeat trigger, a long-press
    /// threshold, or a per-app rebind re-firing a held action on the same
    /// physical press.
    pub fn retarget(
        &mut self,
        platform: Platform,
        owners: &mut HeldKeyOwners,
        kind: HoldKind,
    ) -> (posts: Vec<Post>)
        requires
            old(owners).wf(),
            batch_fits(
                platform,
                old(owners),
                held_key_list(platform, old(self)@),
                held_key_list(platform, kind),
            ),
        ensures
            final(self)@ == kind,
            final(owners).wf(),
            final(owners)@ == steps_owners(
                platform,
                old(owners)@,
                retarget_plan(platform, old(self)@, kind),
            ),
            post_views(posts@) == steps_posts(
                platform,
                old(owners)@,
                retarget_plan(platform, old(self)@, kind),
            ),
            (platform is Linux || platform is Windows) && old(self)@ is Chord ==> posts@.len() > 0
                && (posts@[0] matches Post::HoldKeys(edges) && lifts_and_presses(
                edges,
                old(owners)@,
                final(owners)@,
            )),
            (platform is Linux || platform is Windows) && old(self)@ is AppSwitcher && kind is Chord
                ==> posts@.len() == 2 && (posts@[0] matches Post::HoldKeys(first) && first.down@
                == Seq::<HeldKey>::empty() && (posts@[1] matches Post::HoldKeys(second)
                && second.up@ == Seq::<HeldKey>::empty() && forall|key: HeldKey|
                #![trigger final(owners)@.contains_key(key)]
                final(owners)@.contains_key(key) <==> old(owners)@.contains_key(key)
                    && !first.up@.contains(key) || second.down@.contains(key))),
    {
        let previous = self.kind;
        self.kind = kind;
        let steps = retarget_steps(platform, &previous, &self.kind);
        proof {
            owners.lemma_counts();
            lemma_retarget_fits(platform, owners@, previous, kind);
        }
        let ghost before = owners@;
        let posts = post_all(platform, owners, &steps);
        proof {
            if platform is Linux || platform is Windows {
                lemma_retarget_fields(platform, before, previous, kind, posts@);
            }
        }
        posts
    }

    /// Release the output.
    pub fn release(self, platform: Platform, owners: &mut HeldKeyOwners) -> (post: Post)
        requires
            old(owners).wf(),
        ensures
            final(owners).wf(),
            final(owners)@ == owners_held(
                platform,
                old(owners)@,
                held_key_list(platform, self@),
                seq![],
            ),
            post@ == transition_post(
                platform,
                old(owners)@,
                held_key_list(platform, self@),
                seq![],
            ),
    {
        let released = held_keys(platform, &self.kind);
        proof {
            owners.lemma_counts();
            lemma_release_fits(owners@, released@);
        }
        let pressed: Vec<HeldKey> = Vec::new();
        hold_transition(platform, owners, &released, &pressed)
    }
}

/// A balanced quick switch: press the switcher hold and release it at once.
///
/// The ownership ends as it began.
pub fn quick_switch(platform: Platform, owners: &mut HeldKeyOwners) -> (posts: Vec<Post>)
    requires
        old(owners).wf(),
        batch_fits(platform, old(owners), seq![], switcher_key_list(platform)),
    ensures
        final(owners).wf(),
        final(owners)@ == old(owners)@,
        post_views(posts@) == steps_posts(
            platform,
            old(owners)@,
            press_plan(platform, HoldKind::AppSwitcher) + release_plan(
                platform,
                HoldKind::AppSwitcher,
            ),
        ),
{
    let ghost start = owners@;
    proof {
        owners.lemma_counts();
    }
    let (held, posts) = press_hold(platform, owners, HoldKind::AppSwitcher);
    let ghost pressed = posts@;
    let mut posts = posts;
    posts.push(held.release(platform, owners));
    proof {
        let press = press_plan(platform, HoldKind::AppSwitcher);
        let release = release_plan(platform, HoldKind::AppSwitcher);
        let keys = switcher_key_list(platform);
        if !(platform is Other) {
            assert(owners_after(owners_after(start, seq![], keys), keys, seq![]) =~= start);
        }
        lemma_press_owners(platform, start, HoldKind::AppSwitcher);
        lemma_steps_in_a_row(platform, start, press, release);
        assert(release.take(0) =~= seq![]);
        assert(post_views(posts@) =~= post_views(pressed).push(posts@.last()@));
        assert(steps_posts(platform, steps_owners(platform, start, press), release) =~= seq![
            posts@.last()@,
        ]);
        assert(post_views(posts@) =~= steps_posts(platform, start, press + release));
    }
    posts
}

/// What the posts of a repointed press lift and press, by their fields.
proof fn lemma_retarget_fields(
    platform: Platform,
    before: Map<HeldKey, nat>,
    previous: HoldKind,
    next: HoldKind,
    posts: Seq<Post>,
)
    requires
        platform is Linux || platform is Windows,
        counts_positive(before),
        post_views(posts) == steps_posts(
            platform,
            before,
            retarget_plan(platform, previous, next),
        ),
    ensures
        ({
            let after = steps_owners(platform, before, retarget_plan(platform, previous, next));
            &&& previous is Chord ==> posts.len() > 0 && (posts[0] matches Post::HoldKeys(edges)
                && lifts_and_presses(edges, before, after))
            &&& previous is AppSwitcher && next is Chord ==> posts.len() == 2
                && (posts[0] matches Post::HoldKeys(first) && first.down@ == Seq::<HeldKey>::empty()
                && (posts[1] matches Post::HoldKeys(second) && second.up@
                == Seq::<HeldKey>::empty() && forall|key: HeldKey|
                #![trigger after.contains_key(key)]
                after.contains_key(key) <==> before.contains_key(key) && !first.up@.contains(key)
                    || second.down@.contains(key)))
        }),
{
    let plan = retarget_plan(platform, previous, next);
    let from = held_key_list(platform, previous);
    let to = held_key_list(platform, next);
    let none = Seq::<HeldKey>::empty();
    let views = post_views(posts);
    assert(views.len() == posts.len());
    assert(plan.take(0) =~= seq![]);
    reveal_with_fuel(steps_owners, 3);
    if previous is Chord {
        assert(views[0] == posts[0]@);
        assert(plan.drop_last().len() == 0 || plan.drop_last().drop_last() =~= seq![]);
        if plan.len() == 2 {
            assert(plan.drop_last().last() == plan[0]);
        } else {
            assert(plan.drop_last() =~= seq![]);
        }
        law_posts_lift_and_press_what_changed(platform, before, from, to);
    } else if next is Chord {
        let middle = owners_after(before, from, none);
        assert(views[0] == posts[0]@);
        assert(views[1] == posts[1]@);
        assert(plan.take(1).drop_last() =~= seq![]);
        assert(plan.take(1).last() == plan[0]);
        assert(plan.drop_last() =~= plan.take(1));
        let after = owners_after(middle, none, to);
        assert(steps_owners(platform, before, plan) == after);
        law_posts_lift_and_press_what_changed(platform, before, from, none);
        law_posts_lift_and_press_what_changed(platform, middle, none, to);
        law_edges_come_in_the_order_of_the_list(none, HeldKey::Alt, middle, before);
        law_edges_come_in_the_order_of_the_list(none, HeldKey::Alt, middle, after);
        assert forall|key: HeldKey| #![trigger after.contains_key(key)]
            after.contains_key(key) <==> before.contains_key(key) && !crossing(
                from,
                before,
                middle,
            ).contains(key) || crossing(to, after, middle).contains(key) by {
            assert(count_after(middle, none, to, key) >= owner_count(middle, key));
            assert(occurrences(none, key) == 0);
        }
    }
}

/// The ownership after a press is that of its one batch.
pub proof fn lemma_press_owners(platform: Platform, owners: Map<HeldKey, nat>, kind: HoldKind)
    ensures
        steps_owners(platform, owners, press_plan(platform, kind)) == owners_held(
            platform,
            owners,
            seq![],
            held_key_list(platform, kind),
        ),
{
    reveal_with_fuel(steps_owners, 3);
    let plan = press_plan(platform, kind);
    if plan.len() == 2 {
        assert(plan.drop_last().drop_last() =~= seq![]);
        assert(plan.drop_last().last() == plan[0]);
    } else {
        assert(plan.drop_last() =~= seq![]);
    }
}

/// Two plans posted in a row post what the joined plan posts.
pub proof fn lemma_steps_in_a_row(
    platform: Platform,
    owners: Map<HeldKey, nat>,
    first: Seq<StepView>,
    second: Seq<StepView>,
)
    ensures
        steps_owners(platform, owners, first + second) == steps_owners(
            platform,
            steps_owners(platform, owners, first),
            second,
        ),
        steps_posts(platform, owners, first + second) == steps_posts(platform, owners, first)
            + steps_posts(platform, steps_owners(platform, owners, first), second),
    decreases second.len(),
{
    let middle = steps_owners(platform, owners, first);
    let joined = first + second;
    if second.len() == 0 {
        assert(joined =~= first);
        assert(steps_posts(platform, owners, first) + steps_posts(platform, middle, second)
            =~= steps_posts(platform, owners, first));
    } else {
        let rest = second.drop_last();
        lemma_steps_in_a_row(platform, owners, first, rest);
        assert(joined.drop_last() =~= first + rest);
        let posts = steps_posts(platform, owners, joined);
        let expected = steps_posts(platform, owners, first) + steps_posts(
            platform,
            middle,
            second,
        );
        let shorter = steps_posts(platform, owners, first + rest);
        assert forall|i: int| 0 <= i < posts.len() implies posts[i] == expected[i] by {
            if i < posts.len() - 1 {
                assert(joined.take(i) =~= (first + rest).take(i));
                assert(posts[i] == shorter[i]);
                if i >= first.len() {
                    let j = i - first.len();
                    assert(second.take(j) =~= rest.take(j));
                }
            } else {
                assert(joined.take(i) =~= first + rest);
                assert(second.take(second.len() - 1) =~= rest);
            }
        }
        assert(posts =~= expected);
    }
}

/// A batch that presses nothing leaves machine numbers.
proof fn lemma_release_fits(owners: Map<HeldKey, nat>, released: Seq<HeldKey>)
    requires
        forall|key: HeldKey| #[trigger] owner_count(owners, key) <= usize::MAX,
    ensures
        counts_fit(owners, released, seq![]),
{
    assert forall|key: HeldKey| #[trigger]
        count_after(owners, released, seq![], key) <= usize::MAX by {
        assert(owner_count(owners, key) <= usize::MAX);
    }
}

/// Releasing and pressing in two batches leaves the counts of the one batch.
pub proof fn lemma_split_batch(
    owners: Map<HeldKey, nat>,
    released: Seq<HeldKey>,
    pressed: Seq<HeldKey>,
)
    ensures
        owners_after(owners_after(owners, released, seq![]), seq![], pressed) == owners_after(
            owners,
            released,
            pressed,
        ),
        forall|key: HeldKey| #[trigger]
            count_after(owners_after(owners, released, seq![]), seq![], pressed, key)
                == count_after(owners, released, pressed, key),
{
    assert(owners_after(owners_after(owners, released, seq![]), seq![], pressed) =~= owners_after(
        owners,
        released,
        pressed,
    ));
}

/// Where the change as a whole fits, every step of a repointed press fits.
proof fn lemma_retarget_fits(
    platform: Platform,
    owners: Map<HeldKey, nat>,
    previous: HoldKind,
    next: HoldKind,
)
    requires
        forall|key: HeldKey| #[trigger] owner_count(owners, key) <= usize::MAX,
        platform is Other || counts_fit(
            owners,
            held_key_list(platform, previous),
            held_key_list(platform, next),
        ),
    ensures
        forall|i: int|
            0 <= i < retarget_plan(platform, previous, next).len() ==> #[trigger] step_fits(
                platform,
                steps_owners(
                    platform,
                    owners,
                    retarget_plan(platform, previous, next).take(i),
                ),
                retarget_plan(platform, previous, next)[i],
            ),
{
    let plan = retarget_plan(platform, previous, next);
    let from = held_key_list(platform, previous);
    let to = held_key_list(platform, next);
    reveal_with_fuel(steps_owners, 2);
    assert(plan.take(0) =~= seq![]);
    if !(platform is Other) {
        lemma_release_fits(owners, from);
        lemma_split_batch(owners, from, to);
        if plan.len() == 2 {
            assert(plan.take(1).drop_last() =~= seq![]);
            if previous is AppSwitcher {
                let released = owners_after(owners, from, seq![]);
                assert(steps_owners(platform, owners, plan.take(1)) == released);
                assert forall|key: HeldKey| #[trigger]
                    count_after(released, seq![], to, key) <= usize::MAX by {
                    assert(count_after(owners, from, to, key) <= usize::MAX);
                }
            }
        }
    }
}

} // verus!
