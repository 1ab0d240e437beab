//! Reference counts for the physical keys that held outputs share.

use std::collections::HashMap;

use vstd::prelude::*;

use crate::binding::KeyboardUsage;

verus! {

broadcast use vstd::std_specs::hash::group_hash_axioms;

/// Which isolated edge of a held keyboard chord to synthesize.
#[derive(Clone, Copy, Debug, PartialEq, Eq, Structural)]
pub enum KeyPhase {
    Down,
    Up,
}

/// One physical keyboard output shared by held outputs.
///
/// Logical Cmd and Ctrl are distinct on macOS. Cmd aliases Ctrl on Linux and
/// Windows, so ownership is counted after that platform mapping is resolved;
/// `Command` itself only ever has edges posted on macOS.
#[derive(Clone, Copy, Debug, PartialEq, Eq, Structural, Hash)]
pub enum HeldKey {
    Command,
    Control,
    Shift,
    Alt,
    Key(KeyboardUsage),
}

impl HeldKey {
    /// The number a key is counted under. Usages come first, the modifiers
    /// after them, so no two keys share a number.
    spec fn spec_slot(self) -> u16 {
        match self {
            HeldKey::Command => 0x100,
            HeldKey::Control => 0x101,
            HeldKey::Shift => 0x102,
            HeldKey::Alt => 0x103,
            HeldKey::Key(usage) => usage.code as u16,
        }
    }

    fn slot(self) -> (slot: u16)
        ensures
            slot == self.spec_slot(),
    {
        match self {
            HeldKey::Command => 0x100,
            HeldKey::Control => 0x101,
            HeldKey::Shift => 0x102,
            HeldKey::Alt => 0x103,
            HeldKey::Key(usage) => usage.code as u16,
        }
    }

    /// Whether the key is one of the four modifiers.
    pub open spec fn is_modifier(self) -> bool {
        !(self is Key)
    }
}

/// The edges one ownership batch leaves to post.
#[derive(Debug, PartialEq, Eq)]
pub struct HoldTransition {
    pub up: Vec<HeldKey>,
    pub down: Vec<HeldKey>,
}

/// How many owners a key has.
pub open spec fn owner_count(owners: Map<HeldKey, nat>, key: HeldKey) -> nat {
    if owners.contains_key(key) {
        owners[key]
    } else {
        0
    }
}

/// How often `key` stands in `keys`.
pub open spec fn occurrences(keys: Seq<HeldKey>, key: HeldKey) -> nat
    decreases keys.len(),
{
    if keys.len() == 0 {
        0
    } else {
        occurrences(keys.drop_last(), key) + if keys.last() == key {
            1nat
        } else {
            0nat
        }
    }
}

/// The owners a key has after a batch: every release takes one away while any
/// is left, and every press adds one.
pub open spec fn count_after(
    owners: Map<HeldKey, nat>,
    released: Seq<HeldKey>,
    pressed: Seq<HeldKey>,
    key: HeldKey,
) -> nat {
    let held = owner_count(owners, key);
    let lost = occurrences(released, key);
    (if lost < held {
        (held - lost) as nat
    } else {
        0
    }) + occurrences(pressed, key)
}

/// The ownership a batch leaves behind. A key without an owner is not in it.
pub open spec fn owners_after(
    owners: Map<HeldKey, nat>,
    released: Seq<HeldKey>,
    pressed: Seq<HeldKey>,
) -> Map<HeldKey, nat> {
    Map::new(
        |key: HeldKey| count_after(owners, released, pressed, key) > 0,
        |key: HeldKey| count_after(owners, released, pressed, key),
    )
}

/// Whether every count a batch leaves is a machine number.
pub open spec fn counts_fit(
    owners: Map<HeldKey, nat>,
    released: Seq<HeldKey>,
    pressed: Seq<HeldKey>,
) -> bool {
    forall|key: HeldKey| #[trigger] count_after(owners, released, pressed, key) <= usize::MAX
}

/// The keys of `keys`, in order, that are owned in `from` and not in `to`.
pub open spec fn crossing(
    keys: Seq<HeldKey>,
    from: Map<HeldKey, nat>,
    to: Map<HeldKey, nat>,
) -> Seq<HeldKey> {
    keys.filter(|key: HeldKey| from.contains_key(key) && !to.contains_key(key))
}

/// The aggregate modifier state, one bit for each modifier key.
#[derive(Clone, Copy, Debug, PartialEq, Eq, Structural)]
pub struct HeldModifiers {
    bits: u8,
}

/// The modifiers held after one edge of `key`. Other keys change nothing.
pub open spec fn modifiers_after(
    modifiers: Set<HeldKey>,
    key: HeldKey,
    held: bool,
) -> Set<HeldKey> {
    if !key.is_modifier() {
        modifiers
    } else if held {
        modifiers.insert(key)
    } else {
        modifiers.remove(key)
    }
}

impl View for HeldModifiers {
    type V = Set<HeldKey>;

    closed spec fn view(&self) -> Set<HeldKey> {
        Set::new(
            |key: HeldKey|
                match Self::spec_mask(key) {
                    Some(mask) => self.bits & mask != 0,
                    None => false,
                },
        )
    }
}

impl Default for HeldModifiers {
    fn default() -> (modifiers: Self)
        ensures
            modifiers.wf(),
            modifiers@ == Set::<HeldKey>::empty(),
    {
        let modifiers = HeldModifiers { bits: 0 };
        proof {
            assert(forall|mask: u8| #[trigger] (0u8 & mask) == 0) by (bit_vector);
            assert(modifiers@ =~= Set::<HeldKey>::empty());
        }
        modifiers
    }
}

impl HeldModifiers {
    /// Only the four modifier bits are in use.
    pub closed spec fn wf(&self) -> bool {
        self.bits < 0x10
    }

    spec fn spec_mask(key: HeldKey) -> Option<u8> {
        match key {
            HeldKey::Command => Some(0x1u8),
            HeldKey::Control => Some(0x2u8),
            HeldKey::Shift => Some(0x4u8),
            HeldKey::Alt => Some(0x8u8),
            HeldKey::Key(_) => None,
        }
    }

    /// The bit `key` is recorded in, none for a key that is no modifier.
    fn mask(key: HeldKey) -> (mask: Option<u8>)
        ensures
            mask == Self::spec_mask(key),
    {
        match key {
            HeldKey::Command => Some(0x1),
            HeldKey::Control => Some(0x2),
            HeldKey::Shift => Some(0x4),
            HeldKey::Alt => Some(0x8),
            HeldKey::Key(_) => None,
        }
    }

    /// Record one edge of `key`.
    pub fn set(&mut self, key: HeldKey, held: bool)
        requires
            old(self).wf(),
        ensures
            final(self).wf(),
            final(self)@ == modifiers_after(old(self)@, key, held),
            !key.is_modifier() ==> *final(self) == *old(self),
            key.is_modifier() ==> final(self)@.contains(key) == held,
            forall|other: HeldKey|
                other != key ==> #[trigger] final(self)@.contains(other) == old(self)@.contains(
                    other,
                ),
    {
        match Self::mask(key) {
            Some(mask) => {
                let bits: u8 = self.bits;
                if held {
                    self.bits = bits | mask;
                } else {
                    self.bits = bits & !mask;
                }
                proof {
                    assert(bits < 0x10 && (mask == 1 || mask == 2 || mask == 4 || mask == 8) ==> {
                        &&& bits | mask < 0x10
                        &&& bits & !mask < 0x10
                        &&& (bits | mask) & mask != 0
                        &&& (bits & !mask) & mask == 0
                        &&& mask != 1 ==> (bits | mask) & 1 == bits & 1
                        &&& mask != 2 ==> (bits | mask) & 2 == bits & 2
                        &&& mask != 4 ==> (bits | mask) & 4 == bits & 4
                        &&& mask != 8 ==> (bits | mask) & 8 == bits & 8
                        &&& mask != 1 ==> (bits & !mask) & 1 == bits & 1
                        &&& mask != 2 ==> (bits & !mask) & 2 == bits & 2
                        &&& mask != 4 ==> (bits & !mask) & 4 == bits & 4
                        &&& mask != 8 ==> (bits & !mask) & 8 == bits & 8
                    }) by (bit_vector);
                }
            },
            None => {},
        }
        assert(self@ =~= modifiers_after(old(self)@, key, held));
    }

    /// Whether `key` is a modifier recorded as held.
    pub fn contains(self, key: HeldKey) -> (held: bool)
        ensures
            held == self@.contains(key),
            !key.is_modifier() ==> !held,
    {
        match Self::mask(key) {
            Some(mask) => self.bits & mask != 0,
            None => false,
        }
    }

    /// A record never holds a key that is no modifier.
    pub proof fn law_only_modifiers(self, key: HeldKey)
        ensures
            self@.contains(key) ==> key.is_modifier(),
    {
    }

    /// Two records that hold the same modifiers are equal.
    pub proof fn law_same_modifiers_same_record(self, other: HeldModifiers)
        requires
            self.wf(),
            other.wf(),
            self@ == other@,
        ensures
            self == other,
    {
        let a = self.bits;
        let b = other.bits;
        assert((a & 1u8 != 0) == self@.contains(HeldKey::Command));
        assert((b & 1u8 != 0) == other@.contains(HeldKey::Command));
        assert((a & 2u8 != 0) == self@.contains(HeldKey::Control));
        assert((b & 2u8 != 0) == other@.contains(HeldKey::Control));
        assert((a & 4u8 != 0) == self@.contains(HeldKey::Shift));
        assert((b & 4u8 != 0) == other@.contains(HeldKey::Shift));
        assert((a & 8u8 != 0) == self@.contains(HeldKey::Alt));
        assert((b & 8u8 != 0) == other@.contains(HeldKey::Alt));
        assert(a < 0x10 && b < 0x10 && (a & 1 != 0) == (b & 1 != 0) && (a & 2 != 0) == (b & 2 != 0)
            && (a & 4 != 0) == (b & 4 != 0) && (a & 8 != 0) == (b & 8 != 0) ==> a == b)
            by (bit_vector);
    }
}

/// Reference counts for the physical keys held by active outputs.
pub struct HeldKeyOwners {
    owners: HashMap<u16, usize>,
}

impl View for HeldKeyOwners {
    type V = Map<HeldKey, nat>;

    closed spec fn view(&self) -> Map<HeldKey, nat> {
        Map::new(
            |key: HeldKey| self.owners@.contains_key(key.spec_slot()),
            |key: HeldKey| self.owners@[key.spec_slot()] as nat,
        )
    }
}

impl Default for HeldKeyOwners {
    fn default() -> (owners: Self)
        ensures
            owners.wf(),
            owners@ == Map::<HeldKey, nat>::empty(),
    {
        let owners = HeldKeyOwners { owners: HashMap::new() };
        assert(owners@ =~= Map::<HeldKey, nat>::empty());
        owners
    }
}

impl HeldKeyOwners {
    /// A key that is recorded has at least one owner.
    pub closed spec fn wf(&self) -> bool {
        forall|slot: u16| #[trigger]
            self.owners@.contains_key(slot) ==> self.owners@[slot] > 0
    }

    /// Whether every count still fits the machine after a batch.
    pub open spec fn fits(&self, released: Seq<HeldKey>, pressed: Seq<HeldKey>) -> bool {
        counts_fit(self@, released, pressed)
    }

    /// The counts a well-formed record shows are positive machine numbers.
    pub proof fn lemma_counts(&self)
        requires
            self.wf(),
        ensures
            counts_positive(self@),
            forall|key: HeldKey| #[trigger] owner_count(self@, key) <= usize::MAX,
    {
    }

    fn count(&self, key: HeldKey) -> (count: usize)
        requires
            self.wf(),
        ensures
            count == owner_count(self@, key),
    {
        match self.owners.get(&key.slot()) {
            Some(count) => *count,
            None => 0,
        }
    }

    /// Whether any output holds `key`.
    pub fn contains_key(&self, key: HeldKey) -> (owned: bool)
        requires
            self.wf(),
        ensures
            owned == self@.contains_key(key),
    {
        self.owners.contains_key(&key.slot())
    }

    fn release_one(&mut self, key: HeldKey)
        requires
            old(self).wf(),
        ensures
            final(self).wf(),
            final(self)@ == owners_after(old(self)@, seq![key], seq![]),
    {
        let count: usize = self.count(key);
        if count > 1 {
            self.owners.insert(key.slot(), count - 1);
        } else if count == 1 {
            self.owners.remove(&key.slot());
        }
        proof {
            lemma_occurrences_single(key);
            assert(self@ =~= owners_after(old(self)@, seq![key], seq![]));
        }
    }

    fn press_one(&mut self, key: HeldKey)
        requires
            old(self).wf(),
            owner_count(old(self)@, key) < usize::MAX,
        ensures
            final(self).wf(),
            final(self)@ == owners_after(old(self)@, seq![], seq![key]),
    {
        let count: usize = self.count(key);
        self.owners.insert(key.slot(), count + 1);
        proof {
            lemma_occurrences_single(key);
            assert(self@ =~= owners_after(old(self)@, seq![], seq![key]));
        }
    }

    /// Release `released` and press `pressed` as one batch, reporting the edges
    /// whose ownership crossed zero.
    ///
    /// The batch is what keeps a key steady: one still owned when the batch
    /// ends reports neither an up nor a down edge, so a hold that takes over a
    /// modifier another hold already has down does not flicker it. Order is
    /// meaningful between batches, not within one.
    pub fn transition(
        &mut self,
        released: &[HeldKey],
        pressed: &[HeldKey],
    ) -> (edges: HoldTransition)
        requires
            old(self).wf(),
            old(self).fits(released@, pressed@),
        ensures
            final(self).wf(),
            final(self)@ == owners_after(old(self)@, released@, pressed@),
            edges.up@ == crossing(released@, old(self)@, final(self)@),
            edges.down@ == crossing(pressed@, final(self)@, old(self)@),
    {
        let before = HeldKeyOwners { owners: self.owners.clone() };
        proof {
            self.lemma_counts();
            assert(self@ =~= owners_after(before@, released@.take(0), seq![]));
        }
        let mut i: usize = 0;
        while i < released.len()
            invariant
                i <= released@.len(),
                self.wf(),
                before.wf(),
                counts_positive(before@),
                self@ == owners_after(before@, released@.take(i as int), seq![]),
            decreases released@.len() - i,
        {
            self.release_one(released[i]);
            proof {
                lemma_release_step(before@, released@, i as int);
            }
            i = i + 1;
        }
        proof {
            assert(released@.take(i as int) =~= released@);
            assert(pressed@.take(0) =~= seq![]);
        }
        let mut j: usize = 0;
        while j < pressed.len()
            invariant
                j <= pressed@.len(),
                self.wf(),
                before.wf(),
                before.fits(released@, pressed@),
                self@ == owners_after(before@, released@, pressed@.take(j as int)),
            decreases pressed@.len() - j,
        {
            proof {
                lemma_press_step(before@, released@, pressed@, j as int);
                lemma_occurrences_prefix(pressed@, j + 1, pressed[j as int]);
                assert(count_after(before@, released@, pressed@, pressed[j as int])
                    <= usize::MAX);
            }
            self.press_one(pressed[j]);
            j = j + 1;
        }
        proof {
            assert(pressed@.take(j as int) =~= pressed@);
        }
        let up = Self::crossed(released, &before, self);
        let down = Self::crossed(pressed, self, &before);
        HoldTransition { up, down }
    }

    /// Whether the batch keeps every count within the machine's range.
    pub fn has_room(&self, released: &[HeldKey], pressed: &[HeldKey]) -> (room: bool)
        requires
            self.wf(),
        ensures
            room == self.fits(released@, pressed@),
    {
        let mut i: usize = 0;
        while i < pressed.len()
            invariant
                i <= pressed@.len(),
                self.wf(),
                forall|j: int|
                    0 <= j < i ==> count_after(self@, released@, pressed@, #[trigger] pressed@[j])
                        <= usize::MAX,
            decreases pressed@.len() - i,
        {
            let key = pressed[i];
            let held: usize = self.count(key);
            let lost: usize = count_occurrences(released, key);
            let kept: usize = if lost < held {
                held - lost
            } else {
                0
            };
            if count_occurrences(pressed, key) > usize::MAX - kept {
                assert(count_after(self@, released@, pressed@, key) > usize::MAX);
                return false;
            }
            i = i + 1;
        }
        assert forall|key: HeldKey| #[trigger]
            count_after(self@, released@, pressed@, key) <= usize::MAX by {
            self.lemma_counts();
            assert(owner_count(self@, key) <= usize::MAX);
            lemma_occurs_iff_contained(pressed@, key);
            if pressed@.contains(key) {
                let j = choose|j: int| 0 <= j < pressed@.len() && pressed@[j] == key;
                assert(count_after(self@, released@, pressed@, pressed@[j]) <= usize::MAX);
            }
        }
        true
    }

    /// The modifiers that some output holds.
    pub fn modifiers(&self) -> (modifiers: HeldModifiers)
        requires
            self.wf(),
        ensures
            modifiers.wf(),
            modifiers@ == owned_modifiers(self@),
    {
        let mut modifiers = HeldModifiers::default();
        modifiers.set(HeldKey::Command, self.contains_key(HeldKey::Command));
        modifiers.set(HeldKey::Control, self.contains_key(HeldKey::Control));
        modifiers.set(HeldKey::Shift, self.contains_key(HeldKey::Shift));
        modifiers.set(HeldKey::Alt, self.contains_key(HeldKey::Alt));
        assert(modifiers@ =~= owned_modifiers(self@));
        modifiers
    }

    /// The keys owned in `from` and no longer in `to`.
    fn crossed(keys: &[HeldKey], from: &Self, to: &Self) -> (crossed: Vec<HeldKey>)
        requires
            from.wf(),
            to.wf(),
        ensures
            crossed@ == crossing(keys@, from@, to@),
    {
        let mut crossed: Vec<HeldKey> = Vec::new();
        proof {
            reveal(Seq::filter);
            assert(crossing(keys@.take(0), from@, to@) =~= seq![]);
        }
        let mut i: usize = 0;
        while i < keys.len()
            invariant
                i <= keys@.len(),
                from.wf(),
                to.wf(),
                crossed@ == crossing(keys@.take(i as int), from@, to@),
            decreases keys@.len() - i,
        {
            let key = keys[i];
            proof {
                reveal(Seq::filter);
                assert(keys@.take(i + 1).drop_last() =~= keys@.take(i as int));
            }
            if from.contains_key(key) && !to.contains_key(key) {
                crossed.push(key);
            }
            i = i + 1;
        }
        proof {
            assert(keys@.take(i as int) =~= keys@);
        }
        crossed
    }
}

/// The modifiers among the owned keys.
pub open spec fn owned_modifiers(owners: Map<HeldKey, nat>) -> Set<HeldKey> {
    Set::new(|key: HeldKey| key.is_modifier() && owners.contains_key(key))
}

fn count_occurrences(keys: &[HeldKey], key: HeldKey) -> (count: usize)
    ensures
        count == occurrences(keys@, key),
{
    let mut count: usize = 0;
    let mut i: usize = 0;
    while i < keys.len()
        invariant
            count <= i <= keys@.len(),
            count == occurrences(keys@.take(i as int), key),
        decreases keys@.len() - i,
    {
        assert(keys@.take(i + 1).drop_last() =~= keys@.take(i as int));
        if keys[i] == key {
            count = count + 1;
        }
        i = i + 1;
    }
    assert(keys@.take(i as int) =~= keys@);
    count
}

/// Every recorded key has an owner.
pub open spec fn counts_positive(owners: Map<HeldKey, nat>) -> bool {
    forall|key: HeldKey| #[trigger] owners.contains_key(key) ==> owners[key] > 0
}

proof fn lemma_occurrences_single(key: HeldKey)
    ensures
        forall|other: HeldKey|
            #![trigger occurrences(seq![key], other)]
            occurrences(seq![key], other) == if other == key { 1nat } else { 0nat },
{
    assert(seq![key].drop_last() =~= seq![]);
    assert forall|other: HeldKey|
        #![trigger occurrences(seq![key], other)]
        occurrences(seq![key], other) == if other == key { 1nat } else { 0nat } by {
        assert(occurrences(seq![key].drop_last(), other) == 0);
    }
}

proof fn lemma_release_step(owners: Map<HeldKey, nat>, released: Seq<HeldKey>, i: int)
    requires
        0 <= i < released.len(),
    ensures
        owners_after(
            owners_after(owners, released.take(i), seq![]),
            seq![released[i]],
            seq![],
        ) == owners_after(owners, released.take(i + 1), seq![]),
{
    lemma_occurrences_single(released[i]);
    assert(released.take(i + 1).drop_last() =~= released.take(i));
    assert(owners_after(
        owners_after(owners, released.take(i), seq![]),
        seq![released[i]],
        seq![],
    ) =~= owners_after(owners, released.take(i + 1), seq![]));
}

proof fn lemma_press_step(
    owners: Map<HeldKey, nat>,
    released: Seq<HeldKey>,
    pressed: Seq<HeldKey>,
    i: int,
)
    requires
        0 <= i < pressed.len(),
    ensures
        owners_after(owners_after(owners, released, pressed.take(i)), seq![], seq![pressed[i]])
            == owners_after(owners, released, pressed.take(i + 1)),
        owner_count(owners_after(owners, released, pressed.take(i)), pressed[i]) + 1
            == count_after(owners, released, pressed.take(i + 1), pressed[i]),
{
    lemma_occurrences_single(pressed[i]);
    assert(pressed.take(i + 1).drop_last() =~= pressed.take(i));
    assert(owners_after(
        owners_after(owners, released, pressed.take(i)),
        seq![],
        seq![pressed[i]],
    ) =~= owners_after(owners, released, pressed.take(i + 1)));
}

/// A prefix holds a key no more often than the whole.
proof fn lemma_occurrences_prefix(keys: Seq<HeldKey>, n: int, key: HeldKey)
    requires
        0 <= n <= keys.len(),
    ensures
        occurrences(keys.take(n), key) <= occurrences(keys, key),
    decreases keys.len(),
{
    if n == keys.len() {
        assert(keys.take(n) =~= keys);
    } else {
        lemma_occurrences_prefix(keys.drop_last(), n, key);
        assert(keys.drop_last().take(n) =~= keys.take(n));
    }
}

/// A list holds a key exactly when its front part does or its last item is the
/// key.
pub proof fn lemma_front_or_last(keys: Seq<HeldKey>, key: HeldKey)
    requires
        keys.len() > 0,
    ensures
        keys.contains(key) <==> keys.drop_last().contains(key) || keys.last() == key,
{
    let front = keys.drop_last();
    if keys.contains(key) && keys.last() != key {
        let i = choose|i: int| 0 <= i < keys.len() && keys[i] == key;
        assert(front[i] == key);
    }
    if front.contains(key) {
        let i = choose|i: int| 0 <= i < front.len() && front[i] == key;
        assert(keys[i] == key);
    }
    assert(keys[keys.len() - 1] == keys.last());
}

/// A key occurs in a list exactly when the list holds it.
pub proof fn lemma_occurs_iff_contained(keys: Seq<HeldKey>, key: HeldKey)
    ensures
        occurrences(keys, key) > 0 <==> keys.contains(key),
    decreases keys.len(),
{
    if keys.len() > 0 {
        lemma_occurs_iff_contained(keys.drop_last(), key);
        lemma_front_or_last(keys, key);
    }
}

} // verus!
