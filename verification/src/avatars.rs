//! The cache of agents' avatars: what is loaded, what is on its way, and when
//! a failed load may be tried again.

use std::sync::Arc;
use vstd::prelude::*;

use crate::text::same;

verus! {

/// How many avatars the cache keeps once one was loaded.
pub const MAX_ENTRIES: usize = 64;

/// Nanoseconds in a second.
pub const NANOS_PER_SECOND: u64 = 1_000_000_000;

/// Nanoseconds by which a redraw comes after the end of a wait.
pub const RETRY_GRACE_NANOS: u64 = 60_000_000;

/// What an avatar expresses.
#[derive(Debug, Clone, Copy, PartialEq, Eq, Hash, Structural)]
pub enum AvatarState {
    Idle,
    Thinking,
    Running,
    Error,
}

/// The ink that an avatar is drawn in.
#[derive(Debug, Clone, Copy, PartialEq, Eq, Hash, Structural)]
pub enum AvatarTheme {
    Dark,
    Light,
}

/// Whether a theme is dark or light.
#[derive(Debug, Clone, Copy, PartialEq, Eq, Structural)]
pub enum Appearance {
    Dark,
    Light,
}

/// What the sidebar says of a chat.
#[derive(Debug, Clone, Copy, PartialEq, Eq, Structural)]
pub enum ChatIndicator {
    Working,
    AwaitingInput,
    Errored,
    Completed,
    Idle,
}

/// One drawing of an agent's avatar.
#[derive(Debug, PartialEq, Eq, Hash)]
pub struct AvatarKey {
    pub agent_id: String,
    pub state: AvatarState,
    pub theme: AvatarTheme,
    pub bucket: u32,
}

impl View for AvatarKey {
    type V = (Seq<char>, AvatarState, AvatarTheme, u32);

    open spec fn view(&self) -> (Seq<char>, AvatarState, AvatarTheme, u32) {
        (self.agent_id@, self.state, self.theme, self.bucket)
    }
}

impl AvatarKey {
    /// The drawing of `agent_id` in a state, an ink and a size.
    pub fn new(agent_id: &str, state: AvatarState, theme: AvatarTheme, bucket: u32) -> (key: Self)
        ensures
            key@ == (agent_id@, state, theme, bucket),
    {
        AvatarKey { agent_id: agent_id.to_owned(), state, theme, bucket }
    }

    fn duplicate(&self) -> (copy: Self)
        ensures
            copy == *self,
    {
        AvatarKey {
            agent_id: self.agent_id.clone(),
            state: self.state,
            theme: self.theme,
            bucket: self.bucket,
        }
    }

    fn is(&self, other: &AvatarKey) -> (equal: bool)
        ensures
            equal == (self@ == other@),
    {
        self.state == other.state && self.theme == other.theme && self.bucket == other.bucket
            && same(self.agent_id.as_str(), other.agent_id.as_str())
    }
}

/// An avatar as it is drawn.
#[derive(Debug)]
pub enum AvatarSnapshot {
    Loaded(Arc<Vec<u8>>),
    Loading,
    Error { retry_in: u64 },
}

/// What the cache holds of one drawing. `last_used` is the tick of its last
/// use, `at` the time of its last failure in nanoseconds.
#[derive(Debug)]
pub enum CacheEntry {
    Loaded { image: Arc<Vec<u8>>, last_used: u64 },
    Loading { attempts: u32, last_used: u64 },
    Error { attempts: u32, at: u64, last_used: u64 },
}

impl CacheEntry {
    /// The tick of the last use.
    pub open spec fn used(self) -> u64 {
        match self {
            CacheEntry::Loaded { last_used, .. } => last_used,
            CacheEntry::Loading { last_used, .. } => last_used,
            CacheEntry::Error { last_used, .. } => last_used,
        }
    }

    /// The entry with its last use at `tick`.
    pub open spec fn touched(self, tick: u64) -> CacheEntry {
        match self {
            CacheEntry::Loaded { image, .. } => CacheEntry::Loaded { image, last_used: tick },
            CacheEntry::Loading { attempts, .. } => CacheEntry::Loading {
                attempts,
                last_used: tick,
            },
            CacheEntry::Error { attempts, at, .. } => CacheEntry::Error {
                attempts,
                at,
                last_used: tick,
            },
        }
    }

    fn last_use(&self) -> (tick: u64)
        ensures
            tick == self.used(),
    {
        match self {
            CacheEntry::Loaded { last_used, .. } => *last_used,
            CacheEntry::Loading { last_used, .. } => *last_used,
            CacheEntry::Error { last_used, .. } => *last_used,
        }
    }

    fn touch(self, tick: u64) -> (entry: CacheEntry)
        ensures
            entry == self.touched(tick),
    {
        match self {
            CacheEntry::Loaded { image, .. } => CacheEntry::Loaded { image, last_used: tick },
            CacheEntry::Loading { attempts, .. } => CacheEntry::Loading {
                attempts,
                last_used: tick,
            },
            CacheEntry::Error { attempts, at, .. } => CacheEntry::Error {
                attempts,
                at,
                last_used: tick,
            },
        }
    }
}

/// A drawing and what the cache holds of it.
#[derive(Debug)]
pub struct Slot {
    pub key: AvatarKey,
    pub entry: CacheEntry,
}

/// The cache: one slot per drawing, a clock of uses, a count of clearings and
/// the images that are no longer shown but not yet freed.
#[derive(Debug)]
pub struct AvatarCache {
    pub slots: Vec<Slot>,
    pub tick: u64,
    pub generation: u64,
    pub pending_free: Vec<Arc<Vec<u8>>>,
}

/// The clock's next tick; it stops at its end.
pub open spec fn next(tick: u64) -> u64 {
    if tick == u64::MAX {
        tick
    } else {
        (tick + 1) as u64
    }
}

/// Where the slot of `key` stands, or the number of slots.
pub open spec fn slot_of(slots: Seq<Slot>, key: AvatarKey) -> int
    decreases slots.len(),
{
    if slots.len() == 0 || slots[0].key@ == key@ {
        0
    } else {
        1 + slot_of(slots.skip(1), key)
    }
}

/// What the cache holds of `key`.
pub open spec fn entry_of(slots: Seq<Slot>, key: AvatarKey) -> Option<CacheEntry> {
    if slot_of(slots, key) < slots.len() {
        Some(slots[slot_of(slots, key)].entry)
    } else {
        None
    }
}

/// The slots once `entry` is what the cache holds of `key`.
pub open spec fn stored(slots: Seq<Slot>, key: AvatarKey, entry: CacheEntry) -> Seq<Slot> {
    let at = slot_of(slots, key);
    if at < slots.len() {
        slots.update(at, Slot { key: slots[at].key, entry })
    } else {
        slots.push(Slot { key, entry })
    }
}

/// The image that an entry holds.
pub open spec fn image_of(entry: Option<CacheEntry>) -> Seq<Arc<Vec<u8>>> {
    match entry {
        Some(CacheEntry::Loaded { image, .. }) => seq![image],
        _ => Seq::empty(),
    }
}

/// The first slot, other than that of `protected`, that was used longest ago,
/// among the first `n`; -1 if there is none.
pub open spec fn oldest_among(slots: Seq<Slot>, protected: AvatarKey, n: int) -> int
    decreases n,
{
    if n <= 0 {
        -1
    } else {
        let before = oldest_among(slots, protected, n - 1);
        if slots[n - 1].key@ == protected@ {
            before
        } else if before == -1 || slots[n - 1].entry.used() < slots[before].entry.used() {
            n - 1
        } else {
            before
        }
    }
}

/// The slots and the images to free after the ones used longest ago were
/// dropped, down to the size that the cache keeps; the slot of `protected`
/// stays.
pub open spec fn evicted(
    slots: Seq<Slot>,
    pending: Seq<Arc<Vec<u8>>>,
    protected: AvatarKey,
) -> (Seq<Slot>, Seq<Arc<Vec<u8>>>)
    decreases slots.len(),
{
    let at = oldest_among(slots, protected, slots.len() as int);
    if slots.len() <= MAX_ENTRIES || at < 0 || at >= slots.len() {
        (slots, pending)
    } else {
        evicted(slots.remove(at), pending + image_of(Some(slots[at].entry)), protected)
    }
}

/// Whether no drawing has two slots.
pub open spec fn distinct_keys(slots: Seq<Slot>) -> bool {
    forall|i: int, j: int|
        0 <= i < j < slots.len() ==> (#[trigger] slots[i]).key@ != (#[trigger] slots[j]).key@
}

proof fn lemma_slot_of(slots: Seq<Slot>, key: AvatarKey)
    ensures
        0 <= slot_of(slots, key) <= slots.len(),
        slot_of(slots, key) < slots.len() ==> slots[slot_of(slots, key)].key@ == key@,
        forall|j: int| 0 <= j < slot_of(slots, key) ==> (#[trigger] slots[j]).key@ != key@,
    decreases slots.len(),
{
    if slots.len() > 0 && slots[0].key@ != key@ {
        let rest = slots.skip(1);
        lemma_slot_of(rest, key);
        assert forall|j: int| 0 <= j < slot_of(slots, key) implies (#[trigger] slots[j]).key@
            != key@ by {
            if j > 0 {
                assert(rest[j - 1] == slots[j]);
            }
        }
    }
}

proof fn lemma_slot_at(slots: Seq<Slot>, key: AvatarKey, at: int)
    requires
        0 <= at <= slots.len(),
        forall|j: int| 0 <= j < at ==> (#[trigger] slots[j]).key@ != key@,
        at < slots.len() ==> slots[at].key@ == key@,
    ensures
        slot_of(slots, key) == at,
{
    lemma_slot_of(slots, key);
    let found = slot_of(slots, key);
    if found < at {
        assert(slots[found].key@ != key@);
    }
    if found > at {
        assert(slots[at].key@ != key@);
    }
}

proof fn lemma_oldest(slots: Seq<Slot>, protected: AvatarKey, n: int)
    requires
        0 <= n <= slots.len(),
    ensures
        ({
            let at = oldest_among(slots, protected, n);
            &&& -1 <= at < n
            &&& at >= 0 ==> {
                &&& slots[at].key@ != protected@
                &&& forall|j: int|
                    0 <= j < n && (#[trigger] slots[j]).key@ != protected@
                        ==> slots[at].entry.used() <= slots[j].entry.used()
            }
            &&& at < 0 ==> forall|j: int| 0 <= j < n ==> (#[trigger] slots[j]).key@ == protected@
        }),
    decreases n,
{
    if n > 0 {
        lemma_oldest(slots, protected, n - 1);
    }
}

impl AvatarCache {
    /// Whether no drawing has two slots.
    pub open spec fn wf(self) -> bool {
        distinct_keys(self.slots@)
    }

    /// An empty cache.
    pub fn new() -> (cache: Self)
        ensures
            cache.wf(),
            cache.slots@.len() == 0,
            cache.tick == 0,
            cache.generation == 0,
            cache.pending_free@.len() == 0,
    {
        AvatarCache { slots: Vec::new(), tick: 0, generation: 0, pending_free: Vec::new() }
    }

    fn next_tick(&mut self) -> (tick: u64)
        ensures
            tick == next(old(self).tick),
            *final(self) == (AvatarCache { tick, ..*old(self) }),
    {
        self.tick = self.tick.saturating_add(1);
        self.tick
    }

    fn find(&self, key: &AvatarKey) -> (at: usize)
        ensures
            at == slot_of(self.slots@, *key),
            at <= self.slots@.len(),
            at < self.slots@.len() ==> self.slots@[at as int].key@ == key@,
    {
        let mut i: usize = 0;
        while i < self.slots.len()
            invariant
                i <= self.slots@.len(),
                forall|j: int| 0 <= j < i ==> (#[trigger] self.slots@[j]).key@ != key@,
            decreases self.slots.len() - i,
        {
            if self.slots[i].key.is(key) {
                proof {
                    lemma_slot_at(self.slots@, *key, i as int);
                }
                return i;
            }
            i += 1;
        }
        proof {
            lemma_slot_at(self.slots@, *key, i as int);
        }
        i
    }

    /// Makes `entry` what the cache holds of `key`, and hands back what it
    /// held.
    fn store(&mut self, key: AvatarKey, entry: CacheEntry) -> (previous: Option<CacheEntry>)
        requires
            old(self).wf(),
        ensures
            final(self).wf(),
            final(self).slots@ == stored(old(self).slots@, key, entry),
            previous == entry_of(old(self).slots@, key),
            *final(self) == (AvatarCache { slots: final(self).slots, ..*old(self) }),
    {
        let ghost before = self.slots@;
        let at = self.find(&key);
        if at < self.slots.len() {
            let slot = self.slots.remove(at);
            self.slots.insert(at, Slot { key: slot.key, entry });
            assert(self.slots@ =~= stored(before, key, entry));
            Some(slot.entry)
        } else {
            proof {
                lemma_slot_of(before, key);
            }
            self.slots.push(Slot { key, entry });
            None
        }
    }

    fn oldest(&self, protected: &AvatarKey) -> (at: Option<usize>)
        ensures
            match at {
                Some(i) => i == oldest_among(
                    self.slots@,
                    *protected,
                    self.slots@.len() as int,
                ) && i < self.slots@.len(),
                None => oldest_among(self.slots@, *protected, self.slots@.len() as int) == -1,
            },
    {
        let mut best: Option<usize> = None;
        let mut i: usize = 0;
        while i < self.slots.len()
            invariant
                i <= self.slots@.len(),
                match best {
                    Some(b) => b == oldest_among(self.slots@, *protected, i as int) && b
                        < self.slots@.len(),
                    None => oldest_among(self.slots@, *protected, i as int) == -1,
                },
            decreases self.slots.len() - i,
        {
            if !self.slots[i].key.is(protected) {
                let older = match best {
                    Some(b) => self.slots[i].entry.last_use() < self.slots[b].entry.last_use(),
                    None => true,
                };
                if older {
                    best = Some(i);
                }
            }
            i += 1;
        }
        best
    }

    fn evict_overflow(&mut self, protected: &AvatarKey)
        requires
            old(self).wf(),
        ensures
            final(self).wf(),
            (final(self).slots@, final(self).pending_free@) == evicted(
                old(self).slots@,
                old(self).pending_free@,
                *protected,
            ),
            *final(self) == (AvatarCache {
                slots: final(self).slots,
                pending_free: final(self).pending_free,
                ..*old(self)
            }),
    {
        let ghost goal = evicted(self.slots@, self.pending_free@, *protected);
        while self.slots.len() > MAX_ENTRIES
            invariant
                self.wf(),
                goal == evicted(self.slots@, self.pending_free@, *protected),
                self.tick == old(self).tick,
                self.generation == old(self).generation,
            ensures
                self.wf(),
                goal == (self.slots@, self.pending_free@),
                self.tick == old(self).tick,
                self.generation == old(self).generation,
            decreases self.slots.len(),
        {
            match self.oldest(protected) {
                Some(at) => {
                    let ghost before = self.slots@;
                    let ghost pending = self.pending_free@;
                    let slot = self.slots.remove(at);
                    if let CacheEntry::Loaded { image, .. } = slot.entry {
                        self.pending_free.push(image);
                    }
                    assert(self.pending_free@ =~= pending + image_of(
                        Some(before[at as int].entry),
                    ));
                },
                None => {
                    break ;
                },
            }
        }
    }

    fn insert_loaded(&mut self, key: AvatarKey, image: Arc<Vec<u8>>)
        requires
            old(self).wf(),
        ensures
            final(self).wf(),
            final(self).tick == next(old(self).tick),
            final(self).generation == old(self).generation,
            (final(self).slots@, final(self).pending_free@) == evicted(
                stored(
                    old(self).slots@,
                    key,
                    CacheEntry::Loaded { image, last_used: next(old(self).tick) },
                ),
                old(self).pending_free@ + image_of(entry_of(old(self).slots@, key)),
                key,
            ),
    {
        let ghost pending = self.pending_free@;
        let ghost held = entry_of(self.slots@, key);
        let tick = self.next_tick();
        let protected = key.duplicate();
        let previous = self.store(key, CacheEntry::Loaded { image, last_used: tick });
        if let Some(CacheEntry::Loaded { image: replaced, .. }) = previous {
            self.pending_free.push(replaced);
        }
        assert(self.pending_free@ =~= pending + image_of(held));
        self.evict_overflow(&protected);
    }
}

/// Seconds to wait before the load after `attempts` failed ones.
pub open spec fn ladder(attempts: nat) -> u64 {
    if attempts == 0 {
        2
    } else if attempts == 1 {
        4
    } else if attempts == 2 {
        8
    } else {
        15
    }
}

/// Seconds to wait before the load after `attempts` failed ones: twice as long
/// each time, up to a quarter of a minute.
pub fn retry_delay(attempts: u32) -> (seconds: u64)
    ensures
        seconds == ladder(attempts as nat),
{
    let shift: u32 = if attempts < 3 {
        attempts
    } else {
        3
    };
    assert(2u64 << 0u32 == 2) by (bit_vector);
    assert(2u64 << 1u32 == 4) by (bit_vector);
    assert(2u64 << 2u32 == 8) by (bit_vector);
    assert(2u64 << 3u32 == 16) by (bit_vector);
    let seconds: u64 = 2u64 << shift;
    if seconds < 15 {
        seconds
    } else {
        15
    }
}

/// Waiting never gets shorter with another failure, and stays between two and
/// fifteen seconds.
pub proof fn law_the_retry_ladder_is_bounded(attempts: nat, more: nat)
    requires
        attempts <= more,
    ensures
        2 <= ladder(attempts) <= ladder(more) <= 15,
{
}

/// What an avatar expresses for a chat.
pub open spec fn expression(indicator: ChatIndicator) -> AvatarState {
    match indicator {
        ChatIndicator::Working => AvatarState::Running,
        ChatIndicator::AwaitingInput => AvatarState::Thinking,
        ChatIndicator::Errored => AvatarState::Error,
        ChatIndicator::Completed => AvatarState::Idle,
        ChatIndicator::Idle => AvatarState::Idle,
    }
}

/// What an avatar expresses for a chat.
pub fn avatar_state(indicator: ChatIndicator) -> (state: AvatarState)
    ensures
        state == expression(indicator),
{
    match indicator {
        ChatIndicator::Working => AvatarState::Running,
        ChatIndicator::AwaitingInput => AvatarState::Thinking,
        ChatIndicator::Errored => AvatarState::Error,
        ChatIndicator::Completed | ChatIndicator::Idle => AvatarState::Idle,
    }
}

/// How much attention a state asks for.
pub open spec fn severity(state: AvatarState) -> int {
    match state {
        AvatarState::Idle => 0,
        AvatarState::Thinking => 1,
        AvatarState::Running => 2,
        AvatarState::Error => 3,
    }
}

fn rank(state: AvatarState) -> (rank: u8)
    ensures
        rank == severity(state),
{
    match state {
        AvatarState::Idle => 0,
        AvatarState::Thinking => 1,
        AvatarState::Running => 2,
        AvatarState::Error => 3,
    }
}

/// What one avatar expresses for a group: the state among them that asks for
/// most attention, and idleness for an empty group.
pub fn group_avatar_state(states: &Vec<AvatarState>) -> (state: AvatarState)
    ensures
        forall|i: int| 0 <= i < states@.len() ==> severity(#[trigger] states@[i]) <= severity(state),
        states@.len() == 0 ==> state is Idle,
        states@.len() > 0 ==> states@.contains(state),
{
    let mut worst = AvatarState::Idle;
    let mut i: usize = 0;
    while i < states.len()
        invariant
            i <= states@.len(),
            forall|j: int| 0 <= j < i ==> severity(#[trigger] states@[j]) <= severity(worst),
            i == 0 ==> worst is Idle,
            i > 0 ==> states@.contains(worst),
        decreases states.len() - i,
    {
        if rank(states[i]) >= rank(worst) {
            worst = states[i];
            assert(states@[i as int] == worst);
        }
        i += 1;
    }
    worst
}

/// The ink of avatars under an appearance.
pub fn avatar_theme(appearance: Appearance) -> (theme: AvatarTheme)
    ensures
        theme == match appearance {
            Appearance::Dark => AvatarTheme::Dark,
            Appearance::Light => AvatarTheme::Light,
        },
{
    match appearance {
        Appearance::Dark => AvatarTheme::Dark,
        Appearance::Light => AvatarTheme::Light,
    }
}

/// Nanoseconds from `at` to `now`, or none when `at` lies ahead.
pub open spec fn elapsed(at: u64, now: u64) -> int {
    if now > at {
        now - at
    } else {
        0
    }
}

/// How long an avatar that failed `attempts` times, last at `at`, has still to
/// wait at `now`, in nanoseconds.
pub open spec fn waits(attempts: u32, at: u64, now: u64) -> int {
    let delay = ladder(
        if attempts == 0 {
            0
        } else {
            (attempts - 1) as nat
        },
    ) * NANOS_PER_SECOND;
    if delay > elapsed(at, now) {
        delay - elapsed(at, now)
    } else {
        0
    }
}

fn wait(attempts: u32, at: u64, now: u64) -> (nanos: u64)
    ensures
        nanos == waits(attempts, at, now),
{
    let delay: u64 = retry_delay(attempts.saturating_sub(1)) * NANOS_PER_SECOND;
    delay.saturating_sub(now.saturating_sub(at))
}

/// What is drawn for `key` at `now`: its image, or how long a failed load has
/// still to wait. Looking counts as a use.
pub fn snapshot(cache: &mut AvatarCache, key: &AvatarKey, now: u64) -> (shown: AvatarSnapshot)
    requires
        old(cache).wf(),
    ensures
        final(cache).wf(),
        final(cache).tick == next(old(cache).tick),
        match entry_of(old(cache).slots@, *key) {
            Some(entry) => final(cache).slots@ == stored(
                old(cache).slots@,
                *key,
                entry.touched(next(old(cache).tick)),
            ),
            None => final(cache).slots@ == old(cache).slots@,
        },
        *final(cache) == (AvatarCache {
            slots: final(cache).slots,
            tick: final(cache).tick,
            ..*old(cache)
        }),
        shown == match entry_of(old(cache).slots@, *key) {
            Some(CacheEntry::Loaded { image, .. }) => AvatarSnapshot::Loaded(image),
            Some(CacheEntry::Loading { .. }) => AvatarSnapshot::Loading,
            Some(CacheEntry::Error { attempts, at, .. }) => AvatarSnapshot::Error {
                retry_in: waits(attempts, at, now) as u64,
            },
            None => AvatarSnapshot::Loading,
        },
{
    let ghost before = cache.slots@;
    let tick = cache.next_tick();
    let at = cache.find(key);
    if at < cache.slots.len() {
        let slot = cache.slots.remove(at);
        let shown = match &slot.entry {
            CacheEntry::Loaded { image, .. } => AvatarSnapshot::Loaded(image.clone()),
            CacheEntry::Loading { .. } => AvatarSnapshot::Loading,
            CacheEntry::Error { attempts, at: failed, .. } => AvatarSnapshot::Error {
                retry_in: wait(*attempts, *failed, now),
            },
        };
        cache.slots.insert(at, Slot { key: slot.key, entry: slot.entry.touch(tick) });
        assert(cache.slots@ =~= stored(before, *key, before[at as int].entry.touched(tick)));
        shown
    } else {
        AvatarSnapshot::Loading
    }
}

/// What the cache holds of a drawing that someone wants to load at `now`, and
/// whether the load is theirs: nobody else loads it, and a failed load has
/// waited long enough.
pub open spec fn claimed(held: Option<CacheEntry>, tick: u64, now: u64) -> (CacheEntry, bool) {
    match held {
        None => (CacheEntry::Loading { attempts: 0, last_used: tick }, true),
        Some(CacheEntry::Error { attempts, at, .. }) => if waits(attempts, at, now) == 0 {
            (CacheEntry::Loading { attempts, last_used: tick }, true)
        } else {
            (held->0.touched(tick), false)
        },
        Some(entry) => (entry.touched(tick), false),
    }
}

/// Claims the load of `key`: at most one claim is granted until the load ends.
pub fn begin_load(cache: &mut AvatarCache, key: &AvatarKey, now: u64) -> (granted: bool)
    requires
        old(cache).wf(),
    ensures
        final(cache).wf(),
        final(cache).tick == next(old(cache).tick),
        *final(cache) == (AvatarCache {
            slots: final(cache).slots,
            tick: final(cache).tick,
            ..*old(cache)
        }),
        ({
            let (entry, mine) = claimed(
                entry_of(old(cache).slots@, *key),
                next(old(cache).tick),
                now,
            );
            &&& granted == mine
            &&& final(cache).slots@ == stored(old(cache).slots@, *key, entry)
        }),
{
    let ghost before = cache.slots@;
    let tick = cache.next_tick();
    let at = cache.find(key);
    if at < cache.slots.len() {
        let slot = cache.slots.remove(at);
        let retried = match &slot.entry {
            CacheEntry::Error { attempts, at: failed, .. } => {
                if wait(*attempts, *failed, now) == 0 {
                    Some(*attempts)
                } else {
                    None
                }
            },
            _ => None,
        };
        let ghost held = slot.entry;
        let (entry, granted) = match retried {
            Some(attempts) => (CacheEntry::Loading { attempts, last_used: tick }, true),
            None => (slot.entry.touch(tick), false),
        };
        assert((entry, granted) == claimed(Some(held), tick, now));
        cache.slots.insert(at, Slot { key: slot.key, entry });
        assert(cache.slots@ =~= stored(before, *key, entry));
        granted
    } else {
        cache.store(key.duplicate(), CacheEntry::Loading { attempts: 0, last_used: tick });
        true
    }
}

/// Stores the bytes of a loaded drawing, then drops those that were used
/// longest ago.
pub fn store_loaded(cache: &mut AvatarCache, key: AvatarKey, bytes: Vec<u8>)
    requires
        old(cache).wf(),
    ensures
        final(cache).wf(),
        final(cache).tick == next(old(cache).tick),
        final(cache).generation == old(cache).generation,
        (final(cache).slots@, final(cache).pending_free@) == evicted(
            stored(
                old(cache).slots@,
                key,
                CacheEntry::Loaded { image: Arc::new(bytes), last_used: next(old(cache).tick) },
            ),
            old(cache).pending_free@ + image_of(entry_of(old(cache).slots@, key)),
            key,
        ),
{
    cache.insert_loaded(key, Arc::new(bytes));
}

/// How often the cache was cleared.
pub fn generation(cache: &AvatarCache) -> (count: u64)
    ensures
        count == cache.generation,
{
    cache.generation
}

/// How many failures an entry counts once its load failed.
pub open spec fn failures(held: Option<CacheEntry>) -> u32 {
    match held {
        Some(CacheEntry::Loading { attempts, .. }) => if attempts == u32::MAX {
            attempts
        } else {
            (attempts + 1) as u32
        },
        Some(CacheEntry::Error { attempts, .. }) => attempts,
        _ => 1,
    }
}

/// Records at `now` that the load of `key` failed.
pub fn store_error(cache: &mut AvatarCache, key: &AvatarKey, now: u64)
    requires
        old(cache).wf(),
    ensures
        final(cache).wf(),
        final(cache).tick == next(old(cache).tick),
        final(cache).slots@ == stored(
            old(cache).slots@,
            *key,
            CacheEntry::Error {
                attempts: failures(entry_of(old(cache).slots@, *key)),
                at: now,
                last_used: next(old(cache).tick),
            },
        ),
        *final(cache) == (AvatarCache {
            slots: final(cache).slots,
            tick: final(cache).tick,
            ..*old(cache)
        }),
{
    let tick = cache.next_tick();
    let at = cache.find(key);
    let attempts: u32 = if at < cache.slots.len() {
        match &cache.slots[at].entry {
            CacheEntry::Loading { attempts, .. } => (*attempts).saturating_add(1),
            CacheEntry::Error { attempts, .. } => *attempts,
            CacheEntry::Loaded { .. } => 1,
        }
    } else {
        1
    };
    cache.store(key.duplicate(), CacheEntry::Error { attempts, at: now, last_used: tick });
}

/// Brings the end of a load into the cache: its bytes, or that it failed at
/// `now`. A load that began in another generation of the cache is dropped.
pub fn finish_load(
    cache: &mut AvatarCache,
    key: AvatarKey,
    started: u64,
    bytes: Option<Vec<u8>>,
    now: u64,
) -> (taken: bool)
    requires
        old(cache).wf(),
    ensures
        final(cache).wf(),
        taken == (old(cache).generation == started),
        !taken ==> *final(cache) == *old(cache),
        taken ==> final(cache).tick == next(old(cache).tick) && final(cache).generation == old(
            cache,
        ).generation,
        taken && bytes is Some ==> (final(cache).slots@, final(cache).pending_free@) == evicted(
            stored(
                old(cache).slots@,
                key,
                CacheEntry::Loaded { image: Arc::new(bytes->0), last_used: next(old(cache).tick) },
            ),
            old(cache).pending_free@ + image_of(entry_of(old(cache).slots@, key)),
            key,
        ),
        taken && bytes is None ==> {
            &&& final(cache).slots@ == stored(
                old(cache).slots@,
                key,
                CacheEntry::Error {
                    attempts: failures(entry_of(old(cache).slots@, key)),
                    at: now,
                    last_used: next(old(cache).tick),
                },
            )
            &&& final(cache).pending_free@ == old(cache).pending_free@
        },
{
    if generation(cache) != started {
        return false;
    }
    match bytes {
        Some(loaded) => store_loaded(cache, key, loaded),
        None => store_error(cache, &key, now),
    }
    true
}

/// Nanoseconds after which a failed load is drawn again: a little more than it
/// has to wait. None while a redraw is scheduled already.
pub fn retry_timer(retry_in: u64, scheduled: bool) -> (nanos: Option<u64>)
    ensures
        nanos == if scheduled || retry_in > u64::MAX - RETRY_GRACE_NANOS {
            None
        } else {
            Some((retry_in + RETRY_GRACE_NANOS) as u64)
        },
{
    if scheduled {
        None
    } else {
        retry_in.checked_add(RETRY_GRACE_NANOS)
    }
}

/// The images of the first `n` slots.
pub open spec fn images(slots: Seq<Slot>, n: int) -> Seq<Arc<Vec<u8>>>
    decreases n,
{
    if n <= 0 {
        Seq::empty()
    } else {
        images(slots, n - 1) + image_of(Some(slots[n - 1].entry))
    }
}

/// Empties the cache: every image is to be freed, and loads that are on their
/// way belong to an older generation.
pub fn clear(cache: &mut AvatarCache)
    ensures
        final(cache).wf(),
        final(cache).slots@.len() == 0,
        final(cache).tick == old(cache).tick,
        final(cache).generation == if old(cache).generation == u64::MAX {
            0
        } else {
            old(cache).generation + 1
        },
        final(cache).pending_free@ == old(cache).pending_free@ + images(
            old(cache).slots@,
            old(cache).slots@.len() as int,
        ),
{
    cache.generation = cache.generation.wrapping_add(1);
    let ghost slots = cache.slots@;
    let ghost pending = cache.pending_free@;
    let mut i: usize = 0;
    assert(pending + images(slots, 0) =~= pending);
    while i < cache.slots.len()
        invariant
            i <= cache.slots@.len(),
            cache.slots@ == slots,
            cache.tick == old(cache).tick,
            cache.generation == if old(cache).generation == u64::MAX {
                0
            } else {
                old(cache).generation + 1
            },
            cache.pending_free@ == pending + images(slots, i as int),
        decreases cache.slots.len() - i,
    {
        let ghost freed = cache.pending_free@;
        if let CacheEntry::Loaded { image, .. } = &cache.slots[i].entry {
            let released = image.clone();
            cache.pending_free.push(released);
        }
        assert(cache.pending_free@ =~= freed + image_of(Some(slots[i as int].entry)));
        assert(freed + image_of(Some(slots[i as int].entry)) =~= pending + images(slots, i + 1));
        i += 1;
    }
    cache.slots = Vec::new();
}

/// Hands out the images to free.
pub fn flush_evicted(cache: &mut AvatarCache) -> (images: Vec<Arc<Vec<u8>>>)
    ensures
        images@ == old(cache).pending_free@,
        final(cache).pending_free@.len() == 0,
        *final(cache) == (AvatarCache { pending_free: final(cache).pending_free, ..*old(cache) }),
{
    let mut images: Vec<Arc<Vec<u8>>> = Vec::new();
    std::mem::swap(&mut images, &mut cache.pending_free);
    images
}

/// The cache keeps the drawings that were used last: after a load it holds at
/// most as many as it may, the loaded one among them, and none that it dropped
/// was used later than one that it kept beside the loaded one.
pub proof fn law_the_least_recently_used_go_first(
    slots: Seq<Slot>,
    pending: Seq<Arc<Vec<u8>>>,
    protected: AvatarKey,
)
    requires
        distinct_keys(slots),
    ensures
        ({
            let kept = evicted(slots, pending, protected).0;
            &&& kept.len() <= MAX_ENTRIES
            &&& forall|slot: Slot| #[trigger] kept.contains(slot) ==> slots.contains(slot)
            &&& forall|slot: Slot|
                slots.contains(slot) && slot.key@ == protected@ ==> #[trigger] kept.contains(slot)
            &&& forall|dropped: Slot, held: Slot|
                slots.contains(dropped) && !(#[trigger] kept.contains(dropped))
                    && #[trigger] kept.contains(held) && held.key@ != protected@
                    ==> dropped.entry.used() <= held.entry.used()
        }),
    decreases slots.len(),
{
    let at = oldest_among(slots, protected, slots.len() as int);
    lemma_oldest(slots, protected, slots.len() as int);
    if slots.len() > MAX_ENTRIES {
        if at < 0 {
            assert(slots[0].key@ == slots[1].key@);
        }
        let rest = slots.remove(at);
        let freed = pending + image_of(Some(slots[at].entry));
        assert forall|i: int, j: int| 0 <= i < j < rest.len() implies (#[trigger] rest[i]).key@ != (
        #[trigger] rest[j]).key@ by {
            let a = if i < at {
                i
            } else {
                i + 1
            };
            let b = if j < at {
                j
            } else {
                j + 1
            };
            assert(slots[a] == rest[i] && slots[b] == rest[j]);
        }
        law_the_least_recently_used_go_first(rest, freed, protected);
        let kept = evicted(rest, freed, protected).0;
        assert(kept == evicted(slots, pending, protected).0);
        assert forall|slot: Slot| rest.contains(slot) implies slots.contains(slot) by {
            let i = choose|i: int| 0 <= i < rest.len() && rest[i] == slot;
            assert(slots[if i < at {
                i
            } else {
                i + 1
            }] == slot);
        }
        assert forall|slot: Slot| slots.contains(slot) && slot != slots[at] implies rest.contains(
            slot,
        ) by {
            let i = choose|i: int| 0 <= i < slots.len() && slots[i] == slot;
            assert(rest[if i < at {
                i
            } else {
                i - 1
            }] == slot);
        }
        assert forall|dropped: Slot, held: Slot|
            slots.contains(dropped) && !(#[trigger] kept.contains(dropped))
                && #[trigger] kept.contains(held) && held.key@
                != protected@ implies dropped.entry.used() <= held.entry.used() by {
            if dropped == slots[at] {
                let h = choose|h: int| 0 <= h < slots.len() && slots[h] == held;
                assert(slots.contains(held));
                assert(slots[at].entry.used() <= slots[h].entry.used());
            }
        }
    }
}

/// A load that was claimed is not claimed again before it ends.
pub proof fn law_a_load_is_claimed_once(
    held: Option<CacheEntry>,
    tick: u64,
    now: u64,
    later_tick: u64,
    later: u64,
)
    requires
        claimed(held, tick, now).1,
    ensures
        !claimed(Some(claimed(held, tick, now).0), later_tick, later).1,
        claimed(Some(claimed(held, tick, now).0), later_tick, later).0 is Loading,
{
}

/// What the cache holds of a drawing is found under its key, and what it holds of
/// the others stays.
pub proof fn law_what_is_stored_is_found(
    slots: Seq<Slot>,
    key: AvatarKey,
    entry: CacheEntry,
    other: AvatarKey,
)
    requires
        other@ != key@,
    ensures
        entry_of(stored(slots, key, entry), key) == Some(entry),
        entry_of(stored(slots, key, entry), other) == entry_of(slots, other),
{
    lemma_slot_of(slots, key);
    lemma_slot_of(slots, other);
    let at = slot_of(slots, key);
    let after = stored(slots, key, entry);
    lemma_slot_of(after, key);
    lemma_slot_of(after, other);
    lemma_slot_at(after, key, at);
    let place = slot_of(slots, other);
    if place < slots.len() {
        assert forall|j: int| 0 <= j < place implies (#[trigger] after[j]).key@ != other@ by {
            assert(after[j].key@ == slots[j].key@);
        }
        lemma_slot_at(after, other, place);
    } else if slot_of(after, other) < after.len() {
        let found = slot_of(after, other);
        if found < slots.len() {
            assert(after[found].key@ == slots[found].key@);
        }
    }
}

/// A load that was claimed and failed: when, and at which ticks of the cache.
pub struct FailedLoad {
    pub claimed_at: u64,
    pub claim_tick: u64,
    pub failed_at: u64,
    pub fail_tick: u64,
}

/// What the cache holds of a drawing, unknown at first, after these loads of it.
pub open spec fn after_failures(loads: Seq<FailedLoad>) -> Option<CacheEntry>
    decreases loads.len(),
{
    if loads.len() == 0 {
        None
    } else {
        let held = after_failures(loads.drop_last());
        let load = loads.last();
        let loading = claimed(held, load.claim_tick, load.claimed_at).0;
        Some(
            CacheEntry::Error {
                attempts: failures(Some(loading)),
                at: load.failed_at,
                last_used: load.fail_tick,
            },
        )
    }
}

/// Whether each of these loads was granted when it was claimed.
pub open spec fn all_granted(loads: Seq<FailedLoad>) -> bool {
    forall|i: int|
        0 <= i < loads.len() ==> claimed(
            after_failures(loads.take(i)),
            (#[trigger] loads[i]).claim_tick,
            loads[i].claimed_at,
        ).1
}

/// After a number of loads in a row that were granted and failed, a drawing waits
/// for its step of the ladder, counted from the last failure, and its next load
/// is granted when that wait is over and not before.
pub proof fn law_failures_in_a_row_climb_the_ladder(
    loads: Seq<FailedLoad>,
    tick: u64,
    now: u64,
)
    requires
        loads.len() > 0,
        all_granted(loads),
    ensures
        ({
            let held = after_failures(loads);
            let delay = ladder((loads.len() - 1) as nat) * NANOS_PER_SECOND;
            let passed = elapsed(loads.last().failed_at, now);
            let left = if delay > passed {
                delay - passed
            } else {
                0
            };
            &&& held is Some && held->0 is Error
            &&& held->0->at == loads.last().failed_at
            &&& waits(held->0->Error_attempts, held->0->at, now) == left
            &&& claimed(held, tick, now).1 == (left == 0)
        }),
{
    lemma_failures_are_counted(loads);
}

proof fn lemma_failures_are_counted(loads: Seq<FailedLoad>)
    requires
        loads.len() > 0,
        all_granted(loads),
    ensures
        after_failures(loads) is Some,
        after_failures(loads)->0 is Error,
        after_failures(loads)->0->at == loads.last().failed_at,
        after_failures(loads)->0->Error_attempts == if loads.len() < u32::MAX {
            loads.len() as int
        } else {
            u32::MAX as int
        },
    decreases loads.len(),
{
    let earlier = loads.drop_last();
    let last = loads.len() - 1;
    assert(loads.take(last) == earlier);
    assert(claimed(after_failures(earlier), loads[last].claim_tick, loads[last].claimed_at).1);
    if earlier.len() > 0 {
        assert forall|i: int| 0 <= i < earlier.len() implies claimed(
            after_failures(earlier.take(i)),
            (#[trigger] earlier[i]).claim_tick,
            earlier[i].claimed_at,
        ).1 by {
            assert(earlier.take(i) == loads.take(i));
            assert(earlier[i] == loads[i]);
        }
        lemma_failures_are_counted(earlier);
    }
}

/// No drawing goes while there is room, and no more go than must: an overfull
/// cache is left with just as many as it may hold. The drawings that go are
/// handed over to be freed, behind those that wait for it already.
pub proof fn law_no_more_go_than_must(
    slots: Seq<Slot>,
    pending: Seq<Arc<Vec<u8>>>,
    protected: AvatarKey,
)
    requires
        distinct_keys(slots),
    ensures
        ({
            let after = evicted(slots, pending, protected);
            &&& slots.len() <= MAX_ENTRIES ==> after == (slots, pending)
            &&& slots.len() > MAX_ENTRIES ==> after.0.len() == MAX_ENTRIES
            &&& pending.is_prefix_of(after.1)
            &&& forall|slot: Slot|
                slots.contains(slot) && !(#[trigger] after.0.contains(slot)) && slot.entry is Loaded
                    ==> after.1.contains(slot.entry->image)
        }),
    decreases slots.len(),
{
    let at = oldest_among(slots, protected, slots.len() as int);
    lemma_oldest(slots, protected, slots.len() as int);
    if slots.len() > MAX_ENTRIES {
        if at < 0 {
            assert(slots[0].key@ == protected@ && slots[1].key@ == protected@);
        }
        let rest = slots.remove(at);
        assert forall|i: int, j: int| 0 <= i < j < rest.len() implies (#[trigger] rest[i]).key@ != (
        #[trigger] rest[j]).key@ by {
            let a = if i < at {
                i
            } else {
                i + 1
            };
            let b = if j < at {
                j
            } else {
                j + 1
            };
            assert(slots[a].key@ != slots[b].key@);
        }
        let more = pending + image_of(Some(slots[at].entry));
        law_no_more_go_than_must(rest, more, protected);
        let after = evicted(slots, pending, protected);
        assert(pending.is_prefix_of(more));
        assert forall|slot: Slot|
            slots.contains(slot) && !(#[trigger] after.0.contains(slot))
                && slot.entry is Loaded implies after.1.contains(slot.entry->image) by {
            let k = slots.index_of(slot);
            if k == at {
                assert(more[pending.len() as int] == slot.entry->image);
                assert(after.1[pending.len() as int] == more[pending.len() as int]) by {
                    assert(after.1.subrange(0, more.len() as int) == more);
                }
            } else {
                assert(rest[if k < at {
                    k
                } else {
                    k - 1
                }] == slot);
            }
        }
        assert(after.1.subrange(0, pending.len() as int) =~= pending) by {
            assert(after.1.subrange(0, more.len() as int) == more);
        }
    }
}

/// The first wait is two seconds, and each further failure doubles it, up to
/// fifteen seconds.
pub proof fn law_waits_double_up_to_a_limit(attempts: nat)
    ensures
        ladder(0) == 2,
        2 * ladder(attempts) <= 15 ==> ladder(attempts + 1) == 2 * ladder(attempts),
        2 * ladder(attempts) > 15 ==> ladder(attempts + 1) == 15,
{
}

/// What is left to wait after a failure is its delay less the time that has
/// gone by, and nothing once the delay is over. The first failure waits as
/// long as a first attempt.
pub proof fn law_a_wait_runs_out(attempts: u32, at: u64, gone: u64)
    requires
        at + gone <= u64::MAX,
    ensures
        ({
            let delay = ladder(
                if attempts <= 1 {
                    0
                } else {
                    (attempts - 1) as nat
                },
            ) * 1_000_000_000;
            &&& gone < delay ==> waits(attempts, at, (at + gone) as u64) == delay - gone
            &&& gone >= delay ==> waits(attempts, at, (at + gone) as u64) == 0
        }),
{
}

/// Using an entry notes when, and changes nothing else of it.
pub proof fn law_using_an_entry_keeps_it(entry: CacheEntry, tick: u64)
    ensures
        entry.touched(tick).used() == tick,
        entry.touched(entry.used()) == entry,
        entry is Loaded ==> entry.touched(tick) is Loaded && entry.touched(tick)->image
            == entry->image,
        entry is Loading ==> entry.touched(tick) is Loading && entry.touched(tick)->Loading_attempts
            == entry->Loading_attempts,
        entry is Error ==> entry.touched(tick) is Error && entry.touched(tick)->Error_attempts
            == entry->Error_attempts && entry.touched(tick)->at == entry->at,
{
}

/// An error outweighs work, work outweighs waiting for an answer, and anything
/// outweighs rest; a chat that errored, works or waits shows just that, and
/// any other one rests.
pub proof fn law_the_gravest_state_shows(indicator: ChatIndicator)
    ensures
        severity(AvatarState::Error) > severity(AvatarState::Running) > severity(
            AvatarState::Thinking,
        ) > severity(AvatarState::Idle),
        expression(indicator) is Error == indicator is Errored,
        expression(indicator) is Running == indicator is Working,
        expression(indicator) is Thinking == indicator is AwaitingInput,
{
}

/// A load may begin where nothing is held and where a failure has waited long
/// enough, which keeps count of the failures; what is loaded or being loaded is
/// not loaded again.
pub proof fn law_a_load_begins_where_nothing_is_held(held: Option<CacheEntry>, tick: u64, now: u64)
    ensures
        ({
            let (entry, granted) = claimed(held, tick, now);
            &&& entry.used() == tick
            &&& held is None ==> granted
            &&& held is Some && !(held->0 is Error) ==> !granted && entry == held->0.touched(tick)
            &&& held is Some && held->0 is Error ==> granted == (waits(
                held->0->Error_attempts,
                held->0->at,
                now,
            ) == 0)
            &&& granted ==> entry is Loading && entry->Loading_attempts == (if held is None {
                0
            } else {
                held->0->Error_attempts
            })
        }),
{
}

/// Each failed load counts once more than those before it.
pub proof fn law_failures_are_counted(attempts: u32, tick: u64)
    ensures
        failures(None) == 1,
        attempts < u32::MAX ==> failures(Some(CacheEntry::Loading { attempts, last_used: tick }))
            == attempts + 1,
{
}

/// Time moves on by one tick, until the count is full.
pub proof fn law_ticks_move_on(tick: u64)
    ensures
        tick < u64::MAX ==> next(tick) == tick + 1,
        tick == u64::MAX ==> next(tick) == tick,
{
}

/// The drawings of a cache are those of its loaded entries, in their order.
pub proof fn law_every_loaded_drawing_is_handed_over(slots: Seq<Slot>, slot: Slot)
    ensures
        images(Seq::empty(), 0).len() == 0,
        ({
            let all = slots.push(slot);
            let front = images(slots, slots.len() as int);
            &&& slot.entry is Loaded ==> images(all, all.len() as int) == front.push(
                slot.entry->image,
            )
            &&& !(slot.entry is Loaded) ==> images(all, all.len() as int) == front
        }),
{
    let all = slots.push(slot);
    lemma_images_of_prefix(all, slots, slots.len() as int);
    let front = images(slots, slots.len() as int);
    assert(images(all, all.len() as int) =~= if slot.entry is Loaded {
        front.push(slot.entry->image)
    } else {
        front
    });
}

proof fn lemma_images_of_prefix(all: Seq<Slot>, slots: Seq<Slot>, n: int)
    requires
        n <= slots.len() <= all.len(),
        forall|i: int| 0 <= i < n ==> all[i] == slots[i],
    ensures
        images(all, n) == images(slots, n),
    decreases n,
{
    if n > 0 {
        lemma_images_of_prefix(all, slots, n - 1);
    }
}

/// An entry is found under the first slot of its key, and storing it again
/// replaces it there; a new key gets a slot of its own behind the others.
pub proof fn law_an_entry_has_one_slot(slots: Seq<Slot>, key: AvatarKey, entry: CacheEntry, at: int)
    requires
        0 <= at < slots.len(),
        slots[at].key@ == key@,
        forall|j: int| 0 <= j < at ==> (#[trigger] slots[j]).key@ != key@,
    ensures
        entry_of(slots, key) == Some(slots[at].entry),
        stored(slots, key, entry).len() == slots.len(),
        stored(slots, key, entry)[at].entry == entry,
        stored(slots, key, entry)[at].key@ == key@,
        forall|j: int|
            0 <= j < slots.len() && j != at ==> #[trigger] stored(slots, key, entry)[j] == slots[j],
{
    lemma_slot_at(slots, key, at);
}

} // verus!
