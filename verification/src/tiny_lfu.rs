//! A small cache that keeps what is used often.
//!
//! A new entry enters through a window of one. The entry that it displaces from there competes for
//! a place among the protected entries: it takes the place of the weakest of them only if it was
//! asked for more often. Frequencies age, so that no entry stays for what it once was.
use vstd::multiset::Multiset;
use vstd::prelude::*;

verus! {

/// What a cache can be keyed by.
pub trait CacheKey: Sized {
    /// What tells keys apart.
    type Name;

    spec fn name(&self) -> Self::Name;

    fn same(&self, other: &Self) -> (same: bool)
        ensures
            same == (self.name() == other.name()),
    ;

    fn copied(&self) -> (copy: Self)
        ensures
            copy.name() == self.name(),
    ;
}

impl CacheKey for u16 {
    type Name = u16;

    open spec fn name(&self) -> u16 {
        *self
    }

    fn same(&self, other: &u16) -> (same: bool) {
        *self == *other
    }

    fn copied(&self) -> (copy: u16) {
        *self
    }
}

/// The part of the cache that an entry is in.
#[derive(Clone, Copy, Debug, PartialEq, Eq, Structural)]
pub enum CacheSegment {
    Window,
    Main,
}

/// Whether the protected entries may become more.
#[derive(Clone, Copy, Debug, PartialEq, Eq, Structural)]
pub enum MainAdmissionMode {
    GrowIfSpace,
    ReplaceResident,
}

/// Why an entry left the cache.
#[derive(Clone, Copy, Debug, PartialEq, Eq, Structural)]
pub enum CacheEvictionReason {
    DuplicateReplacement,
    FrequencyAdmission,
    FrequencyRejection,
    PoolCapacityReplacement,
    MemoryPressure,
}

/// An entry of the cache.
pub struct CacheEntry<K, V> {
    pub key: K,
    pub value: V,
    pub last_access: u64,
}

/// What an entry holds.
pub struct Resident<N, V> {
    pub key: N,
    pub value: V,
    pub last_access: nat,
}

impl<K: CacheKey, V> View for CacheEntry<K, V> {
    type V = Resident<K::Name, V>;

    open spec fn view(&self) -> Resident<K::Name, V> {
        Resident {
            key: self.key.name(),
            value: self.value,
            last_access: self.last_access as nat,
        }
    }
}

/// An entry that was taken out to be used, and its place.
pub struct TakenCacheEntry<K, V> {
    pub key: K,
    pub value: V,
    pub segment: CacheSegment,
}

/// An entry that the cache gave up.
pub struct EvictedCacheEntry<K, V> {
    pub entry: CacheEntry<K, V>,
    pub reason: CacheEvictionReason,
    /// Whether it was in the cache, or only wanted to enter.
    pub was_cached: bool,
}

/// What an `EvictedCacheEntry` holds.
pub struct Eviction<N, V> {
    pub entry: Resident<N, V>,
    pub reason: CacheEvictionReason,
    pub was_cached: bool,
}

impl<K: CacheKey, V> View for EvictedCacheEntry<K, V> {
    type V = Eviction<K::Name, V>;

    open spec fn view(&self) -> Eviction<K::Name, V> {
        Eviction { entry: self.entry@, reason: self.reason, was_cached: self.was_cached }
    }
}

/// What became of an entry that wanted to enter.
pub struct CacheInsertionResult<K, V> {
    pub candidate_admitted: bool,
    pub evicted: Option<EvictedCacheEntry<K, V>>,
}

/// What an option of an `EvictedCacheEntry` holds.
pub open spec fn eviction_of<K: CacheKey, V>(evicted: Option<EvictedCacheEntry<K, V>>) -> Option<
    Eviction<K::Name, V>,
> {
    match evicted {
        Some(evicted) => Some(evicted@),
        None => None,
    }
}

/// What a list of `EvictedCacheEntry` holds.
pub open spec fn evictions_of<K: CacheKey, V>(evicted: Seq<EvictedCacheEntry<K, V>>) -> Seq<
    Eviction<K::Name, V>,
> {
    evicted.map_values(|evicted: EvictedCacheEntry<K, V>| evicted@)
}

/// The cache after an entry wanted to enter, and what became of it.
#[verifier::ext_equal]
#[verifier::reject_recursive_types(N)]
pub struct Insertion<N, V> {
    pub cache: CacheModel<N, V>,
    pub admitted: bool,
    pub evicted: Option<Eviction<N, V>>,
}

/// What the cache holds.
#[verifier::ext_equal]
#[verifier::reject_recursive_types(N)]
pub struct CacheModel<N, V> {
    pub window: Option<Resident<N, V>>,
    pub main: Seq<Resident<N, V>>,
    pub main_capacity: nat,
    /// How often each key was asked for.
    pub frequencies: spec_fn(N) -> nat,
    pub aging_interval: nat,
    pub observations: nat,
    pub clock: nat,
}

impl<N, V> CacheModel<N, V> {
    pub open spec fn len(self) -> nat {
        (if self.window is Some {
            1nat
        } else {
            0nat
        }) + self.main.len()
    }

    /// The first place from `i` on among the protected entries that holds a key.
    pub open spec fn position(self, key: N, i: int) -> Option<int>
        decreases self.main.len() - i,
    {
        if i >= self.main.len() {
            None
        } else if self.main[i].key == key {
            Some(i)
        } else {
            self.position(key, i + 1)
        }
    }

    pub open spec fn in_window(self, key: N) -> bool {
        self.window matches Some(entry) && entry.key == key
    }

    pub open spec fn contains_key(self, key: N) -> bool {
        self.in_window(key) || self.position(key, 0) is Some
    }

    /// The keys, that of the window first.
    pub open spec fn keys(self) -> Seq<N> {
        (match self.window {
            Some(entry) => seq![entry.key],
            None => Seq::empty(),
        }) + self.main.map_values(|entry: Resident<N, V>| entry.key)
    }

    /// Whether every key is there once.
    pub open spec fn keys_are_distinct(self) -> bool {
        &&& forall|i: int, j: int|
            0 <= i < j < self.main.len() ==> (#[trigger] self.main[i]).key != (
            #[trigger] self.main[j]).key
        &&& self.window matches Some(entry) ==> forall|i: int|
            0 <= i < self.main.len() ==> (#[trigger] self.main[i]).key != entry.key
    }

    /// The cache after a key was asked for. After so many questions all frequencies are halved.
    pub open spec fn observed(self, key: N) -> CacheModel<N, V> {
        let before = self.frequencies;
        let count = if before(key) < u16::MAX {
            before(key) + 1
        } else {
            u16::MAX as nat
        };
        if self.observations + 1 == self.aging_interval {
            CacheModel {
                frequencies: |n: N|
                    if n == key {
                        count / 2
                    } else {
                        before(n) / 2
                    },
                observations: 0,
                ..self
            }
        } else {
            CacheModel {
                frequencies: |n: N|
                    if n == key {
                        count
                    } else {
                        before(n)
                    },
                observations: self.observations + 1,
                ..self
            }
        }
    }

    /// Whether a protected entry is weaker than another: asked for less often, or as often but not
    /// as lately.
    pub open spec fn weaker(self, a: Resident<N, V>, b: Resident<N, V>) -> bool {
        let frequency = self.frequencies;
        frequency(a.key) < frequency(b.key) || (frequency(a.key) == frequency(b.key)
            && a.last_access < b.last_access)
    }

    /// The weakest of the first `n` protected entries.
    pub open spec fn weakest(self, n: int) -> int
        decreases n,
    {
        if n <= 1 {
            0
        } else {
            let weakest = self.weakest(n - 1);
            if self.weaker(self.main[n - 1], self.main[weakest]) {
                n - 1
            } else {
                weakest
            }
        }
    }

    /// The cache after an entry asked for a place among the protected ones. An entry from the
    /// window has to be asked for more often than the weakest of them; a protected entry that
    /// comes back wins a tie if it was used later.
    pub open spec fn admitted_to_main(
        self,
        candidate: Resident<N, V>,
        returning_resident: bool,
        candidate_was_cached: bool,
        mode: MainAdmissionMode,
        main_capacity: nat,
    ) -> Insertion<N, V> {
        let frequency = self.frequencies;
        let at = self.weakest(self.main.len() as int);
        let victim = self.main[at];
        if mode == MainAdmissionMode::GrowIfSpace && self.main.len() < main_capacity {
            Insertion {
                cache: CacheModel { main: self.main.push(candidate), ..self },
                admitted: true,
                evicted: None,
            }
        } else if frequency(candidate.key) > frequency(victim.key) || (returning_resident
            && frequency(candidate.key) == frequency(victim.key) && candidate.last_access
            > victim.last_access) {
            Insertion {
                cache: CacheModel { main: self.main.update(at, candidate), ..self },
                admitted: true,
                evicted: Some(
                    Eviction {
                        entry: victim,
                        reason: CacheEvictionReason::FrequencyAdmission,
                        was_cached: true,
                    },
                ),
            }
        } else {
            Insertion {
                cache: self,
                admitted: false,
                evicted: Some(
                    Eviction {
                        entry: candidate,
                        reason: CacheEvictionReason::FrequencyRejection,
                        was_cached: candidate_was_cached,
                    },
                ),
            }
        }
    }

    /// The cache after an entry wanted to enter a part of it. An entry with the same key is
    /// replaced where it is.
    pub open spec fn inserted(
        self,
        key: N,
        value: V,
        segment: CacheSegment,
        returning_resident: bool,
        main_capacity: nat,
    ) -> Insertion<N, V> {
        let ticked = CacheModel { clock: self.clock + 1, ..self };
        let candidate = Resident { key, value, last_access: self.clock + 1 };
        match (self.window, self.position(key, 0)) {
            (Some(duplicate), _) if duplicate.key == key => Insertion {
                cache: CacheModel { window: Some(candidate), ..ticked },
                admitted: true,
                evicted: Some(
                    Eviction {
                        entry: duplicate,
                        reason: CacheEvictionReason::DuplicateReplacement,
                        was_cached: true,
                    },
                ),
            },
            (_, Some(i)) => Insertion {
                cache: CacheModel { main: self.main.update(i, candidate), ..ticked },
                admitted: true,
                evicted: Some(
                    Eviction {
                        entry: self.main[i],
                        reason: CacheEvictionReason::DuplicateReplacement,
                        was_cached: true,
                    },
                ),
            },
            (displaced, None) => {
                if segment == CacheSegment::Main {
                    ticked.admitted_to_main(
                        candidate,
                        returning_resident,
                        false,
                        MainAdmissionMode::GrowIfSpace,
                        main_capacity,
                    )
                } else {
                    let entered = CacheModel { window: Some(candidate), ..ticked };
                    match displaced {
                        Some(displaced) => {
                            let moved = entered.admitted_to_main(
                                displaced,
                                false,
                                true,
                                MainAdmissionMode::GrowIfSpace,
                                main_capacity,
                            );
                            Insertion { admitted: true, ..moved }
                        },
                        None => Insertion { cache: entered, admitted: true, evicted: None },
                    }
                }
            },
        }
    }

    /// Whether a key can enter without the cache holding more: it displaces another one from the
    /// window.
    pub open spec fn can_insert_without_growth(self, key: N) -> bool {
        self.window is Some && !self.contains_key(key)
    }

    /// The cache after an entry entered that must not make it larger.
    pub open spec fn inserted_without_growth(self, key: N, value: V) -> Insertion<N, V> {
        let candidate = Resident { key, value, last_access: self.clock + 1 };
        let entered = CacheModel {
            window: Some(candidate),
            clock: self.clock + 1,
            ..self
        };
        let displaced = self.window->0;
        if self.main.len() == 0 {
            Insertion {
                cache: entered,
                admitted: true,
                evicted: Some(
                    Eviction {
                        entry: displaced,
                        reason: CacheEvictionReason::PoolCapacityReplacement,
                        was_cached: true,
                    },
                ),
            }
        } else {
            let moved = entered.admitted_to_main(
                displaced,
                false,
                true,
                MainAdmissionMode::ReplaceResident,
                self.main_capacity,
            );
            Insertion { admitted: true, ..moved }
        }
    }

    /// The cache without an entry, that of the window before the weakest protected one.
    pub open spec fn relieved(self) -> CacheModel<N, V> {
        match self.window {
            Some(_) => CacheModel { window: None, ..self },
            None => CacheModel {
                main: self.main.remove(self.weakest(self.main.len() as int)),
                ..self
            },
        }
    }

    /// The entry that is given up first.
    pub open spec fn first_victim(self) -> Eviction<N, V> {
        Eviction {
            entry: match self.window {
                Some(entry) => entry,
                None => self.main[self.weakest(self.main.len() as int)],
            },
            reason: CacheEvictionReason::MemoryPressure,
            was_cached: true,
        }
    }

    /// How many entries are too many when only so many protected ones may stay.
    pub open spec fn excess(self, protected_capacity: nat) -> nat {
        (if self.window is Some {
            1nat
        } else {
            0nat
        }) + (if self.main.len() > protected_capacity {
            (self.main.len() - protected_capacity) as nat
        } else {
            0nat
        })
    }

    /// The cache without `n` entries, one after the other.
    pub open spec fn relieved_of(self, n: nat) -> CacheModel<N, V>
        decreases n,
    {
        if n == 0 {
            self
        } else {
            self.relieved_of((n - 1) as nat).relieved()
        }
    }

    /// The `n` entries that are given up for it, in order.
    pub open spec fn victims(self, n: nat) -> Seq<Eviction<N, V>>
        decreases n,
    {
        if n == 0 {
            Seq::empty()
        } else {
            self.victims((n - 1) as nat).push(self.relieved_of((n - 1) as nat).first_victim())
        }
    }

    /// The cache without entries and without memory.
    pub open spec fn cleared(self) -> CacheModel<N, V> {
        CacheModel {
            window: None,
            main: Seq::empty(),
            frequencies: |n: N| 0nat,
            observations: 0,
            clock: 0,
            ..self
        }
    }

    /// All entries, that of the window first.
    pub open spec fn residents(self) -> Seq<Resident<N, V>> {
        (match self.window {
            Some(entry) => seq![entry],
            None => Seq::empty(),
        }) + self.main
    }

    /// The keys of all entries with their values, wherever they are.
    pub open spec fn contents(self) -> Multiset<(N, V)> {
        pairs_of(self.residents())
    }
}

/// The keys of entries with their values.
pub open spec fn pairs_of<N, V>(entries: Seq<Resident<N, V>>) -> Multiset<(N, V)> {
    entries.map_values(|entry: Resident<N, V>| (entry.key, entry.value)).to_multiset()
}

/// The key with its value of an entry that was given up, if one was.
pub open spec fn given_up<N, V>(evicted: Option<Eviction<N, V>>) -> Multiset<(N, V)> {
    match evicted {
        Some(evicted) => Multiset::singleton((evicted.entry.key, evicted.entry.value)),
        None => Multiset::empty(),
    }
}

/// How often a key was asked for, as a table of counts says.
pub open spec fn count_in<K: CacheKey>(counts: Seq<(K, u16)>, key: K::Name) -> nat
    decreases counts.len(),
{
    if counts.len() == 0 {
        0
    } else if counts.last().0.name() == key {
        counts.last().1 as nat
    } else {
        count_in(counts.drop_last(), key)
    }
}

/// Whether a table of counts has a key at most once.
pub open spec fn counts_are_distinct<K: CacheKey>(counts: Seq<(K, u16)>) -> bool {
    forall|i: int, j: int|
        0 <= i < j < counts.len() ==> (#[trigger] counts[i]).0.name() != (
        #[trigger] counts[j]).0.name()
}

proof fn lemma_count_absent<K: CacheKey>(counts: Seq<(K, u16)>, key: K::Name)
    requires
        forall|i: int| 0 <= i < counts.len() ==> (#[trigger] counts[i]).0.name() != key,
    ensures
        count_in(counts, key) == 0,
    decreases counts.len(),
{
    if counts.len() > 0 {
        lemma_count_absent(counts.drop_last(), key);
    }
}

proof fn lemma_count_present<K: CacheKey>(counts: Seq<(K, u16)>, i: int)
    requires
        counts_are_distinct(counts),
        0 <= i < counts.len(),
    ensures
        count_in(counts, counts[i].0.name()) == counts[i].1,
    decreases counts.len(),
{
    if i < counts.len() - 1 {
        assert(counts.drop_last()[i] == counts[i]);
        assert(counts[i].0.name() != counts[counts.len() - 1].0.name());
        lemma_count_present(counts.drop_last(), i);
    }
}

/// What a list of entries holds.
pub open spec fn residents_of<K: CacheKey, V>(entries: Seq<CacheEntry<K, V>>) -> Seq<
    Resident<K::Name, V>,
> {
    entries.map_values(|entry: CacheEntry<K, V>| entry@)
}

/// A small cache that keeps what is used often.
pub struct TinyLfuCache<K, V> {
    pub window: Option<CacheEntry<K, V>>,
    pub main: Vec<CacheEntry<K, V>>,
    pub main_capacity: usize,
    pub frequencies: Vec<(K, u16)>,
    pub frequency_aging_interval: usize,
    pub observations_since_aging: usize,
    pub access_clock: u64,
}

impl<K: CacheKey, V> View for TinyLfuCache<K, V> {
    type V = CacheModel<K::Name, V>;

    open spec fn view(&self) -> CacheModel<K::Name, V> {
        CacheModel {
            window: match self.window {
                Some(entry) => Some(entry@),
                None => None,
            },
            main: residents_of(self.main@),
            main_capacity: self.main_capacity as nat,
            frequencies: |n: K::Name| count_in(self.frequencies@, n),
            aging_interval: self.frequency_aging_interval as nat,
            observations: self.observations_since_aging as nat,
            clock: self.access_clock as nat,
        }
    }
}

impl<K: CacheKey, V> TinyLfuCache<K, V> {
    /// Whether the cache is in order: no key is there twice, and the aging of frequencies is due
    /// later.
    pub open spec fn wf(self) -> bool {
        &&& self@.keys_are_distinct()
        &&& counts_are_distinct(self.frequencies@)
        &&& self.observations_since_aging < self.frequency_aging_interval
        &&& self.frequency_aging_interval == (self.main_capacity + 1) * 16
        &&& self.main_capacity > 0
    }

    pub fn with_protected_capacity(main_capacity: usize) -> (cache: Self)
        requires
            main_capacity > 0,
            (main_capacity + 1) * 16 <= usize::MAX,
        ensures
            cache.wf(),
            cache@ == (CacheModel::<K::Name, V> {
                window: None,
                main: Seq::empty(),
                main_capacity: main_capacity as nat,
                frequencies: |n: K::Name| 0nat,
                aging_interval: ((main_capacity + 1) * 16) as nat,
                observations: 0,
                clock: 0,
            }),
    {
        let cache = TinyLfuCache {
            window: None,
            main: Vec::new(),
            main_capacity,
            frequencies: Vec::new(),
            frequency_aging_interval: (main_capacity + 1) * 16,
            observations_since_aging: 0,
            access_clock: 0,
        };
        proof {
            assert(cache@.main =~= Seq::empty());
            assert(cache@.frequencies =~= |n: K::Name| 0nat);
        }
        cache
    }

    pub fn len(&self) -> (len: usize)
        requires
            self.main.len() < usize::MAX,
        ensures
            len == self@.len(),
    {
        if self.window.is_some() {
            self.main.len() + 1
        } else {
            self.main.len()
        }
    }

    fn main_position(&self, key: &K) -> (position: Option<usize>)
        ensures
            match position {
                Some(i) => self@.position(key.name(), 0) == Some(i as int) && i < self.main.len()
                    && self@.main[i as int].key == key.name(),
                None => self@.position(key.name(), 0) is None,
            },
    {
        let mut i: usize = 0;
        while i < self.main.len()
            invariant
                i <= self.main.len(),
                self@.position(key.name(), 0) == self@.position(key.name(), i as int),
            decreases self.main.len() - i,
        {
            assert(self@.main[i as int] == self.main@[i as int]@);
            if self.main[i].key.same(key) {
                return Some(i);
            }
            i = i + 1;
        }
        None
    }

    fn window_has(&self, key: &K) -> (has: bool)
        ensures
            has == self@.in_window(key.name()),
    {
        match &self.window {
            Some(entry) => entry.key.same(key),
            None => false,
        }
    }

    pub fn contains_key(&self, key: &K) -> (found: bool)
        ensures
            found == self@.contains_key(key.name()),
    {
        self.window_has(key) || self.main_position(key).is_some()
    }

    pub fn can_insert_without_growth(&self, key: &K) -> (can: bool)
        ensures
            can == self@.can_insert_without_growth(key.name()),
    {
        self.window.is_some() && !self.contains_key(key)
    }

    /// The keys, that of the window first.
    pub fn keys(&self) -> (keys: Vec<K>)
        ensures
            keys@.map_values(|key: K| key.name()) == self@.keys(),
    {
        let mut keys: Vec<K> = Vec::new();
        if let Some(entry) = &self.window {
            keys.push(entry.key.copied());
        }
        let ghost first = keys@;
        let mut i: usize = 0;
        while i < self.main.len()
            invariant
                i <= self.main.len(),
                keys@.len() == first.len() + i,
                forall|k: int| 0 <= k < first.len() ==> #[trigger] keys@[k] == first[k],
                forall|k: int|
                    0 <= k < i ==> (#[trigger] keys@[first.len() + k]).name()
                        == self.main@[k].key.name(),
            decreases self.main.len() - i,
        {
            keys.push(self.main[i].key.copied());
            i = i + 1;
        }
        proof {
            let names = keys@.map_values(|key: K| key.name());
            assert forall|k: int| 0 <= k < names.len() implies names[k] == self@.keys()[k] by {
                if k >= first.len() {
                    assert(keys@[first.len() + (k - first.len())] == keys@[k]);
                } else {
                    assert(keys@[k] == first[k]);
                }
            }
            assert(names =~= self@.keys());
        }
        keys
    }

    /// Halves all counts, and forgets those that become zero.
    fn age(&mut self)
        requires
            counts_are_distinct(old(self).frequencies@),
        ensures
            counts_are_distinct(final(self).frequencies@),
            forall|n: K::Name| #[trigger]
                count_in(final(self).frequencies@, n) == count_in(old(self).frequencies@, n) / 2,
            final(self).window == old(self).window,
            final(self).main == old(self).main,
            final(self).main_capacity == old(self).main_capacity,
            final(self).frequency_aging_interval == old(self).frequency_aging_interval,
            final(self).observations_since_aging == old(self).observations_since_aging,
            final(self).access_clock == old(self).access_clock,
    {
        let mut aged: Vec<(K, u16)> = Vec::new();
        let mut i: usize = 0;
        while i < self.frequencies.len()
            invariant
                i <= self.frequencies.len(),
                *self == *old(self),
                counts_are_distinct(self.frequencies@),
                counts_are_distinct(aged@),
                forall|k: int|
                    0 <= k < aged@.len() ==> exists|m: int|
                        0 <= m < i && (#[trigger] aged@[k]).0.name() == (
                        #[trigger] self.frequencies@[m]).0.name(),
                forall|n: K::Name| #[trigger]
                    count_in(aged@, n) == count_in(self.frequencies@.take(i as int), n) / 2,
            decreases self.frequencies.len() - i,
        {
            let count: u16 = self.frequencies[i].1 / 2;
            let ghost before = aged@;
            let ghost shorter = self.frequencies@.take(i as int);
            let ghost longer = self.frequencies@.take(i + 1);
            let ghost name = self.frequencies@[i as int].0.name();
            proof {
                assert(longer.drop_last() =~= shorter);
                assert forall|k: int| 0 <= k < shorter.len() implies (#[trigger] shorter[k]).0.name()
                    != name by {
                    assert(self.frequencies@[k].0.name() != self.frequencies@[i as int].0.name());
                }
                lemma_count_absent(shorter, name);
            }
            if count > 0 {
                aged.push((self.frequencies[i].0.copied(), count));
                proof {
                    assert(aged@.drop_last() =~= before);
                    assert forall|k: int| 0 <= k < before.len() implies (
                    #[trigger] before[k]).0.name() != name by {
                        let m = choose|m: int|
                            0 <= m < i && before[k].0.name() == (
                            #[trigger] self.frequencies@[m]).0.name();
                        assert(self.frequencies@[m].0.name()
                            != self.frequencies@[i as int].0.name());
                    }
                }
            }
            proof {
                assert forall|k: int| 0 <= k < aged@.len() implies exists|m: int|
                    0 <= m < i + 1 && (#[trigger] aged@[k]).0.name() == (
                    #[trigger] self.frequencies@[m]).0.name() by {
                    if k < before.len() {
                        assert(aged@[k] == before[k]);
                    } else {
                        assert(aged@[k].0.name() == self.frequencies@[i as int].0.name());
                    }
                }
                assert forall|n: K::Name| #[trigger]
                    count_in(aged@, n) == count_in(longer, n) / 2 by {
                    assert(count_in(before, n) == count_in(shorter, n) / 2);
                }
            }
            i = i + 1;
        }
        assert(self.frequencies@.take(i as int) =~= self.frequencies@);
        self.frequencies = aged;
    }

    /// Counts that a key was asked for, whether or not it is there: only so can a key that was
    /// refused show that it is asked for more often than others.
    pub fn observe(&mut self, key: &K)
        requires
            old(self).wf(),
        ensures
            final(self).wf(),
            final(self)@ == old(self)@.observed(key.name()),
    {
        let mut i: usize = 0;
        while i < self.frequencies.len() && !self.frequencies[i].0.same(key)
            invariant
                i <= self.frequencies.len(),
                *self == *old(self),
                forall|k: int|
                    0 <= k < i ==> (#[trigger] self.frequencies@[k]).0.name() != key.name(),
            decreases self.frequencies.len() - i,
        {
            i = i + 1;
        }
        let ghost before = self.frequencies@;
        if i < self.frequencies.len() {
            proof {
                lemma_count_present(before, i as int);
            }
            let count: u16 = self.frequencies[i].1.saturating_add(1);
            let name = self.frequencies[i].0.copied();
            self.frequencies.set(i, (name, count));
            proof {
                assert forall|n: K::Name| n != key.name() implies count_in(self.frequencies@, n)
                    == count_in(before, n) by {
                    lemma_count_update(before, i as int, (name, count), n);
                }
                lemma_count_present(self.frequencies@, i as int);
            }
        } else {
            proof {
                lemma_count_absent(before, key.name());
            }
            let name = key.copied();
            self.frequencies.push((name, 1));
            proof {
                assert(self.frequencies@.drop_last() =~= before);
            }
        }
        let ghost count = if count_in(before, key.name()) < u16::MAX {
            count_in(before, key.name()) + 1
        } else {
            u16::MAX as nat
        };
        assert(count_in(self.frequencies@, key.name()) == count);
        assert(forall|n: K::Name|
            n != key.name() ==> count_in(self.frequencies@, n) == count_in(before, n));
        self.observations_since_aging = self.observations_since_aging + 1;
        if self.observations_since_aging == self.frequency_aging_interval {
            self.age();
            self.observations_since_aging = 0;
        }
        assert(self@.frequencies =~= old(self)@.observed(key.name()).frequencies);
        assert(self@.main =~= old(self)@.main);
    }

    pub fn frequency(&self, key: &K) -> (frequency: u16)
        requires
            counts_are_distinct(self.frequencies@),
        ensures
            frequency == (self@.frequencies)(key.name()),
    {
        let mut i: usize = 0;
        while i < self.frequencies.len()
            invariant
                i <= self.frequencies.len(),
                counts_are_distinct(self.frequencies@),
                forall|k: int|
                    0 <= k < i ==> (#[trigger] self.frequencies@[k]).0.name() != key.name(),
            decreases self.frequencies.len() - i,
        {
            if self.frequencies[i].0.same(key) {
                proof {
                    lemma_count_present(self.frequencies@, i as int);
                }
                return self.frequencies[i].1;
            }
            i = i + 1;
        }
        proof {
            lemma_count_absent(self.frequencies@, key.name());
        }
        0
    }
}

proof fn lemma_count_update<K: CacheKey>(
    counts: Seq<(K, u16)>,
    i: int,
    entry: (K, u16),
    key: K::Name,
)
    requires
        0 <= i < counts.len(),
        counts[i].0.name() == entry.0.name(),
        key != entry.0.name(),
    ensures
        count_in(counts.update(i, entry), key) == count_in(counts, key),
    decreases counts.len(),
{
    let changed = counts.update(i, entry);
    if i == counts.len() - 1 {
        assert(changed.drop_last() =~= counts.drop_last());
    } else {
        assert(changed.drop_last() =~= counts.drop_last().update(i, entry));
        lemma_count_update(counts.drop_last(), i, entry, key);
    }
}

proof fn lemma_weakest<N, V>(cache: CacheModel<N, V>, n: int)
    requires
        0 < n <= cache.main.len(),
    ensures
        0 <= cache.weakest(n) < n,
    decreases n,
{
    if n > 1 {
        lemma_weakest(cache, n - 1);
    }
}

proof fn lemma_position<N, V>(cache: CacheModel<N, V>, key: N, i: int)
    requires
        0 <= i,
    ensures
        match cache.position(key, i) {
            Some(at) => i <= at < cache.main.len() && cache.main[at].key == key,
            None => forall|k: int| i <= k < cache.main.len() ==> (#[trigger] cache.main[k]).key
                != key,
        },
    decreases cache.main.len() - i,
{
    if i < cache.main.len() && cache.main[i].key != key {
        lemma_position(cache, key, i + 1);
    }
}

impl<K: CacheKey, V> TinyLfuCache<K, V> {
    /// Takes out the entry of a key, to be used and put back.
    pub fn take(&mut self, key: &K) -> (taken: Option<TakenCacheEntry<K, V>>)
        requires
            old(self).wf(),
        ensures
            final(self).wf(),
            match taken {
                Some(taken) => {
                    let observed = old(self)@.observed(key.name());
                    &&& taken.key.name() == key.name()
                    &&& match taken.segment {
                        CacheSegment::Window => {
                            &&& old(self)@.in_window(key.name())
                            &&& taken.value == old(self)@.window->0.value
                            &&& final(self)@ == (CacheModel { window: None, ..observed })
                        },
                        CacheSegment::Main => {
                            &&& !old(self)@.in_window(key.name())
                            &&& old(self)@.position(key.name(), 0) matches Some(i) && taken.value
                                == old(self)@.main[i].value && final(self)@ == (CacheModel {
                                main: observed.main.remove(i),
                                ..observed
                            })
                        },
                    }
                },
                None => !old(self)@.contains_key(key.name()) && final(self)@ == old(
                    self,
                )@.observed(key.name()),
            },
    {
        self.observe(key);
        let ghost observed = self@;
        proof {
            lemma_same_position(old(self)@, observed, key.name(), 0);
        }
        if self.window_has(key) {
            let entry = match self.window.take() {
                Some(entry) => entry,
                None => {
                    return None;
                },
            };
            assert(self@.frequencies =~= observed.frequencies);
            assert(self@.main =~= observed.main);
            return Some(
                TakenCacheEntry {
                    key: entry.key,
                    value: entry.value,
                    segment: CacheSegment::Window,
                },
            );
        }
        match self.main_position(key) {
            Some(position) => {
                let entry = self.main.remove(position);
                assert(self@.frequencies =~= observed.frequencies);
                assert(self@.main =~= observed.main.remove(position as int));
                assert(entry@ == observed.main[position as int]);
                Some(
                    TakenCacheEntry {
                        key: entry.key,
                        value: entry.value,
                        segment: CacheSegment::Main,
                    },
                )
            },
            None => None,
        }
    }

    fn weakest_main_position(&self) -> (position: usize)
        requires
            counts_are_distinct(self.frequencies@),
            self.main.len() > 0,
        ensures
            position == self@.weakest(self.main.len() as int),
            position < self.main.len(),
            forall|i: int|
                0 <= i < self@.main.len() ==> asked_for_less(
                    self@.frequencies,
                    self@.main[position as int],
                    #[trigger] self@.main[i],
                ),
    {
        proof {
            the_weakest_is_asked_for_least(self@, self@.main.len() as int);
        }
        let mut weakest: usize = 0;
        let mut frequency: u16 = self.frequency(&self.main[0].key);
        let mut i: usize = 1;
        assert(self@.main[0] == self.main@[0]@);
        while i < self.main.len()
            invariant
                1 <= i <= self.main.len(),
                weakest < i,
                weakest == self@.weakest(i as int),
                counts_are_distinct(self.frequencies@),
                frequency == (self@.frequencies)(self@.main[weakest as int].key),
            decreases self.main.len() - i,
        {
            let other: u16 = self.frequency(&self.main[i].key);
            assert(self@.main[i as int] == self.main@[i as int]@);
            assert(self@.main[weakest as int] == self.main@[weakest as int]@);
            if other < frequency || (other == frequency && self.main[i].last_access
                < self.main[weakest].last_access) {
                weakest = i;
                frequency = other;
            }
            i = i + 1;
        }
        weakest
    }

    fn admit_to_main(
        &mut self,
        candidate: CacheEntry<K, V>,
        returning_resident: bool,
        candidate_was_cached: bool,
        mode: MainAdmissionMode,
        main_capacity: usize,
    ) -> (admission: (bool, Option<EvictedCacheEntry<K, V>>))
        requires
            old(self).wf(),
            old(self)@.position(candidate.key.name(), 0) is None,
            !old(self)@.in_window(candidate.key.name()),
            old(self).main.len() > 0 || (mode == MainAdmissionMode::GrowIfSpace && main_capacity
                > 0),
        ensures
            final(self).wf(),
            final(self)@ == old(self)@.admitted_to_main(
                candidate@,
                returning_resident,
                candidate_was_cached,
                mode,
                main_capacity as nat,
            ).cache,
            admission.0 == old(self)@.admitted_to_main(
                candidate@,
                returning_resident,
                candidate_was_cached,
                mode,
                main_capacity as nat,
            ).admitted,
            eviction_of(admission.1) == old(self)@.admitted_to_main(
                candidate@,
                returning_resident,
                candidate_was_cached,
                mode,
                main_capacity as nat,
            ).evicted,
    {
        let ghost before = self@;
        proof {
            lemma_position(before, candidate.key.name(), 0);
        }
        if mode == MainAdmissionMode::GrowIfSpace && self.main.len() < main_capacity {
            self.main.push(candidate);
            assert(self@.main =~= before.main.push(candidate@));
            assert(self@.frequencies =~= before.frequencies);
            return (true, None);
        }
        let position = self.weakest_main_position();
        assert(before.main[position as int] == self.main@[position as int]@);
        let candidate_frequency: u16 = self.frequency(&candidate.key);
        let victim_frequency: u16 = self.frequency(&self.main[position].key);
        let candidate_wins = candidate_frequency > victim_frequency || (returning_resident
            && candidate_frequency == victim_frequency && candidate.last_access
            > self.main[position].last_access);
        if candidate_wins {
            self.main.push(candidate);
            let victim = self.main.swap_remove(position);
            assert(self@.main =~= before.main.update(position as int, candidate@));
            assert(self@.frequencies =~= before.frequencies);
            (
                true,
                Some(
                    EvictedCacheEntry {
                        entry: victim,
                        reason: CacheEvictionReason::FrequencyAdmission,
                        was_cached: true,
                    },
                ),
            )
        } else {
            (
                false,
                Some(
                    EvictedCacheEntry {
                        entry: candidate,
                        reason: CacheEvictionReason::FrequencyRejection,
                        was_cached: candidate_was_cached,
                    },
                ),
            )
        }
    }

    /// An entry wants to enter a part of the cache.
    pub fn insert(
        &mut self,
        key: K,
        value: V,
        segment: CacheSegment,
        returning_resident: bool,
        main_capacity: usize,
    ) -> (result: CacheInsertionResult<K, V>)
        requires
            old(self).wf(),
            old(self)@.clock < u64::MAX,
            main_capacity > 0,
        ensures
            final(self).wf(),
            is_insertion(
                result,
                *final(self),
                old(self)@.inserted(
                    key.name(),
                    value,
                    segment,
                    returning_resident,
                    main_capacity as nat,
                ),
            ),
            old(self)@.contents().insert((key.name(), value)) == final(self)@.contents().add(
                given_up(eviction_of(result.evicted)),
            ),
            final(self)@.keys_are_distinct(),
            result.candidate_admitted == final(self)@.contains_key(key.name()),
            final(self)@.frequencies == old(self)@.frequencies,
    {
        let ghost before = self@;
        proof {
            lemma_position(before, key.name(), 0);
            insertions_lose_no_entry(
                before,
                key.name(),
                value,
                segment,
                returning_resident,
                main_capacity as nat,
            );
        }
        self.access_clock = self.access_clock + 1;
        let ghost ticked = self@;
        proof {
            assert(ticked.main =~= before.main);
            assert(ticked.frequencies =~= before.frequencies);
            lemma_same_position(before, ticked, key.name(), 0);
        }
        let in_window = self.window_has(&key);
        let position = self.main_position(&key);
        let candidate = CacheEntry { key, value, last_access: self.access_clock };
        if in_window {
            let displaced = self.window.take();
            self.window = Some(candidate);
            assert(self@.frequencies =~= before.frequencies);
            assert(self@.main =~= before.main);
            return CacheInsertionResult {
                candidate_admitted: true,
                evicted: match displaced {
                    Some(entry) => Some(
                        EvictedCacheEntry {
                            entry,
                            reason: CacheEvictionReason::DuplicateReplacement,
                            was_cached: true,
                        },
                    ),
                    None => None,
                },
            };
        }
        if let Some(position) = position {
            self.main.push(candidate);
            let duplicate = self.main.swap_remove(position);
            assert(self@.main =~= before.main.update(position as int, candidate@));
            assert(self@.frequencies =~= before.frequencies);
            assert(duplicate@ == before.main[position as int]);
            return CacheInsertionResult {
                candidate_admitted: true,
                evicted: Some(
                    EvictedCacheEntry {
                        entry: duplicate,
                        reason: CacheEvictionReason::DuplicateReplacement,
                        was_cached: true,
                    },
                ),
            };
        }
        match segment {
            CacheSegment::Main => {
                let (candidate_admitted, evicted) = self.admit_to_main(
                    candidate,
                    returning_resident,
                    false,
                    MainAdmissionMode::GrowIfSpace,
                    main_capacity,
                );
                CacheInsertionResult { candidate_admitted, evicted }
            },
            CacheSegment::Window => {
                let displaced = self.window.take();
                self.window = Some(candidate);
                assert(self@.frequencies =~= before.frequencies);
                assert(self@.main =~= before.main);
                let evicted = match displaced {
                    Some(displaced) => {
                        proof {
                            lemma_position(self@, displaced.key.name(), 0);
                        }
                        let (_, evicted) = self.admit_to_main(
                            displaced,
                            false,
                            true,
                            MainAdmissionMode::GrowIfSpace,
                            main_capacity,
                        );
                        evicted
                    },
                    None => None,
                };
                CacheInsertionResult { candidate_admitted: true, evicted }
            },
        }
    }

    /// A new entry enters through the window.
    pub fn insert_new(&mut self, key: K, value: V) -> (result: CacheInsertionResult<K, V>)
        requires
            old(self).wf(),
            old(self)@.clock < u64::MAX,
        ensures
            final(self).wf(),
            is_insertion(
                result,
                *final(self),
                old(self)@.inserted(
                    key.name(),
                    value,
                    CacheSegment::Window,
                    false,
                    old(self)@.main_capacity,
                ),
            ),
    {
        self.insert(key, value, CacheSegment::Window, false, self.main_capacity)
    }

    /// A new entry takes the place of another one: the cache does not hold more.
    pub fn insert_new_without_growth(&mut self, key: K, value: V) -> (result: CacheInsertionResult<
        K,
        V,
    >)
        requires
            old(self).wf(),
            old(self)@.clock < u64::MAX,
            old(self)@.can_insert_without_growth(key.name()),
        ensures
            final(self).wf(),
            is_insertion(
                result,
                *final(self),
                old(self)@.inserted_without_growth(key.name(), value),
            ),
            final(self)@.len() == old(self)@.len(),
    {
        let ghost before = self@;
        proof {
            lemma_position(before, key.name(), 0);
        }
        self.access_clock = self.access_clock + 1;
        let candidate = CacheEntry { key, value, last_access: self.access_clock };
        let displaced = self.window.take();
        self.window = Some(candidate);
        assert(self@.frequencies =~= before.frequencies);
        assert(self@.main =~= before.main);
        let evicted = match displaced {
            Some(displaced) => {
                if self.main.len() == 0 {
                    Some(
                        EvictedCacheEntry {
                            entry: displaced,
                            reason: CacheEvictionReason::PoolCapacityReplacement,
                            was_cached: true,
                        },
                    )
                } else {
                    proof {
                        lemma_position(self@, displaced.key.name(), 0);
                        lemma_weakest(self@, self@.main.len() as int);
                    }
                    let capacity: usize = self.main_capacity;
                    let (_, evicted) = self.admit_to_main(
                        displaced,
                        false,
                        true,
                        MainAdmissionMode::ReplaceResident,
                        capacity,
                    );
                    evicted
                }
            },
            None => None,
        };
        assert(self@.main.len() == before.main.len());
        CacheInsertionResult { candidate_admitted: true, evicted }
    }

    /// An entry that was taken out comes back to the part that it was in.
    pub fn reinsert(&mut self, entry: TakenCacheEntry<K, V>) -> (result: CacheInsertionResult<K, V>)
        requires
            old(self).wf(),
            old(self)@.clock < u64::MAX,
        ensures
            final(self).wf(),
            is_insertion(
                result,
                *final(self),
                old(self)@.inserted(
                    entry.key.name(),
                    entry.value,
                    entry.segment,
                    true,
                    old(self)@.main_capacity,
                ),
            ),
    {
        self.insert(entry.key, entry.value, entry.segment, true, self.main_capacity)
    }

    /// A protected entry comes back while only so many may stay.
    pub fn reinsert_protected_with_capacity(
        &mut self,
        entry: TakenCacheEntry<K, V>,
        main_capacity: usize,
    ) -> (result: CacheInsertionResult<K, V>)
        requires
            old(self).wf(),
            old(self)@.clock < u64::MAX,
            entry.segment == CacheSegment::Main,
            main_capacity > 0,
        ensures
            final(self).wf(),
            is_insertion(
                result,
                *final(self),
                old(self)@.inserted(
                    entry.key.name(),
                    entry.value,
                    CacheSegment::Main,
                    true,
                    main_capacity as nat,
                ),
            ),
    {
        self.insert(entry.key, entry.value, CacheSegment::Main, true, main_capacity)
    }

    /// Gives up one entry: that of the window, or else the weakest protected one.
    pub fn evict_for_memory_pressure(&mut self) -> (evicted: Option<EvictedCacheEntry<K, V>>)
        requires
            old(self).wf(),
        ensures
            final(self).wf(),
            if old(self)@.len() > 0 {
                eviction_of(evicted) == Some(old(self)@.first_victim()) && final(self)@ == old(
                    self,
                )@.relieved()
            } else {
                evicted is None && final(self)@ == old(self)@
            },
    {
        let ghost before = self@;
        let entry = match self.window.take() {
            Some(entry) => {
                assert(self@.main =~= before.main);
                entry
            },
            None => {
                assert(self@.main =~= before.main);
                if self.main.len() == 0 {
                    assert(self@.frequencies =~= before.frequencies);
                    return None;
                }
                let position = self.weakest_main_position();
                proof {
                    assert(self@.frequencies =~= before.frequencies);
                    assert(self@ =~= before);
                }
                let entry = self.main.remove(position);
                assert(self@.main =~= before.main.remove(position as int));
                assert(entry@ == before.main[position as int]);
                entry
            },
        };
        assert(self@.frequencies =~= before.frequencies);
        Some(
            EvictedCacheEntry {
                entry,
                reason: CacheEvictionReason::MemoryPressure,
                was_cached: true,
            },
        )
    }

    /// Gives up the entry of the window, and protected entries until only so many are left.
    pub fn shrink_for_cgroup_memory_pressure(&mut self, protected_capacity: usize) -> (evicted: Vec<
        EvictedCacheEntry<K, V>,
    >)
        requires
            old(self).wf(),
            protected_capacity > 0,
        ensures
            final(self).wf(),
            final(self)@ == old(self)@.relieved_of(old(self)@.excess(protected_capacity as nat)),
            evictions_of(evicted@) == old(self)@.victims(
                old(self)@.excess(protected_capacity as nat),
            ),
            final(self)@.window is None,
            final(self)@.main.len() <= protected_capacity,
            evicted@.len() == old(self)@.excess(protected_capacity as nat),
            evicted@.len() + final(self)@.len() == old(self)@.len(),
    {
        let mut evicted: Vec<EvictedCacheEntry<K, V>> = Vec::new();
        let ghost capacity = protected_capacity as nat;
        assert(evictions_of(evicted@) =~= Seq::empty());
        while self.window.is_some() || self.main.len() > protected_capacity
            invariant
                self.wf(),
                capacity == protected_capacity,
                self@ == old(self)@.relieved_of(evicted@.len()),
                evictions_of(evicted@) == old(self)@.victims(evicted@.len()),
                evicted@.len() + self@.len() == old(self)@.len(),
                evicted@.len() + self@.excess(capacity) == old(self)@.excess(capacity),
            decreases self@.len(),
        {
            let ghost before = self@;
            let ghost shown = evictions_of(evicted@);
            proof {
                if before.window is None {
                    lemma_weakest(before, before.main.len() as int);
                }
            }
            if let Some(entry) = self.evict_for_memory_pressure() {
                evicted.push(entry);
                assert(evictions_of(evicted@) =~= shown.push(before.first_victim()));
            }
        }
        evicted
    }

    /// Gives up all entries, that of the window first, and forgets all frequencies.
    pub fn clear(&mut self) -> (removed: Vec<CacheEntry<K, V>>)
        requires
            old(self).wf(),
        ensures
            final(self).wf(),
            final(self)@ == old(self)@.cleared(),
            residents_of(removed@) == old(self)@.residents(),
    {
        let mut removed: Vec<CacheEntry<K, V>> = Vec::new();
        if let Some(entry) = self.window.take() {
            removed.push(entry);
        }
        let mut main: Vec<CacheEntry<K, V>> = Vec::new();
        std::mem::swap(&mut main, &mut self.main);
        let ghost first = removed@;
        let ghost all = main@;
        removed.append(&mut main);
        proof {
            assert(removed@ =~= first + all);
            assert(residents_of(removed@) =~= old(self)@.residents());
        }
        self.frequencies = Vec::new();
        self.observations_since_aging = 0;
        self.access_clock = 0;
        proof {
            assert(self@.main =~= Seq::empty());
            assert(self@.frequencies =~= |n: K::Name| 0nat);
        }
        removed
    }
}

/// Whether a result and a cache are those of an insertion.
pub open spec fn is_insertion<K: CacheKey, V>(
    result: CacheInsertionResult<K, V>,
    cache: TinyLfuCache<K, V>,
    insertion: Insertion<K::Name, V>,
) -> bool {
    &&& cache@ == insertion.cache
    &&& result.candidate_admitted == insertion.admitted
    &&& eviction_of(result.evicted) == insertion.evicted
}

proof fn lemma_same_position<N, V>(a: CacheModel<N, V>, b: CacheModel<N, V>, key: N, i: int)
    requires
        a.main == b.main,
    ensures
        a.position(key, i) == b.position(key, i),
    decreases a.main.len() - i,
{
    if i < a.main.len() {
        lemma_same_position(a, b, key, i + 1);
    }
}

/// However an entry enters, the protected entries stay within the limit, or as many as there were
/// before if those were more.
pub proof fn insertion_keeps_the_limit<N, V>(
    cache: CacheModel<N, V>,
    key: N,
    value: V,
    segment: CacheSegment,
    returning_resident: bool,
    main_capacity: nat,
)
    requires
        main_capacity > 0,
    ensures
        ({
            let after = cache.inserted(key, value, segment, returning_resident, main_capacity).cache;
            let limit = if cache.main.len() > main_capacity {
                cache.main.len()
            } else {
                main_capacity
            };
            after.main.len() <= limit && after.len() <= limit + 1
        }),
{
    lemma_position(cache, key, 0);
    if cache.main.len() > 0 {
        lemma_weakest(cache, cache.main.len() as int);
        let ticked = CacheModel { clock: cache.clock + 1, ..cache };
        lemma_weakest(ticked, cache.main.len() as int);
        let entered = CacheModel {
            window: Some(Resident { key, value, last_access: cache.clock + 1 }),
            ..ticked
        };
        lemma_weakest(entered, cache.main.len() as int);
    }
}

/// An entry that enters is there afterwards, with its own value, unless a protected entry that
/// comes back is refused.
pub proof fn admitted_entries_are_there<N, V>(
    cache: CacheModel<N, V>,
    key: N,
    value: V,
    segment: CacheSegment,
    returning_resident: bool,
    main_capacity: nat,
)
    requires
        main_capacity > 0,
    ensures
        ({
            let insertion = cache.inserted(key, value, segment, returning_resident, main_capacity);
            insertion.admitted ==> {
                ||| insertion.cache.window matches Some(entry) && entry.key == key && entry.value
                    == value
                ||| exists|i: int|
                    0 <= i < insertion.cache.main.len() && (#[trigger] insertion.cache.main[i]).key
                        == key && insertion.cache.main[i].value == value
            }
        }),
        segment == CacheSegment::Window ==> cache.inserted(
            key,
            value,
            segment,
            returning_resident,
            main_capacity,
        ).admitted,
{
    let insertion = cache.inserted(key, value, segment, returning_resident, main_capacity);
    lemma_position(cache, key, 0);
    let ticked = CacheModel { clock: cache.clock + 1, ..cache };
    if cache.main.len() > 0 {
        lemma_weakest(ticked, cache.main.len() as int);
    }
    if cache.in_window(key) {
    } else if let Some(i) = cache.position(key, 0) {
        assert(insertion.cache.main[i].key == key);
    } else if segment == CacheSegment::Main && insertion.admitted {
        if cache.main.len() < main_capacity {
            assert(insertion.cache.main[cache.main.len() as int].key == key);
        } else {
            assert(insertion.cache.main[ticked.weakest(cache.main.len() as int)].key == key);
        }
    }
}

proof fn lemma_pairs_pushed<N, V>(entries: Seq<Resident<N, V>>, entry: Resident<N, V>)
    ensures
        pairs_of(entries.push(entry)) == pairs_of(entries).insert((entry.key, entry.value)),
{
    let pair = |entry: Resident<N, V>| (entry.key, entry.value);
    assert(entries.push(entry).map_values(pair) =~= entries.map_values(pair).push(pair(entry)));
    vstd::seq_lib::to_multiset_build(entries.map_values(pair), pair(entry));
}

proof fn lemma_pairs_updated<N, V>(entries: Seq<Resident<N, V>>, i: int, entry: Resident<N, V>)
    requires
        0 <= i < entries.len(),
    ensures
        pairs_of(entries.update(i, entry)).insert((entries[i].key, entries[i].value)) == pairs_of(
            entries,
        ).insert((entry.key, entry.value)),
{
    broadcast use vstd::multiset::group_multiset_axioms;

    let pair = |entry: Resident<N, V>| (entry.key, entry.value);
    let pairs = entries.map_values(pair);
    assert(entries.update(i, entry).map_values(pair) =~= pairs.update(i, pair(entry)));
    vstd::seq_lib::to_multiset_update(pairs, i, pair(entry));
    vstd::seq_lib::to_multiset_contains(pairs, pairs[i]);
    assert(pairs.to_multiset().insert(pair(entry)).remove(pairs[i]).insert(pairs[i])
        =~= pairs.to_multiset().insert(pair(entry)));
}

proof fn lemma_pairs_contain<N, V>(entries: Seq<Resident<N, V>>, i: int)
    requires
        0 <= i < entries.len(),
    ensures
        pairs_of(entries).contains((entries[i].key, entries[i].value)),
{
    let pairs = entries.map_values(|entry: Resident<N, V>| (entry.key, entry.value));
    assert(pairs[i] == (entries[i].key, entries[i].value));
    vstd::seq_lib::to_multiset_contains(pairs, pairs[i]);
}

/// What a cache holds: what the window holds, and what is protected.
proof fn lemma_contents<N, V>(cache: CacheModel<N, V>)
    ensures
        cache.contents() == (match cache.window {
            Some(entry) => pairs_of(cache.main).insert((entry.key, entry.value)),
            None => pairs_of(cache.main),
        }),
{
    broadcast use vstd::multiset::group_multiset_axioms;

    let pair = |entry: Resident<N, V>| (entry.key, entry.value);
    match cache.window {
        Some(entry) => {
            let first = seq![pair(entry)];
            let rest = cache.main.map_values(pair);
            assert(cache.residents().map_values(pair) =~= first + rest);
            vstd::seq_lib::lemma_multiset_commutative(first, rest);
            assert(first =~= Seq::empty().push(pair(entry)));
            vstd::seq_lib::to_multiset_build(Seq::empty(), pair(entry));
            assert(Seq::<(N, V)>::empty().to_multiset() =~= Multiset::empty()) by {
                broadcast use vstd::seq_lib::to_multiset_contains;

            }
            assert(first.to_multiset().add(rest.to_multiset()) =~= rest.to_multiset().insert(
                pair(entry),
            ));
        },
        None => {
            assert(cache.residents() =~= cache.main);
        },
    }
}

proof fn lemma_admission_loses_nothing<N, V>(
    cache: CacheModel<N, V>,
    candidate: Resident<N, V>,
    returning_resident: bool,
    candidate_was_cached: bool,
    mode: MainAdmissionMode,
    main_capacity: nat,
)
    requires
        cache.main.len() > 0 || (mode == MainAdmissionMode::GrowIfSpace && main_capacity > 0),
    ensures
        ({
            let admission = cache.admitted_to_main(
                candidate,
                returning_resident,
                candidate_was_cached,
                mode,
                main_capacity,
            );
            pairs_of(admission.cache.main).add(given_up(admission.evicted)) == pairs_of(
                cache.main,
            ).insert((candidate.key, candidate.value))
        }),
{
    broadcast use vstd::multiset::group_multiset_axioms;

    let admission = cache.admitted_to_main(
        candidate,
        returning_resident,
        candidate_was_cached,
        mode,
        main_capacity,
    );
    let pair = (candidate.key, candidate.value);
    lemma_pairs_pushed(cache.main, candidate);
    if cache.main.len() > 0 {
        let at = cache.weakest(cache.main.len() as int);
        lemma_weakest(cache, cache.main.len() as int);
        lemma_pairs_updated(cache.main, at, candidate);
        let victim = (cache.main[at].key, cache.main[at].value);
        let updated = pairs_of(cache.main.update(at, candidate));
        assert(updated.add(Multiset::singleton(victim)) =~= updated.insert(victim));
    }
    assert(pairs_of(cache.main).add(Multiset::singleton(pair)) =~= pairs_of(cache.main).insert(
        pair,
    ));
    assert(pairs_of(cache.main.push(candidate)).add(Multiset::empty()) =~= pairs_of(
        cache.main.push(candidate),
    ));
}

/// An insertion loses no entry and makes up none: the entries from before and the one that wanted
/// to enter are those from afterwards and the one that was given up, if one was. The one that
/// wanted to enter is there if and only if it was admitted, and else it is the one that was given
/// up. Every key is still there at most once, no more entries are protected than may be, and no
/// frequency changes.
#[verifier::spinoff_prover]
#[verifier::rlimit(60)]
pub proof fn insertions_lose_no_entry<N, V>(
    cache: CacheModel<N, V>,
    key: N,
    value: V,
    segment: CacheSegment,
    returning_resident: bool,
    main_capacity: nat,
)
    requires
        cache.keys_are_distinct(),
        main_capacity > 0,
    ensures
        ({
            let insertion = cache.inserted(key, value, segment, returning_resident, main_capacity);
            let after = insertion.cache;
            &&& cache.contents().insert((key, value)) == after.contents().add(
                given_up(insertion.evicted),
            )
            &&& insertion.admitted == after.contains_key(key)
            &&& insertion.admitted ==> after.contents().contains((key, value))
            &&& !insertion.admitted ==> (insertion.evicted matches Some(evicted)
                && evicted.entry.key == key && evicted.entry.value == value && !evicted.was_cached)
            &&& after.keys_are_distinct()
            &&& cache.main.len() <= main_capacity ==> after.main.len() <= main_capacity
            &&& after.frequencies == cache.frequencies
        }),
{
    broadcast use vstd::multiset::group_multiset_axioms;

    let insertion = cache.inserted(key, value, segment, returning_resident, main_capacity);
    let after = insertion.cache;
    let ticked = CacheModel { clock: cache.clock + 1, ..cache };
    let candidate = Resident { key, value, last_access: cache.clock + 1 };
    let entered = CacheModel { window: Some(candidate), ..ticked };
    let pair = (key, value);
    lemma_position(cache, key, 0);
    lemma_position(after, key, 0);
    lemma_contents(cache);
    lemma_contents(after);
    insertion_keeps_the_limit(cache, key, value, segment, returning_resident, main_capacity);
    if cache.main.len() > 0 {
        lemma_weakest(ticked, cache.main.len() as int);
        lemma_weakest(entered, cache.main.len() as int);
    }
    if cache.in_window(key) {
        let duplicate = cache.window->0;
        let protected = pairs_of(cache.main);
        assert(protected.insert(pair).add(Multiset::singleton((duplicate.key, duplicate.value)))
            =~= protected.insert((duplicate.key, duplicate.value)).insert(pair));
    } else if let Some(i) = cache.position(key, 0) {
        lemma_pairs_updated(cache.main, i, candidate);
        let duplicate = (cache.main[i].key, cache.main[i].value);
        let protected = pairs_of(after.main);
        assert(protected.add(Multiset::singleton(duplicate)) =~= protected.insert(duplicate));
        assert(after.main[i].key == key);
        if let Some(entry) = cache.window {
            let other = (entry.key, entry.value);
            assert(protected.insert(other).add(Multiset::singleton(duplicate))
                =~= protected.insert(duplicate).insert(other));
            assert(pairs_of(cache.main).insert(other).insert(pair) =~= pairs_of(
                cache.main,
            ).insert(pair).insert(other));
        }
        lemma_pairs_contain(after.main, i);
    } else if segment == CacheSegment::Main {
        lemma_admission_loses_nothing(
            ticked,
            candidate,
            returning_resident,
            false,
            MainAdmissionMode::GrowIfSpace,
            main_capacity,
        );
        let protected = pairs_of(after.main);
        if let Some(entry) = cache.window {
            let other = (entry.key, entry.value);
            assert(protected.insert(other).add(given_up(insertion.evicted)) =~= protected.add(
                given_up(insertion.evicted),
            ).insert(other));
            assert(pairs_of(cache.main).insert(other).insert(pair) =~= pairs_of(
                cache.main,
            ).insert(pair).insert(other));
        }
        if insertion.admitted {
            let at = if cache.main.len() < main_capacity {
                cache.main.len() as int
            } else {
                ticked.weakest(cache.main.len() as int)
            };
            assert(after.main[at] == candidate);
            lemma_pairs_contain(after.main, at);
        }
    } else {
        if let Some(displaced) = cache.window {
            lemma_admission_loses_nothing(
                entered,
                displaced,
                false,
                true,
                MainAdmissionMode::GrowIfSpace,
                main_capacity,
            );
            let protected = pairs_of(after.main);
            assert(protected.insert(pair).add(given_up(insertion.evicted)) =~= protected.add(
                given_up(insertion.evicted),
            ).insert(pair));
        }
    }
}

/// An insertion that must not make the cache larger loses no entry and makes up none either: it
/// lets the new entry in and gives up exactly one of those from before.
pub proof fn replacements_lose_no_entry<N, V>(cache: CacheModel<N, V>, key: N, value: V)
    requires
        cache.keys_are_distinct(),
        cache.can_insert_without_growth(key),
    ensures
        ({
            let insertion = cache.inserted_without_growth(key, value);
            let after = insertion.cache;
            &&& cache.contents().insert((key, value)) == after.contents().add(
                given_up(insertion.evicted),
            )
            &&& insertion.admitted && after.in_window(key)
            &&& insertion.evicted matches Some(evicted) && evicted.was_cached
                && cache.contents().contains((evicted.entry.key, evicted.entry.value))
            &&& after.len() == cache.len()
            &&& after.keys_are_distinct()
            &&& after.frequencies == cache.frequencies
        }),
{
    broadcast use vstd::multiset::group_multiset_axioms;

    let insertion = cache.inserted_without_growth(key, value);
    let after = insertion.cache;
    let displaced = cache.window->0;
    let candidate = Resident { key, value, last_access: cache.clock + 1 };
    let entered = CacheModel { window: Some(candidate), clock: cache.clock + 1, ..cache };
    let pair = (key, value);
    let other = (displaced.key, displaced.value);
    lemma_position(cache, key, 0);
    lemma_contents(cache);
    lemma_contents(after);
    if cache.main.len() == 0 {
        assert(pairs_of(cache.main).insert(pair).add(Multiset::singleton(other)) =~= pairs_of(
            cache.main,
        ).insert(other).insert(pair));
    } else {
        let at = entered.weakest(cache.main.len() as int);
        lemma_weakest(entered, cache.main.len() as int);
        lemma_pairs_contain(cache.main, at);
        lemma_admission_loses_nothing(
            entered,
            displaced,
            false,
            true,
            MainAdmissionMode::ReplaceResident,
            cache.main_capacity,
        );
        let protected = pairs_of(after.main);
        assert(protected.insert(pair).add(given_up(insertion.evicted)) =~= protected.add(
            given_up(insertion.evicted),
        ).insert(pair));
    }
}

/// A protected entry leaves for an entry from the window only if that one was asked for more
/// often: an entry that was asked for once evicts nobody.
pub proof fn protected_entries_win_ties<N, V>(
    cache: CacheModel<N, V>,
    candidate: Resident<N, V>,
    mode: MainAdmissionMode,
    main_capacity: nat,
)
    requires
        cache.main.len() > 0,
    ensures
        cache.admitted_to_main(candidate, false, true, mode, main_capacity).evicted matches Some(
            evicted,
        ) ==> (evicted.reason == CacheEvictionReason::FrequencyAdmission ==> (cache.frequencies)(
            candidate.key,
        ) > (cache.frequencies)(evicted.entry.key)),
{
}

/// The entry that is given up among the protected ones is the weakest of them.
pub proof fn weakest_is_weakest<N, V>(cache: CacheModel<N, V>, n: int, i: int)
    requires
        0 <= i < n <= cache.main.len(),
    ensures
        0 <= cache.weakest(n) < n,
        !cache.weaker(cache.main[i], cache.main[cache.weakest(n)]),
    decreases n,
{
    lemma_weakest(cache, n);
    if n > 1 {
        lemma_weakest(cache, n - 1);
        if i < n - 1 {
            weakest_is_weakest(cache, n - 1, i);
        } else {
            weakest_is_weakest(cache, n - 1, cache.weakest(n - 1));
        }
    }
}

/// Popularity is forgotten: after a key was asked for, its frequency is at most one more than it
/// was, and when frequencies age, no key keeps more than half.
pub proof fn frequencies_age<N, V>(cache: CacheModel<N, V>, key: N, other: N)
    requires
        cache.observations + 1 == cache.aging_interval,
    ensures
        (cache.observed(key).frequencies)(other) <= ((cache.frequencies)(other) + 1) / 2,
        other != key ==> (cache.observed(key).frequencies)(other) == (cache.frequencies)(other) / 2,
        cache.observed(key).observations == 0,
{
}

/// Putting back what was taken out of the window restores the cache, but for the time of the last
/// use: the entry is admitted, and nothing is given up.
pub proof fn taken_entry_fits_back<N, V>(cache: CacheModel<N, V>, key: N, value: V)
    requires
        cache.keys_are_distinct(),
        cache.in_window(key),
        cache.main_capacity > 0,
    ensures
        ({
            let taken = CacheModel { window: None, ..cache.observed(key) };
            let back = taken.inserted(key, value, CacheSegment::Window, true, cache.main_capacity);
            &&& back.admitted
            &&& back.evicted is None
            &&& back.cache.main == cache.main
            &&& back.cache.window matches Some(entry) && entry.key == key && entry.value == value
        }),
{
    let taken = CacheModel { window: None, ..cache.observed(key) };
    lemma_position(taken, key, 0);
}

/// A key is found among the protected entries if and only if one of them has it.
pub proof fn position_is_found<N, V>(cache: CacheModel<N, V>, key: N)
    ensures
        match cache.position(key, 0) {
            Some(i) => 0 <= i < cache.main.len() && cache.main[i].key == key,
            None => forall|i: int| 0 <= i < cache.main.len() ==> (#[trigger] cache.main[i]).key
                != key,
        },
{
    lemma_position(cache, key, 0);
}

/// Whether an entry was asked for less often than another, or as often but not later.
pub open spec fn asked_for_less<N, V>(
    frequencies: spec_fn(N) -> nat,
    a: Resident<N, V>,
    b: Resident<N, V>,
) -> bool {
    frequencies(a.key) <= frequencies(b.key) && (frequencies(a.key) == frequencies(b.key)
        ==> a.last_access <= b.last_access)
}

/// The weakest of the protected entries was asked for no more often than any other of them, and of
/// those that were asked for as often it was used first.
pub proof fn the_weakest_is_asked_for_least<N, V>(cache: CacheModel<N, V>, n: int)
    requires
        0 < n <= cache.main.len(),
    ensures
        0 <= cache.weakest(n) < n,
        forall|i: int|
            0 <= i < n ==> (cache.frequencies)(cache.main[cache.weakest(n)].key) <= (
            cache.frequencies)((#[trigger] cache.main[i]).key),
        forall|i: int|
            0 <= i < n && (cache.frequencies)((#[trigger] cache.main[i]).key) == (cache.frequencies)(
                cache.main[cache.weakest(n)].key,
            ) ==> cache.main[cache.weakest(n)].last_access <= cache.main[i].last_access,
    decreases n,
{
    if n > 1 {
        the_weakest_is_asked_for_least(cache, n - 1);
    }
}

/// When memory is short the entry of the window goes first, then the protected entry that was asked
/// for least. It is the one that is told of, and the others stay as they are.
pub proof fn what_was_asked_for_least_is_given_up<N, V>(cache: CacheModel<N, V>)
    requires
        cache.len() > 0,
    ensures
        cache.window matches Some(entry) ==> cache.first_victim().entry == entry
            && cache.relieved().window is None && cache.relieved().main == cache.main,
        cache.window is None ==> {
            let victim = cache.first_victim().entry;
            &&& forall|i: int|
                0 <= i < cache.main.len() ==> (cache.frequencies)(victim.key) <= (
                cache.frequencies)((#[trigger] cache.main[i]).key)
            &&& forall|i: int|
                0 <= i < cache.main.len() && (cache.frequencies)((#[trigger] cache.main[i]).key) == (
                cache.frequencies)(victim.key) ==> victim.last_access <= cache.main[i].last_access
            &&& exists|i: int|
                0 <= i < cache.main.len() && #[trigger] cache.main[i] == victim
                    && cache.relieved().main == cache.main.remove(i)
            &&& cache.relieved().window is None
        },
        cache.first_victim().was_cached,
        cache.first_victim().reason == CacheEvictionReason::MemoryPressure,
        cache.relieved().frequencies == cache.frequencies,
{
    if cache.window is None {
        the_weakest_is_asked_for_least(cache, cache.main.len() as int);
        let at = cache.weakest(cache.main.len() as int);
        assert(cache.main[at] == cache.first_victim().entry);
    }
}

/// However many entries go when memory is short, the protected ones that stay were asked for at
/// least as often as each protected one that went, and were used no earlier where they were asked
/// for as often; and what stays and what goes is what was there.
pub proof fn what_stays_was_asked_for_more<N, V>(cache: CacheModel<N, V>, n: nat, v: int, i: int)
    requires
        n <= cache.len(),
        0 <= v < n,
        v > 0 || cache.window is None,
        0 <= i < cache.relieved_of(n).main.len(),
    ensures
        asked_for_less(
            cache.frequencies,
            cache.victims(n)[v].entry,
            cache.relieved_of(n).main[i],
        ),
    decreases n,
{
    let m = (n - 1) as nat;
    lemma_relieved_of(cache, m);
    lemma_relieved_of(cache, n);
    let before = cache.relieved_of(m);
    if before.window is None {
        let at = before.weakest(before.main.len() as int);
        the_weakest_is_asked_for_least(before, before.main.len() as int);
        let j = if i < at {
            i
        } else {
            i + 1
        };
        assert(cache.relieved_of(n).main[i] == before.main[j]);
        if v == n - 1 {
            assert(cache.victims(n)[v] == before.first_victim());
        } else {
            assert(cache.victims(n)[v] == cache.victims(m)[v]);
            what_stays_was_asked_for_more(cache, m, v, j);
        }
    } else {
        assert(m == 0);
    }
}

proof fn lemma_relieved_of<N, V>(cache: CacheModel<N, V>, n: nat)
    requires
        n <= cache.len(),
    ensures
        cache.relieved_of(n).len() == cache.len() - n,
        cache.relieved_of(n).frequencies == cache.frequencies,
        n > 0 || cache.window is None ==> cache.relieved_of(n).window is None,
        cache.victims(n).len() == n,
    decreases n,
{
    if n > 0 {
        lemma_relieved_of(cache, (n - 1) as nat);
        let before = cache.relieved_of((n - 1) as nat);
        if before.window is None {
            lemma_weakest(before, before.main.len() as int);
        }
    }
}

/// An entry that asks for a place among the protected ones gets a free place if there is one and it
/// may be used. Otherwise it has to have been asked for more often than the one of them that was
/// asked for least, or, if it comes back, as often and to have been used later; then it takes the
/// place of that one, and else it is given up itself.
pub proof fn places_are_won_by_being_asked_for<N, V>(
    cache: CacheModel<N, V>,
    candidate: Resident<N, V>,
    returning_resident: bool,
    candidate_was_cached: bool,
    mode: MainAdmissionMode,
    main_capacity: nat,
)
    requires
        cache.main.len() > 0 || (mode == MainAdmissionMode::GrowIfSpace && main_capacity > 0),
    ensures
        ({
            let admission = cache.admitted_to_main(
                candidate,
                returning_resident,
                candidate_was_cached,
                mode,
                main_capacity,
            );
            let asked = cache.frequencies;
            let free = mode == MainAdmissionMode::GrowIfSpace && cache.main.len() < main_capacity;
            &&& free ==> admission.admitted && admission.evicted is None && admission.cache.main
                == cache.main.push(candidate)
            &&& !free ==> admission.evicted is Some
            &&& !free && (forall|i: int|
                0 <= i < cache.main.len() ==> asked(candidate.key) < asked(
                    (#[trigger] cache.main[i]).key,
                )) ==> !admission.admitted
            &&& !free && !returning_resident && (forall|i: int|
                0 <= i < cache.main.len() ==> asked(candidate.key) <= asked(
                    (#[trigger] cache.main[i]).key,
                )) ==> !admission.admitted
            &&& !free && (exists|i: int|
                0 <= i < cache.main.len() && asked((#[trigger] cache.main[i]).key) < asked(
                    candidate.key,
                )) ==> admission.admitted
            &&& !free && returning_resident && (exists|i: int|
                0 <= i < cache.main.len() && asked((#[trigger] cache.main[i]).key) == asked(
                    candidate.key,
                ) && cache.main[i].last_access < candidate.last_access) ==> admission.admitted
            &&& !free && admission.admitted ==> exists|at: int|
                0 <= at < cache.main.len() && admission.evicted->0.entry == #[trigger] cache.main[at]
                    && admission.cache.main == cache.main.update(at, candidate) && (forall|i: int|
                    0 <= i < cache.main.len() ==> asked_for_less(
                        asked,
                        cache.main[at],
                        #[trigger] cache.main[i],
                    )) && admission.evicted->0.reason == CacheEvictionReason::FrequencyAdmission
                    && admission.evicted->0.was_cached
            &&& !admission.admitted ==> admission.cache == cache && admission.evicted->0.entry
                == candidate && admission.evicted->0.reason
                == CacheEvictionReason::FrequencyRejection && admission.evicted->0.was_cached
                == candidate_was_cached
            &&& admission.cache.window == cache.window && admission.cache.frequencies
                == cache.frequencies
        }),
{
    if cache.main.len() > 0 {
        the_weakest_is_asked_for_least(cache, cache.main.len() as int);
        let at = cache.weakest(cache.main.len() as int);
        assert(cache.main[at] == cache.main[at]);
    }
}

/// A question is counted for the key that was asked for, as far as can be counted, and for no
/// other; with the last question of a round all counts are halved and a new round begins. What the
/// cache holds does not change.
pub proof fn questions_are_counted<N, V>(cache: CacheModel<N, V>, key: N, other: N)
    requires
        key != other,
    ensures
        ({
            let after = cache.observed(key);
            let count = if (cache.frequencies)(key) < u16::MAX {
                (cache.frequencies)(key) + 1
            } else {
                u16::MAX as nat
            };
            &&& cache.observations + 1 != cache.aging_interval ==> {
                &&& (after.frequencies)(key) == count
                &&& (after.frequencies)(other) == (cache.frequencies)(other)
                &&& after.observations == cache.observations + 1
            }
            &&& cache.observations + 1 == cache.aging_interval ==> {
                &&& (after.frequencies)(key) == count / 2
                &&& (after.frequencies)(other) == (cache.frequencies)(other) / 2
                &&& after.observations == 0
            }
            &&& after.window == cache.window && after.main == cache.main && after.clock
                == cache.clock && after.main_capacity == cache.main_capacity
                && after.aging_interval == cache.aging_interval
        }),
{
}

/// An entry whose key is not there enters through the window, as the one that was used last. What
/// was in the window moves to a free protected place, if there is one, and nothing is given up then.
pub proof fn new_entries_enter_through_the_window<N, V>(
    cache: CacheModel<N, V>,
    key: N,
    value: V,
    returning_resident: bool,
    main_capacity: nat,
)
    requires
        !(cache.window matches Some(entry) && entry.key == key),
        forall|i: int| 0 <= i < cache.main.len() ==> (#[trigger] cache.main[i]).key != key,
        main_capacity > 0,
    ensures
        ({
            let entered = cache.inserted(
                key,
                value,
                CacheSegment::Window,
                returning_resident,
                main_capacity,
            );
            &&& entered.admitted
            &&& entered.cache.window matches Some(entry) && entry.key == key && entry.value == value
                && entry.last_access == cache.clock + 1
            &&& entered.cache.clock == cache.clock + 1
            &&& cache.window is None ==> entered.cache.main == cache.main && entered.evicted is None
            &&& cache.window matches Some(displaced) ==> (cache.main.len() < main_capacity
                ==> entered.cache.main == cache.main.push(displaced) && entered.evicted is None)
            &&& cache.window matches Some(displaced) ==> (cache.main.len() >= main_capacity
                ==> entered.evicted is Some && (entered.evicted->0.entry == displaced <==
            forall|i: int|
                0 <= i < cache.main.len() ==> (cache.frequencies)(displaced.key) <= (
                cache.frequencies)((#[trigger] cache.main[i]).key)))
        }),
{
    lemma_position(cache, key, 0);
    let ticked = CacheModel { clock: cache.clock + 1, ..cache };
    let entered = CacheModel {
        window: Some(Resident { key, value, last_access: cache.clock + 1 }),
        ..ticked
    };
    if cache.main.len() > 0 {
        the_weakest_is_asked_for_least(entered, cache.main.len() as int);
    }
}

/// An entry whose key is there takes the place of the one that has it, wherever that is, and that
/// one is given up; all others stay where they are.
pub proof fn entries_with_the_same_key_are_replaced<N, V>(
    cache: CacheModel<N, V>,
    key: N,
    value: V,
    segment: CacheSegment,
    returning_resident: bool,
    main_capacity: nat,
    i: int,
)
    requires
        cache.keys_are_distinct(),
        0 <= i < cache.main.len(),
        cache.main[i].key == key,
    ensures
        ({
            let entered = cache.inserted(key, value, segment, returning_resident, main_capacity);
            &&& entered.admitted
            &&& entered.cache.window == cache.window
            &&& entered.cache.main == cache.main.update(
                i,
                Resident { key, value, last_access: cache.clock + 1 },
            )
            &&& entered.evicted matches Some(evicted) && evicted.entry == cache.main[i]
                && evicted.was_cached && evicted.reason == CacheEvictionReason::DuplicateReplacement
        }),
{
    lemma_position(cache, key, 0);
    let at = cache.position(key, 0)->0;
    assert(cache.main[at].key == key);
    if at < i {
        assert(cache.main[at].key != cache.main[i].key);
    } else if i < at {
        assert(cache.main[i].key != cache.main[at].key);
    }
    assert(!cache.in_window(key));
}

/// A protected entry that comes back gets a free protected place if there is one. Otherwise it gets
/// one if and only if a protected entry was asked for less often, or as often but used earlier, and
/// the one that was asked for least goes. The window stays as it is.
pub proof fn protected_entries_come_back<N, V>(
    cache: CacheModel<N, V>,
    key: N,
    value: V,
    main_capacity: nat,
)
    requires
        !(cache.window matches Some(entry) && entry.key == key),
        forall|i: int| 0 <= i < cache.main.len() ==> (#[trigger] cache.main[i]).key != key,
        main_capacity > 0,
    ensures
        ({
            let back = cache.inserted(key, value, CacheSegment::Main, true, main_capacity);
            let asked = cache.frequencies;
            &&& back.cache.window == cache.window
            &&& cache.main.len() < main_capacity ==> back.admitted && back.evicted is None
                && back.cache.main == cache.main.push(
                Resident { key, value, last_access: cache.clock + 1 },
            )
            &&& cache.main.len() >= main_capacity ==> (back.admitted <==> exists|i: int|
                0 <= i < cache.main.len() && (asked((#[trigger] cache.main[i]).key) < asked(key) || (
                asked(cache.main[i].key) == asked(key) && cache.main[i].last_access < cache.clock
                    + 1)))
            &&& cache.main.len() >= main_capacity ==> back.evicted is Some && back.cache.main.len()
                == cache.main.len()
            &&& back.admitted && back.evicted is Some ==> forall|i: int|
                0 <= i < cache.main.len() ==> asked_for_less(
                    asked,
                    back.evicted->0.entry,
                    #[trigger] cache.main[i],
                )
            &&& !back.admitted ==> back.cache.main == cache.main && back.evicted->0.entry.key == key
                && back.evicted->0.entry.value == value
        }),
{
    lemma_position(cache, key, 0);
    let ticked = CacheModel { clock: cache.clock + 1, ..cache };
    if cache.main.len() > 0 {
        the_weakest_is_asked_for_least(ticked, cache.main.len() as int);
        let at = ticked.weakest(cache.main.len() as int);
        assert(cache.main[at] == ticked.main[at]);
    }
}

/// An entry that must not make the cache larger enters through the window. What was there moves to
/// a protected place only if it was asked for more often than a protected entry, and then the
/// protected entry that was asked for least goes; else it goes itself.
pub proof fn the_least_asked_for_makes_room<N, V>(cache: CacheModel<N, V>, key: N, value: V)
    requires
        cache.window is Some,
    ensures
        ({
            let entered = cache.inserted_without_growth(key, value);
            let displaced = cache.window->0;
            let asked = cache.frequencies;
            &&& entered.admitted
            &&& entered.cache.window == Some(
                Resident { key, value, last_access: cache.clock + 1 },
            )
            &&& entered.cache.main.len() == cache.main.len()
            &&& entered.evicted matches Some(evicted) && evicted.was_cached && {
                let moves = exists|i: int|
                    0 <= i < cache.main.len() && asked((#[trigger] cache.main[i]).key) < asked(
                        displaced.key,
                    );
                &&& moves ==> exists|at: int|
                    0 <= at < cache.main.len() && evicted.entry == #[trigger] cache.main[at]
                        && entered.cache.main == cache.main.update(at, displaced)
                &&& moves ==> forall|i: int|
                    0 <= i < cache.main.len() ==> asked_for_less(
                        asked,
                        evicted.entry,
                        #[trigger] cache.main[i],
                    )
                &&& !moves ==> evicted.entry == displaced && entered.cache.main == cache.main
            }
        }),
{
    let entered = CacheModel {
        window: Some(Resident { key, value, last_access: cache.clock + 1 }),
        clock: cache.clock + 1,
        ..cache
    };
    if cache.main.len() > 0 {
        the_weakest_is_asked_for_least(entered, cache.main.len() as int);
        let at = entered.weakest(cache.main.len() as int);
        assert(cache.main[at] == entered.main[at]);
    }
}

/// So many entries go when memory becomes short that none is left in the window and no more are
/// protected than may be, and none goes beyond those.
pub proof fn no_more_go_than_have_to<N, V>(cache: CacheModel<N, V>, protected_capacity: nat)
    ensures
        ({
            let after = cache.relieved_of(cache.excess(protected_capacity));
            &&& after.window is None
            &&& after.main.len() <= protected_capacity
            &&& cache.main.len() <= protected_capacity ==> after.main == cache.main
            &&& cache.main.len() >= protected_capacity ==> after.main.len() == protected_capacity
            &&& cache.victims(cache.excess(protected_capacity)).len() + after.len() == cache.len()
        }),
{
    let n = cache.excess(protected_capacity);
    lemma_relieved_of(cache, n);
    if cache.main.len() <= protected_capacity && cache.window is Some {
        reveal_with_fuel(CacheModel::relieved_of, 2);
        assert(cache.relieved_of(1) == cache.relieved_of(0).relieved());
    }
}

} // verus!
