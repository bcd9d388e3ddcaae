//! Bounded key→value store with per-entry expiry.
//!
//! Keys are `(contract id, state key)` pairs; each entry carries the instant
//! it was inserted and the instant at which it expires. An entry whose expiry
//! instant has been reached is treated as absent even before it is physically
//! removed. When a new key arrives while the store is full, the entry that
//! was inserted earliest is evicted — FIFO: the sequence order of the model
//! is insertion order, and overwriting an existing key re-inserts it as the
//! newest. A store built with capacity zero never holds an entry: a put is
//! then a no-op rather than a failure, so a caller can always proceed
//! without caching.
//!
//! Time is a caller-supplied `u64` tick count; the store never reads a clock.

use vstd::prelude::*;

verus! {

/// Composite cache key: one cached value per (contract id, state key) pair.
pub struct CacheKey {
    pub contract_id: String,
    pub state_key: String,
}

/// Mathematical image of one store entry, used by every contract.
pub struct EntryModel {
    pub contract_id: Seq<char>,
    pub state_key: Seq<char>,
    pub value: Seq<u8>,
    pub inserted_at: u64,
    pub expires_at: u64,
}

impl CacheKey {
    /// True when this key names the given (contract id, state key) pair.
    pub fn matches(&self, contract_id: &String, state_key: &String) -> (r: bool)
        ensures
            r == (self.contract_id@ == contract_id@ && self.state_key@ == state_key@),
    {
        self.contract_id == *contract_id && self.state_key == *state_key
    }
}

/// True when entry `e` is stored under the given key.
pub open spec fn entry_matches(e: EntryModel, contract_id: Seq<char>, state_key: Seq<char>) -> bool {
    e.contract_id == contract_id && e.state_key == state_key
}

/// Index of the first entry stored under the given key, or -1 when none is.
pub open spec fn find_index(s: Seq<EntryModel>, contract_id: Seq<char>, state_key: Seq<char>) -> int
    decreases s.len(),
{
    if s.len() == 0 {
        -1
    } else if entry_matches(s[0], contract_id, state_key) {
        0
    } else {
        let r = find_index(s.drop_first(), contract_id, state_key);
        if r < 0 {
            -1
        } else {
            r + 1
        }
    }
}

/// Whether some entry (live or expired) is stored under the given key.
pub open spec fn contains_key(s: Seq<EntryModel>, contract_id: Seq<char>, state_key: Seq<char>) -> bool {
    find_index(s, contract_id, state_key) >= 0
}

/// What a read of the given key returns at instant `now`: the stored value
/// while the entry is live (`now` strictly before its expiry), absent for a
/// missing or expired entry.
pub open spec fn lookup(
    s: Seq<EntryModel>,
    contract_id: Seq<char>,
    state_key: Seq<char>,
    now: u64,
) -> Option<Seq<u8>> {
    if contains_key(s, contract_id, state_key) {
        let e = s[find_index(s, contract_id, state_key)];
        if now < e.expires_at {
            Some(e.value)
        } else {
            None
        }
    } else {
        None
    }
}

/// `find_index` finds the first match: a non-negative result is a matching
/// index preceded only by non-matches, and -1 means no entry matches.
pub proof fn lemma_find_index_spec(s: Seq<EntryModel>, contract_id: Seq<char>, state_key: Seq<char>)
    ensures
        find_index(s, contract_id, state_key) == -1 || (0 <= find_index(s, contract_id, state_key)
            < s.len()),
        find_index(s, contract_id, state_key) == -1 ==> forall|j: int|
            0 <= j < s.len() ==> !entry_matches(s[j], contract_id, state_key),
        find_index(s, contract_id, state_key) >= 0 ==> entry_matches(
            s[find_index(s, contract_id, state_key)],
            contract_id,
            state_key,
        ),
        find_index(s, contract_id, state_key) >= 0 ==> forall|j: int|
            0 <= j < find_index(s, contract_id, state_key) ==> !entry_matches(
                s[j],
                contract_id,
                state_key,
            ),
    decreases s.len(),
{
    if s.len() == 0 {
    } else if entry_matches(s[0], contract_id, state_key) {
    } else {
        let ss = s.drop_first();
        lemma_find_index_spec(ss, contract_id, state_key);
        assert forall|j: int| 1 <= j < s.len() implies s[j] == ss[j - 1] by {}
    }
}

/// Content after dropping whatever entry the key names: the first match is
/// removed, everything else keeps its order. Identity when the key is absent.
pub open spec fn remove_key(s: Seq<EntryModel>, contract_id: Seq<char>, state_key: Seq<char>) -> Seq<EntryModel> {
    if contains_key(s, contract_id, state_key) {
        s.remove(find_index(s, contract_id, state_key))
    } else {
        s
    }
}

/// Content after storing `value` under the key: any previous entry for the
/// key goes away, the new entry becomes the newest; when the store is full
/// the oldest entry is evicted first (FIFO), and with capacity zero nothing
/// is stored at all.
pub open spec fn put_model(
    s: Seq<EntryModel>,
    contract_id: Seq<char>,
    state_key: Seq<char>,
    value: Seq<u8>,
    inserted_at: u64,
    expires_at: u64,
    cap: nat,
) -> Seq<EntryModel> {
    let cleared = remove_key(s, contract_id, state_key);
    let e = EntryModel { contract_id, state_key, value, inserted_at, expires_at };
    if cleared.len() < cap {
        cleared.push(e)
    } else if cap > 0 {
        cleared.drop_first().push(e)
    } else {
        cleared
    }
}

/// Content after physically dropping every entry already expired at `now`;
/// live entries keep their order.
pub open spec fn purge_model(s: Seq<EntryModel>, now: u64) -> Seq<EntryModel>
    decreases s.len(),
{
    if s.len() == 0 {
        s
    } else if now < s[0].expires_at {
        seq![s[0]] + purge_model(s.drop_first(), now)
    } else {
        purge_model(s.drop_first(), now)
    }
}

/// No two entries share a key.
pub open spec fn unique_keys(s: Seq<EntryModel>) -> bool {
    forall|i: int, j: int|
        0 <= i < j < s.len() ==> !entry_matches(#[trigger] s[j], (#[trigger] s[i]).contract_id, s[i].state_key)
}

/// Well-formed store content: distinct keys, never more entries than `cap`.
pub open spec fn wf_model(s: Seq<EntryModel>, cap: nat) -> bool {
    unique_keys(s) && s.len() <= cap
}

/// Removing the key keeps the remaining keys distinct and leaves nothing
/// stored under the removed key.
pub proof fn lemma_remove_key_spec(s: Seq<EntryModel>, contract_id: Seq<char>, state_key: Seq<char>)
    requires
        unique_keys(s),
    ensures
        unique_keys(remove_key(s, contract_id, state_key)),
        !contains_key(remove_key(s, contract_id, state_key), contract_id, state_key),
        remove_key(s, contract_id, state_key).len() <= s.len(),
        contains_key(s, contract_id, state_key) ==> remove_key(s, contract_id, state_key).len()
            == s.len() - 1,
{
    lemma_find_index_spec(s, contract_id, state_key);
    if contains_key(s, contract_id, state_key) {
        let fi = find_index(s, contract_id, state_key);
        let r = s.remove(fi);
        assert forall|j: int| 0 <= j < r.len() implies r[j] == (if j < fi {
            s[j]
        } else {
            s[j + 1]
        }) by {}
        assert forall|i: int, j: int| 0 <= i < j < r.len() implies !entry_matches(
            #[trigger] r[j],
            (#[trigger] r[i]).contract_id,
            r[i].state_key,
        ) by {
            let si = if i < fi { i } else { i + 1 };
            let sj = if j < fi { j } else { j + 1 };
            assert(!entry_matches(s[sj], s[si].contract_id, s[si].state_key));
        }
        lemma_find_index_spec(r, contract_id, state_key);
        let fj = find_index(r, contract_id, state_key);
        if fj >= 0 {
            if fj < fi {
                assert(!entry_matches(s[fj], contract_id, state_key));
            } else {
                assert(entry_matches(s[fj + 1], contract_id, state_key));
                assert(!entry_matches(s[fj + 1], s[fi].contract_id, s[fi].state_key));
            }
        }
    }
}

/// After pushing an entry for a key that nothing else carries, that entry is
/// the one a search for the key finds.
proof fn lemma_find_index_after_push(
    s: Seq<EntryModel>,
    e: EntryModel,
    contract_id: Seq<char>,
    state_key: Seq<char>,
)
    requires
        forall|j: int| 0 <= j < s.len() ==> !entry_matches(#[trigger] s[j], contract_id, state_key),
        entry_matches(e, contract_id, state_key),
    ensures
        find_index(s.push(e), contract_id, state_key) == s.len(),
{
    let p = s.push(e);
    lemma_find_index_spec(p, contract_id, state_key);
    let fi = find_index(p, contract_id, state_key);
    if fi == -1 {
        assert(entry_matches(p[s.len() as int], contract_id, state_key));
    } else if fi < s.len() {
        assert(p[fi] == s[fi]);
    }
}

/// A put never grows the content past the capacity, and keeps keys distinct.
pub proof fn lemma_put_preserves_wf(
    s: Seq<EntryModel>,
    contract_id: Seq<char>,
    state_key: Seq<char>,
    value: Seq<u8>,
    inserted_at: u64,
    expires_at: u64,
    cap: nat,
)
    requires
        wf_model(s, cap),
    ensures
        wf_model(put_model(s, contract_id, state_key, value, inserted_at, expires_at, cap), cap),
{
    lemma_remove_key_spec(s, contract_id, state_key);
    lemma_find_index_spec(remove_key(s, contract_id, state_key), contract_id, state_key);
    let cleared = remove_key(s, contract_id, state_key);
    let e = EntryModel { contract_id, state_key, value, inserted_at, expires_at };
    let base = if cleared.len() < cap {
        cleared
    } else if cap > 0 {
        cleared.drop_first()
    } else {
        cleared
    };
    if cap > 0 {
        assert forall|j: int| 0 <= j < base.len() implies !entry_matches(
            #[trigger] base[j],
            contract_id,
            state_key,
        ) by {
            if cleared.len() < cap {
                assert(base[j] == cleared[j]);
            } else {
                assert(base[j] == cleared[j + 1]);
            }
        }
        assert forall|i: int, j: int| 0 <= i < j < base.push(e).len() implies !entry_matches(
            #[trigger] base.push(e)[j],
            (#[trigger] base.push(e)[i]).contract_id,
            base.push(e)[i].state_key,
        ) by {
            let shift: int = if cleared.len() < cap {
                0
            } else {
                1
            };
            if j < base.len() {
                assert(!entry_matches(
                    cleared[j + shift],
                    cleared[i + shift].contract_id,
                    cleared[i + shift].state_key,
                ));
            } else {
                assert(base.push(e)[i] == cleared[i + shift]);
                assert(!entry_matches(cleared[i + shift], contract_id, state_key));
            }
        }
    }
}

/// A purge keeps a key untouched out of the result too.
proof fn lemma_purge_no_match(s: Seq<EntryModel>, now: u64, contract_id: Seq<char>, state_key: Seq<char>)
    requires
        forall|j: int| 0 <= j < s.len() ==> !entry_matches(#[trigger] s[j], contract_id, state_key),
    ensures
        forall|j: int|
            0 <= j < purge_model(s, now).len() ==> !entry_matches(
                #[trigger] purge_model(s, now)[j],
                contract_id,
                state_key,
            ),
    decreases s.len(),
{
    if s.len() == 0 {
    } else {
        let rest = s.drop_first();
        assert forall|j: int| 0 <= j < rest.len() implies !entry_matches(
            #[trigger] rest[j],
            contract_id,
            state_key,
        ) by {
            assert(rest[j] == s[j + 1]);
        }
        lemma_purge_no_match(rest, now, contract_id, state_key);
        if now < s[0].expires_at {
            assert forall|j: int| 0 <= j < purge_model(s, now).len() implies !entry_matches(
                #[trigger] purge_model(s, now)[j],
                contract_id,
                state_key,
            ) by {
                if j == 0 {
                    assert(purge_model(s, now)[0] == s[0]);
                } else {
                    assert(purge_model(s, now)[j] == purge_model(rest, now)[j - 1]);
                }
            }
        } else {
            assert forall|j: int| 0 <= j < purge_model(s, now).len() implies !entry_matches(
                #[trigger] purge_model(s, now)[j],
                contract_id,
                state_key,
            ) by {
                assert(purge_model(s, now)[j] == purge_model(rest, now)[j]);
            }
        }
    }
}

/// A purge keeps the remaining keys distinct and never grows the content.
pub proof fn lemma_purge_preserves_wf(s: Seq<EntryModel>, now: u64, cap: nat)
    requires
        wf_model(s, cap),
    ensures
        wf_model(purge_model(s, now), cap),
        purge_model(s, now).len() <= s.len(),
    decreases s.len(),
{
    if s.len() == 0 {
    } else {
        let rest = s.drop_first();
        assert forall|i: int, j: int| 0 <= i < j < rest.len() implies !entry_matches(
            #[trigger] rest[j],
            (#[trigger] rest[i]).contract_id,
            rest[i].state_key,
        ) by {
            assert(!entry_matches(s[j + 1], s[i + 1].contract_id, s[i + 1].state_key));
        }
        lemma_purge_preserves_wf(rest, now, cap);
        if now < s[0].expires_at {
            let p = seq![s[0]] + purge_model(rest, now);
            assert forall|j: int| 0 <= j < rest.len() implies !entry_matches(
                #[trigger] rest[j],
                s[0].contract_id,
                s[0].state_key,
            ) by {
                assert(!entry_matches(s[j + 1], s[0].contract_id, s[0].state_key));
            }
            lemma_purge_no_match(rest, now, s[0].contract_id, s[0].state_key);
            assert forall|i: int, j: int| 0 <= i < j < p.len() implies !entry_matches(
                #[trigger] p[j],
                (#[trigger] p[i]).contract_id,
                p[i].state_key,
            ) by {
                assert(p[j] == purge_model(rest, now)[j - 1]);
                if i == 0 {
                    assert(p[0] == s[0]);
                } else {
                    assert(p[i] == purge_model(rest, now)[i - 1]);
                }
            }
        }
    }
}

/// Purging is invisible to reads: what a lookup returns at any instant from
/// the purge on is exactly what it returned before the purge.
pub proof fn lemma_purge_transparent(
    s: Seq<EntryModel>,
    now: u64,
    contract_id: Seq<char>,
    state_key: Seq<char>,
    t: u64,
)
    requires
        unique_keys(s),
        now <= t,
    ensures
        lookup(purge_model(s, now), contract_id, state_key, t) == lookup(
            s,
            contract_id,
            state_key,
            t,
        ),
    decreases s.len(),
{
    if s.len() == 0 {
    } else {
        let rest = s.drop_first();
        assert forall|i: int, j: int| 0 <= i < j < rest.len() implies !entry_matches(
            #[trigger] rest[j],
            (#[trigger] rest[i]).contract_id,
            rest[i].state_key,
        ) by {
            assert(!entry_matches(s[j + 1], s[i + 1].contract_id, s[i + 1].state_key));
        }
        lemma_purge_transparent(rest, now, contract_id, state_key, t);
        let p = purge_model(s, now);
        if entry_matches(s[0], contract_id, state_key) {
            assert(find_index(s, contract_id, state_key) == 0);
            if now < s[0].expires_at {
                assert(p[0] == s[0]);
                assert(find_index(p, contract_id, state_key) == 0);
            } else {
                // the matching entry was already expired, so it was dropped;
                // no other entry carries the key, on either side
                assert forall|j: int| 0 <= j < rest.len() implies !entry_matches(
                    #[trigger] rest[j],
                    contract_id,
                    state_key,
                ) by {
                    assert(!entry_matches(s[j + 1], s[0].contract_id, s[0].state_key));
                }
                lemma_purge_no_match(rest, now, contract_id, state_key);
                lemma_find_index_spec(p, contract_id, state_key);
                if contains_key(p, contract_id, state_key) {
                    assert(entry_matches(
                        p[find_index(p, contract_id, state_key)],
                        contract_id,
                        state_key,
                    ));
                }
                assert(lookup(p, contract_id, state_key, t) is None);
                assert(t >= s[0].expires_at);
            }
        } else {
            // neither side can answer from the head entry
            assert forall|j: int| 0 <= j < rest.len() implies s[j + 1] == rest[j] by {}
            assert(find_index(s, contract_id, state_key) == (if find_index(
                rest,
                contract_id,
                state_key,
            ) < 0 {
                -1
            } else {
                find_index(rest, contract_id, state_key) + 1
            }));
            lemma_find_index_spec(rest, contract_id, state_key);
            if now < s[0].expires_at {
                let tail = purge_model(rest, now);
                assert(p[0] == s[0]);
                assert(p.drop_first() =~= tail);
                assert forall|j: int| 0 <= j < tail.len() implies p[j + 1] == tail[j] by {}
                assert(find_index(p, contract_id, state_key) == (if find_index(
                    tail,
                    contract_id,
                    state_key,
                ) < 0 {
                    -1
                } else {
                    find_index(tail, contract_id, state_key) + 1
                }));
                lemma_find_index_spec(tail, contract_id, state_key);
            }
        }
    }
}

/// A key that was never stored reads as absent: when no entry carries the
/// key, a lookup at any instant returns nothing.
pub proof fn lemma_unwritten_key_absent(
    s: Seq<EntryModel>,
    contract_id: Seq<char>,
    state_key: Seq<char>,
    now: u64,
)
    requires
        !contains_key(s, contract_id, state_key),
    ensures
        lookup(s, contract_id, state_key, now) is None,
{
}

/// A put pins every later read of its key until something else intervenes:
/// a lookup strictly before the expiry instant returns exactly the stored
/// value, and at or after it returns nothing. The one content that stores
/// nothing is exempt: a store of capacity zero holds no entry to read.
pub proof fn lemma_put_then_lookup(
    s: Seq<EntryModel>,
    contract_id: Seq<char>,
    state_key: Seq<char>,
    value: Seq<u8>,
    inserted_at: u64,
    expires_at: u64,
    cap: nat,
    t: u64,
)
    requires
        unique_keys(s),
        cap > 0,
    ensures
        lookup(
            put_model(s, contract_id, state_key, value, inserted_at, expires_at, cap),
            contract_id,
            state_key,
            t,
        ) == if t < expires_at {
            Some(value)
        } else {
            None::<Seq<u8>>
        },
{
    lemma_remove_key_spec(s, contract_id, state_key);
    let cleared = remove_key(s, contract_id, state_key);
    let e = EntryModel { contract_id, state_key, value, inserted_at, expires_at };
    lemma_find_index_spec(cleared, contract_id, state_key);
    if cleared.len() < cap {
        lemma_find_index_after_push(cleared, e, contract_id, state_key);
    } else {
        let base = cleared.drop_first();
        assert forall|j: int| 0 <= j < base.len() implies !entry_matches(
            #[trigger] base[j],
            contract_id,
            state_key,
        ) by {
            assert(base[j] == cleared[j + 1]);
        }
        lemma_find_index_after_push(base, e, contract_id, state_key);
    }
}

/// Invalidation is idempotent: dropping a key a second time changes
/// nothing, because the first drop left nothing stored under it.
pub proof fn lemma_remove_key_idempotent(
    s: Seq<EntryModel>,
    contract_id: Seq<char>,
    state_key: Seq<char>,
)
    requires
        unique_keys(s),
    ensures
        remove_key(remove_key(s, contract_id, state_key), contract_id, state_key) == remove_key(
            s,
            contract_id,
            state_key,
        ),
{
    lemma_remove_key_spec(s, contract_id, state_key);
}

/// An invalidate immediately followed by a read of the same key never
/// serves the dropped value: the lookup returns nothing, at any instant.
pub proof fn lemma_invalidate_then_lookup(
    s: Seq<EntryModel>,
    contract_id: Seq<char>,
    state_key: Seq<char>,
    now: u64,
)
    requires
        unique_keys(s),
    ensures
        lookup(remove_key(s, contract_id, state_key), contract_id, state_key, now) is None,
{
    lemma_remove_key_spec(s, contract_id, state_key);
}

struct Entry {
    key: CacheKey,
    value: Vec<u8>,
    inserted_at: u64,
    expires_at: u64,
}

impl Entry {
    spec fn model(&self) -> EntryModel {
        EntryModel {
            contract_id: self.key.contract_id@,
            state_key: self.key.state_key@,
            value: self.value@,
            inserted_at: self.inserted_at,
            expires_at: self.expires_at,
        }
    }
}

/// Bounded key→value store with per-entry expiry and FIFO eviction.
pub struct ExpiringStore {
    entries: Vec<Entry>,
    max_capacity: usize,
    default_ttl: u64,
}

impl ExpiringStore {
    /// The store's content, oldest insertion first.
    pub closed spec fn view(&self) -> Seq<EntryModel> {
        self.entries@.map(|i: int, e: Entry| e.model())
    }

    /// Capacity the store was built with; its content never grows past it.
    pub closed spec fn spec_max_capacity(&self) -> usize {
        self.max_capacity
    }

    /// Expiry span used by a put that names no span of its own.
    pub closed spec fn spec_default_ttl(&self) -> u64 {
        self.default_ttl
    }

    pub open spec fn wf(&self) -> bool {
        wf_model(self@, self.spec_max_capacity() as nat)
    }

    /// An empty store with the given capacity and default time-to-live.
    pub fn new(max_capacity: usize, default_ttl: u64) -> (s: ExpiringStore)
        ensures
            s@ == Seq::<EntryModel>::empty(),
            s.spec_max_capacity() == max_capacity,
            s.spec_default_ttl() == default_ttl,
            s.wf(),
    {
        let s = ExpiringStore { entries: Vec::new(), max_capacity, default_ttl };
        proof {
            assert(s@ =~= Seq::<EntryModel>::empty());
        }
        s
    }

    /// Number of resident entries, expired ones included.
    pub fn len(&self) -> (n: usize)
        ensures
            n == self@.len(),
    {
        self.entries.len()
    }

    pub fn max_capacity(&self) -> (c: usize)
        ensures
            c == self.spec_max_capacity(),
    {
        self.max_capacity
    }

    pub fn default_ttl(&self) -> (t: u64)
        ensures
            t == self.spec_default_ttl(),
    {
        self.default_ttl
    }

    /// Index of the entry stored under the key, if any.
    fn find(&self, contract_id: &String, state_key: &String) -> (r: Option<usize>)
        ensures
            match r {
                Some(i) => i == find_index(self@, contract_id@, state_key@) && i < self@.len(),
                None => !contains_key(self@, contract_id@, state_key@),
            },
    {
        proof {
            lemma_find_index_spec(self@, contract_id@, state_key@);
        }
        let n = self.entries.len();
        let mut i: usize = 0;
        while i < n
            invariant
                i <= n,
                n == self@.len(),
                forall|j: int|
                    0 <= j < i ==> !entry_matches(#[trigger] self@[j], contract_id@, state_key@),
                find_index(self@, contract_id@, state_key@) == -1 || 0 <= find_index(
                    self@,
                    contract_id@,
                    state_key@,
                ) < self@.len(),
                find_index(self@, contract_id@, state_key@) >= 0 ==> entry_matches(
                    self@[find_index(self@, contract_id@, state_key@)],
                    contract_id@,
                    state_key@,
                ),
                find_index(self@, contract_id@, state_key@) == -1 ==> forall|j: int|
                    0 <= j < self@.len() ==> !entry_matches(
                        #[trigger] self@[j],
                        contract_id@,
                        state_key@,
                    ),
                find_index(self@, contract_id@, state_key@) >= 0 ==> forall|j: int|
                    0 <= j < find_index(self@, contract_id@, state_key@) ==> !entry_matches(
                        #[trigger] self@[j],
                        contract_id@,
                        state_key@,
                    ),
            decreases n - i,
        {
            if self.entries[i].key.matches(contract_id, state_key) {
                proof {
                    let fi = find_index(self@, contract_id@, state_key@);
                    assert(entry_matches(self@[i as int], contract_id@, state_key@));
                    if fi != i as int {
                        if fi == -1 {
                            assert(!entry_matches(self@[i as int], contract_id@, state_key@));
                        } else if fi < i as int {
                            assert(!entry_matches(self@[fi], contract_id@, state_key@));
                        } else {
                            assert(!entry_matches(self@[i as int], contract_id@, state_key@));
                        }
                    }
                }
                return Some(i);
            }
            i = i + 1;
        }
        None
    }

    /// Drop whatever entry the key names. Idempotent: a second call, or one
    /// for an absent key, changes nothing.
    pub fn invalidate(&mut self, contract_id: &String, state_key: &String)
        requires
            old(self).wf(),
        ensures
            final(self).wf(),
            final(self)@ == remove_key(old(self)@, contract_id@, state_key@),
            final(self).spec_max_capacity() == old(self).spec_max_capacity(),
            final(self).spec_default_ttl() == old(self).spec_default_ttl(),
    {
        proof {
            lemma_remove_key_spec(self@, contract_id@, state_key@);
        }
        match self.find(contract_id, state_key) {
            Some(i) => {
                self.entries.remove(i);
                proof {
                    assert(self@ =~= old(self)@.remove(i as int));
                }
            },
            None => {},
        }
    }

    /// Store `value` under the key until `now + ttl` (saturating), where a
    /// `ttl` of `None` means the store's default. Any previous entry for the
    /// key goes away and the new one becomes the newest resident; when the
    /// store is full the oldest resident is evicted first, and a store of
    /// capacity zero stores nothing at all rather than failing.
    pub fn put(
        &mut self,
        contract_id: &String,
        state_key: &String,
        value: Vec<u8>,
        ttl: Option<u64>,
        now: u64,
    )
        requires
            old(self).wf(),
        ensures
            final(self).wf(),
            final(self)@ == put_model(
                old(self)@,
                contract_id@,
                state_key@,
                value@,
                now,
                now.saturating_add(
                    match ttl {
                        Some(t) => t,
                        None => old(self).spec_default_ttl(),
                    },
                ),
                old(self).spec_max_capacity() as nat,
            ),
            final(self).spec_max_capacity() == old(self).spec_max_capacity(),
            final(self).spec_default_ttl() == old(self).spec_default_ttl(),
    {
        let ghost m0 = self@;
        let ghost cleared = remove_key(m0, contract_id@, state_key@);
        proof {
            lemma_remove_key_spec(m0, contract_id@, state_key@);
            lemma_put_preserves_wf(
                m0,
                contract_id@,
                state_key@,
                value@,
                now,
                now.saturating_add(
                    match ttl {
                        Some(t) => t,
                        None => self.spec_default_ttl(),
                    },
                ),
                self.spec_max_capacity() as nat,
            );
        }
        let ttl_value = match ttl {
            Some(t) => t,
            None => self.default_ttl,
        };
        let expires_at = now.saturating_add(ttl_value);
        match self.find(contract_id, state_key) {
            Some(i) => {
                self.entries.remove(i);
                proof {
                    assert(self@ =~= m0.remove(i as int));
                }
            },
            None => {},
        }
        if self.max_capacity == 0 {
            return ;
        }
        if self.entries.len() >= self.max_capacity {
            self.entries.remove(0);
            proof {
                assert(self@ =~= cleared.drop_first());
            }
        }
        let entry = Entry {
            key: CacheKey {
                contract_id: contract_id.clone(),
                state_key: state_key.clone(),
            },
            value,
            inserted_at: now,
            expires_at,
        };
        self.entries.push(entry);
        proof {
            let e = EntryModel {
                contract_id: contract_id@,
                state_key: state_key@,
                value: value@,
                inserted_at: now,
                expires_at,
            };
            if cleared.len() < self.max_capacity {
                assert(self@ =~= cleared.push(e));
            } else {
                assert(self@ =~= cleared.drop_first().push(e));
            }
        }
    }

    /// Physically drop every entry already expired at `now`. Reads cannot
    /// tell the difference (an expired entry already read as absent); this
    /// only returns the slots to the capacity budget.
    pub fn purge_expired(&mut self, now: u64)
        requires
            old(self).wf(),
        ensures
            final(self).wf(),
            final(self)@ == purge_model(old(self)@, now),
            final(self).spec_max_capacity() == old(self).spec_max_capacity(),
            final(self).spec_default_ttl() == old(self).spec_default_ttl(),
    {
        let ghost m0 = self@;
        proof {
            lemma_purge_preserves_wf(m0, now, self.spec_max_capacity() as nat);
            assert(m0.skip(0) =~= m0);
            assert(m0.subrange(0, 0) + purge_model(m0, now) =~= purge_model(m0, now));
        }
        let mut i: usize = 0;
        while i < self.entries.len()
            invariant
                self.wf(),
                i <= self@.len(),
                self.spec_max_capacity() == old(self).spec_max_capacity(),
                self.spec_default_ttl() == old(self).spec_default_ttl(),
                self@.subrange(0, i as int) + purge_model(self@.skip(i as int), now)
                    == purge_model(m0, now),
            decreases self@.len() - i,
        {
            let ghost before = self@;
            if now >= self.entries[i].expires_at {
                self.entries.remove(i);
                proof {
                    assert(self@ =~= before.remove(i as int));
                    assert(before.skip(i as int)[0] == before[i as int]);
                    assert(before.skip(i as int).drop_first() =~= self@.skip(i as int));
                    assert(self@.subrange(0, i as int) =~= before.subrange(0, i as int));
                    assert forall|a: int, b: int|
                        0 <= a < b < self@.len() implies !entry_matches(
                        #[trigger] self@[b],
                        (#[trigger] self@[a]).contract_id,
                        self@[a].state_key,
                    ) by {
                        let sa = if a < i as int {
                            a
                        } else {
                            a + 1
                        };
                        let sb = if b < i as int {
                            b
                        } else {
                            b + 1
                        };
                        assert(!entry_matches(
                            before[sb],
                            before[sa].contract_id,
                            before[sa].state_key,
                        ));
                    }
                }
            } else {
                proof {
                    assert(before.skip(i as int)[0] == before[i as int]);
                    assert(before.skip(i as int).drop_first() =~= before.skip(i + 1));
                    assert(before.subrange(0, i as int) + seq![before[i as int]]
                        =~= before.subrange(0, i + 1));
                    assert(before.subrange(0, i as int) + (seq![before[i as int]] + purge_model(
                        before.skip(i + 1),
                        now,
                    )) =~= before.subrange(0, i + 1) + purge_model(before.skip(i + 1), now));
                }
                i = i + 1;
            }
        }
        proof {
            assert(self@.skip(self@.len() as int) =~= Seq::<EntryModel>::empty());
            assert(self@.subrange(0, self@.len() as int) =~= self@);
        }
    }

    /// The live value stored under the key at instant `now`; absent for a
    /// missing or expired entry.
    pub fn get(&self, contract_id: &String, state_key: &String, now: u64) -> (r: Option<&Vec<u8>>)
        ensures
            match r {
                Some(v) => lookup(self@, contract_id@, state_key@, now) == Some(v@),
                None => lookup(self@, contract_id@, state_key@, now) is None,
            },
    {
        match self.find(contract_id, state_key) {
            Some(i) => {
                let e = &self.entries[i];
                if now < e.expires_at {
                    Some(&e.value)
                } else {
                    None
                }
            },
            None => None,
        }
    }
}

} // verus!
