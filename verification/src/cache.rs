//! The tiered cache: the fast in-process tier and the steps of the read and
//! write paths that involve the durable tier.
//!
//! The durable tier is a store that only the embedding program can reach.
//! Each operation therefore says what happens to the fast tier and what, if
//! anything, has to be done at the durable tier: a read that misses asks for
//! the durable copy, and [`CacheManager::finish_get`] takes the reply.
//! Instants and durations are milliseconds on the caller's monotonic clock.

use crate::json::{JsonValue, JsonView};
use crate::clock::elapsed;
use crate::strmap::StringMap;
use vstd::prelude::*;
use vstd::string::StringExecFns;

verus! {

pub struct CacheEntry {
    pub data: JsonValue,
    pub created_at: u64,
    pub ttl: u64,
}

/// The mathematical content of a [`CacheEntry`].
pub struct CacheEntryView {
    pub data: JsonView,
    pub created_at: u64,
    pub ttl: u64,
}

impl View for CacheEntry {
    type V = CacheEntryView;

    open spec fn view(&self) -> CacheEntryView {
        CacheEntryView { data: self.data@, created_at: self.created_at, ttl: self.ttl }
    }
}

impl CacheEntryView {
    /// An entry is logically absent once more than its time to live has
    /// passed since it was made, whether or not it has been evicted.
    pub open spec fn expired_at(self, now: u64) -> bool {
        elapsed(now, self.created_at) > self.ttl
    }
}

impl CacheEntry {
    pub fn is_expired(&self, now: u64) -> (r: bool)
        ensures
            r == self@.expired_at(now),
    {
        now >= self.created_at && now - self.created_at > self.ttl
    }
}

/// The times to live that the cache applies, in milliseconds.
#[derive(Clone, Copy, Debug, PartialEq, Eq, Structural)]
pub struct CachePolicy {
    /// For entries stored without a time to live of their own, and for
    /// entries brought in from the durable tier.
    pub default_ttl: u64,
    pub api_response_ttl: u64,
    pub session_ttl: u64,
    pub permission_ttl: u64,
}

pub open spec fn default_policy() -> CachePolicy {
    CachePolicy {
        default_ttl: 300_000,
        api_response_ttl: 60_000,
        session_ttl: 3_600_000,
        permission_ttl: 1_800_000,
    }
}

/// The first step of a read.
pub enum ReadStep {
    /// The fast tier holds a live entry: this is its value.
    Found(JsonValue),
    /// The fast tier has nothing live under the key: the durable tier is to
    /// be asked, and its answer given to [`CacheManager::finish_get`].
    AskDurable,
}

/// The write that the durable tier is to make after a `set`; a failure
/// there is not reported back.
pub struct DurableWrite {
    pub key: String,
    pub value: JsonValue,
    /// The entry's time to live in whole seconds.
    pub ttl_secs: u64,
}

/// Counts over the fast tier.
#[derive(Clone, Copy, Debug, PartialEq, Eq, Structural)]
pub struct CacheStats {
    pub total_entries: usize,
    /// Entries that are still held though their time to live has lapsed.
    pub expired_entries: usize,
}

/// What a read of the fast tier gives for `key` at `now`: the value of a
/// live entry, and nothing for an expired or a missing one.
pub open spec fn live_value(tier: Map<Seq<char>, CacheEntryView>, key: Seq<char>, now: u64) -> Option<
    JsonView,
> {
    if tier.contains_key(key) && !tier[key].expired_at(now) {
        Some(tier[key].data)
    } else {
        None
    }
}

/// The fast tier after `value` has been stored under `key` at `now`.
pub open spec fn tier_with(
    tier: Map<Seq<char>, CacheEntryView>,
    key: Seq<char>,
    value: JsonView,
    ttl: u64,
    now: u64,
) -> Map<Seq<char>, CacheEntryView> {
    tier.insert(key, CacheEntryView { data: value, created_at: now, ttl })
}

/// The whole read path for `key` at `now`, where the durable tier holds
/// `durable` under the key: the fast tier afterwards, and the value read.
/// A live entry of the fast tier is returned and the durable tier is not
/// consulted. Otherwise a durable copy is returned and stored in the fast
/// tier with the default time to live, counted from `now`.
pub open spec fn read_path(
    tier: Map<Seq<char>, CacheEntryView>,
    default_ttl: u64,
    key: Seq<char>,
    durable: Option<JsonView>,
    now: u64,
) -> (Map<Seq<char>, CacheEntryView>, Option<JsonView>) {
    match live_value(tier, key, now) {
        Some(v) => (tier, Some(v)),
        None => match durable {
            Some(v) => (tier_with(tier, key, v, default_ttl, now), Some(v)),
            None => (tier, None),
        },
    }
}

/// The number of `entries` whose time to live has lapsed at `now`.
pub open spec fn count_expired(entries: Seq<CacheEntry>, now: u64) -> nat
    decreases entries.len(),
{
    if entries.len() == 0 {
        0
    } else {
        count_expired(entries.drop_last(), now) + if entries.last()@.expired_at(now) {
            1nat
        } else {
            0nat
        }
    }
}

/// The key of a cached API response.
pub open spec fn api_cache_key(endpoint: Seq<char>, params: Seq<char>) -> Seq<char> {
    "api:"@ + endpoint + ":"@ + params
}

/// The key of a cached streaming session.
pub open spec fn session_cache_key(session_id: Seq<char>) -> Seq<char> {
    "nvidia:session:"@ + session_id
}

/// The key of a user's cached permissions.
pub open spec fn permission_cache_key(user_id: Seq<char>) -> Seq<char> {
    "user:permissions:"@ + user_id
}

/// A value that was read, taken by its view.
pub open spec fn value_view(v: Option<JsonValue>) -> Option<JsonView> {
    match v {
        Some(x) => Some(x@),
        None => None,
    }
}

/// A first read step as the value it found, if any.
pub open spec fn step_view(step: ReadStep) -> Option<JsonView> {
    match step {
        ReadStep::Found(v) => Some(v@),
        ReadStep::AskDurable => None,
    }
}

pub struct CacheManager {
    memory_cache: StringMap<CacheEntry>,
    policy: CachePolicy,
}

impl CacheManager {
    pub closed spec fn wf(&self) -> bool {
        self.memory_cache.wf()
    }

    /// The fast tier, by key.
    pub closed spec fn tier(&self) -> Map<Seq<char>, CacheEntryView> {
        Map::new(
            |k: Seq<char>| self.memory_cache@.contains_key(k),
            |k: Seq<char>| self.memory_cache@[k]@,
        )
    }

    /// The keys of the fast tier, in the order of its listing.
    pub closed spec fn keys(&self) -> Seq<Seq<char>> {
        self.memory_cache.key_seq()
    }

    /// The entries of the fast tier, each at the place of its key in
    /// [`Self::keys`].
    pub closed spec fn entries(&self) -> Seq<CacheEntry> {
        self.memory_cache.val_seq()
    }

    /// The fast tier by key and the fast tier in order are the same
    /// entries: no key is listed twice, each listed entry is the one held
    /// under its key, and every key held is listed.
    pub proof fn lemma_entries_listed(&self)
        requires
            self.wf(),
        ensures
            self.tier().dom().finite(),
            self.keys().len() == self.entries().len(),
            self.entries().len() == self.tier().dom().len(),
            forall|i: int, j: int| 0 <= i < j < self.keys().len() ==> self.keys()[i] != self.keys()[j],
            forall|i: int|
                0 <= i < self.keys().len() ==> self.tier().contains_key(#[trigger] self.keys()[i])
                    && self.tier()[self.keys()[i]] == self.entries()[i]@,
            forall|k: Seq<char>| #[trigger]
                self.tier().contains_key(k) ==> exists|i: int|
                    0 <= i < self.keys().len() && #[trigger] self.keys()[i] == k,
    {
        self.memory_cache.lemma_listed();
        assert(self.tier().dom() =~= self.memory_cache@.dom());
        assert forall|i: int| 0 <= i < self.keys().len() implies self.tier().contains_key(
            #[trigger] self.keys()[i],
        ) && self.tier()[self.keys()[i]] == self.entries()[i]@ by {
            let k = self.memory_cache.key_seq()[i];
            assert(self.memory_cache@.contains_key(k));
        }
        assert forall|k: Seq<char>| #[trigger] self.tier().contains_key(k) implies exists|i: int|
            0 <= i < self.keys().len() && #[trigger] self.keys()[i] == k by {
            let i = self.memory_cache.index_of(k);
            assert(self.memory_cache@.contains_key(k));
            assert(self.memory_cache.bound_at(k, i));
            assert(0 <= i < self.keys().len() && self.keys()[i] == k);
        }
    }

    pub closed spec fn ttls(&self) -> CachePolicy {
        self.policy
    }

    pub fn new() -> (m: Self)
        ensures
            m.wf(),
            m.tier() == Map::<Seq<char>, CacheEntryView>::empty(),
            m.ttls() == default_policy(),
    {
        let m = CacheManager {
            memory_cache: StringMap::new(),
            policy: CachePolicy {
                default_ttl: 300_000,
                api_response_ttl: 60_000,
                session_ttl: 3_600_000,
                permission_ttl: 1_800_000,
            },
        };
        assert(m.tier() =~= Map::<Seq<char>, CacheEntryView>::empty());
        m
    }

    /// A cache that applies the times to live of `policy`.
    pub fn with_policy(policy: CachePolicy) -> (m: Self)
        ensures
            m.wf(),
            m.tier() == Map::<Seq<char>, CacheEntryView>::empty(),
            m.ttls() == policy,
    {
        let m = CacheManager { memory_cache: StringMap::new(), policy };
        assert(m.tier() =~= Map::<Seq<char>, CacheEntryView>::empty());
        m
    }

    /// The first step of a read: the value of a live entry of the fast
    /// tier, or the request to ask the durable tier. An entry is never
    /// returned past its time to live.
    pub fn get(&self, key: &str, now: u64) -> (step: ReadStep)
        requires
            self.wf(),
        ensures
            step_view(step) == live_value(self.tier(), key@, now),
    {
        match self.memory_cache.get(key) {
            Some(entry) => {
                if !entry.is_expired(now) {
                    ReadStep::Found(entry.data.clone())
                } else {
                    ReadStep::AskDurable
                }
            },
            None => ReadStep::AskDurable,
        }
    }

    /// The second step of a read that missed the fast tier: `reply` is what
    /// the durable tier holds under `key`. A durable copy goes into the fast
    /// tier with the default time to live, counted from `now`, and is
    /// returned.
    pub fn finish_get(&mut self, key: &str, reply: Option<JsonValue>, now: u64) -> (r: Option<
        JsonValue,
    >)
        requires
            old(self).wf(),
        ensures
            final(self).wf(),
            final(self).ttls() == old(self).ttls(),
            value_view(r) == value_view(reply),
            final(self).tier() == match reply {
                Some(v) => tier_with(old(self).tier(), key@, v@, old(self).ttls().default_ttl, now),
                None => old(self).tier(),
            },
    {
        match reply {
            Some(value) => {
                let copy = value.clone();
                let ttl = self.policy.default_ttl;
                self.set_memory_cache(key, value, ttl, now);
                Some(copy)
            },
            None => None,
        }
    }

    /// Stores `value` under `key` in the fast tier and returns the write
    /// that the durable tier is to make. Without a `ttl` the default
    /// applies.
    pub fn set(&mut self, key: &str, value: JsonValue, ttl: Option<u64>, now: u64) -> (w:
        DurableWrite)
        requires
            old(self).wf(),
        ensures
            final(self).wf(),
            final(self).ttls() == old(self).ttls(),
            ({
                let t = match ttl {
                    Some(t) => t,
                    None => old(self).ttls().default_ttl,
                };
                &&& final(self).tier() == tier_with(old(self).tier(), key@, value@, t, now)
                &&& w.key@ == key@
                &&& w.value@ == value@
                &&& w.ttl_secs == t / 1000
            }),
    {
        let t = match ttl {
            Some(t) => t,
            None => self.policy.default_ttl,
        };
        let copy = value.clone();
        self.set_memory_cache(key, value, t, now);
        DurableWrite { key: key.to_owned(), value: copy, ttl_secs: t / 1000 }
    }

    /// Stores `value` under `key` in the fast tier only.
    pub fn set_memory_cache(&mut self, key: &str, value: JsonValue, ttl: u64, now: u64)
        requires
            old(self).wf(),
        ensures
            final(self).wf(),
            final(self).ttls() == old(self).ttls(),
            final(self).tier() == tier_with(old(self).tier(), key@, value@, ttl, now),
            !old(self).tier().contains_key(key@) ==> final(self).keys() == old(self).keys().push(
                key@,
            ) && final(self).entries().len() == old(self).entries().len() + 1,
            old(self).tier().contains_key(key@) ==> final(self).keys() == old(self).keys()
                && final(self).entries().len() == old(self).entries().len(),
    {
        let entry = CacheEntry { data: value, created_at: now, ttl };
        self.memory_cache.insert(key.to_owned(), entry);
        assert(self.tier() =~= tier_with(old(self).tier(), key@, value@, ttl, now));
    }

    /// Drops the entry under `key` from the fast tier; the caller removes
    /// the durable copy.
    pub fn delete(&mut self, key: &str)
        requires
            old(self).wf(),
        ensures
            final(self).wf(),
            final(self).ttls() == old(self).ttls(),
            final(self).tier() == old(self).tier().remove(key@),
    {
        self.memory_cache.remove(key);
        assert(self.tier() =~= old(self).tier().remove(key@));
    }

    /// One pass over the fast tier that drops every entry whose time to
    /// live has lapsed at `now`. The durable tier expires on its own.
    pub fn clear_expired(&mut self, now: u64)
        requires
            old(self).wf(),
        ensures
            final(self).wf(),
            final(self).ttls() == old(self).ttls(),
            forall|k: Seq<char>| #[trigger]
                final(self).tier().contains_key(k) <==> old(self).tier().contains_key(k) && !old(self).tier()[k].expired_at(now),
            forall|k: Seq<char>| #[trigger]
                final(self).tier().contains_key(k) ==> final(self).tier()[k] == old(self).tier()[k],
    {
        let ghost before = self.memory_cache@;
        let mut rest: StringMap<CacheEntry> = StringMap::new();
        std::mem::swap(&mut rest, &mut self.memory_cache);
        loop
            invariant
                rest.wf(),
                self.memory_cache.wf(),
                self.policy == old(self).policy,
                forall|k: Seq<char>| #[trigger]
                    rest@.contains_key(k) ==> before.contains_key(k) && rest@[k] == before[k],
                forall|k: Seq<char>| #[trigger]
                    self.memory_cache@.contains_key(k) <==> before.contains_key(k)
                        && !rest@.contains_key(k) && !before[k]@.expired_at(now),
                forall|k: Seq<char>| #[trigger]
                    self.memory_cache@.contains_key(k) ==> self.memory_cache@[k] == before[k],
            ensures
                forall|k: Seq<char>| !rest@.contains_key(k),
            decreases rest.spec_len(),
        {
            match rest.pop() {
                Some((k, e)) => {
                    if !e.is_expired(now) {
                        self.memory_cache.insert(k, e);
                    }
                },
                None => {
                    break ;
                },
            }
        }
    }

    /// The key of a cached API response.
    pub fn api_key(endpoint: &str, params: &str) -> (key: String)
        ensures
            key@ == api_cache_key(endpoint@, params@),
    {
        let mut key = String::from_str("api:");
        key.append(endpoint);
        key.append(":");
        key.append(params);
        key
    }

    /// The key of a cached streaming session.
    pub fn session_key(session_id: &str) -> (key: String)
        ensures
            key@ == session_cache_key(session_id@),
    {
        let mut key = String::from_str("nvidia:session:");
        key.append(session_id);
        key
    }

    /// The key of a user's cached permissions.
    pub fn permission_key(user_id: &str) -> (key: String)
        ensures
            key@ == permission_cache_key(user_id@),
    {
        let mut key = String::from_str("user:permissions:");
        key.append(user_id);
        key
    }

    pub fn cache_api_response(
        &mut self,
        endpoint: &str,
        params: &str,
        response: JsonValue,
        now: u64,
    ) -> (w: DurableWrite)
        requires
            old(self).wf(),
        ensures
            final(self).wf(),
            final(self).ttls() == old(self).ttls(),
            final(self).tier() == tier_with(
                old(self).tier(),
                api_cache_key(endpoint@, params@),
                response@,
                old(self).ttls().api_response_ttl,
                now,
            ),
            w.key@ == api_cache_key(endpoint@, params@),
            w.value@ == response@,
            w.ttl_secs == old(self).ttls().api_response_ttl / 1000,
    {
        let key = Self::api_key(endpoint, params);
        let ttl = self.policy.api_response_ttl;
        self.set(key.as_str(), response, Some(ttl), now)
    }

    pub fn get_cached_api_response(&self, endpoint: &str, params: &str, now: u64) -> (step:
        ReadStep)
        requires
            self.wf(),
        ensures
            step_view(step) == live_value(self.tier(), api_cache_key(endpoint@, params@), now),
    {
        let key = Self::api_key(endpoint, params);
        self.get(key.as_str(), now)
    }

    pub fn cache_nvidia_session(&mut self, session_id: &str, session_data: JsonValue, now: u64) -> (w:
        DurableWrite)
        requires
            old(self).wf(),
        ensures
            final(self).wf(),
            final(self).ttls() == old(self).ttls(),
            final(self).tier() == tier_with(
                old(self).tier(),
                session_cache_key(session_id@),
                session_data@,
                old(self).ttls().session_ttl,
                now,
            ),
            w.key@ == session_cache_key(session_id@),
            w.value@ == session_data@,
            w.ttl_secs == old(self).ttls().session_ttl / 1000,
    {
        let key = Self::session_key(session_id);
        let ttl = self.policy.session_ttl;
        self.set(key.as_str(), session_data, Some(ttl), now)
    }

    pub fn get_nvidia_session(&self, session_id: &str, now: u64) -> (step: ReadStep)
        requires
            self.wf(),
        ensures
            step_view(step) == live_value(self.tier(), session_cache_key(session_id@), now),
    {
        let key = Self::session_key(session_id);
        self.get(key.as_str(), now)
    }

    pub fn cache_user_permissions(&mut self, user_id: &str, permissions: JsonValue, now: u64) -> (w:
        DurableWrite)
        requires
            old(self).wf(),
        ensures
            final(self).wf(),
            final(self).ttls() == old(self).ttls(),
            final(self).tier() == tier_with(
                old(self).tier(),
                permission_cache_key(user_id@),
                permissions@,
                old(self).ttls().permission_ttl,
                now,
            ),
            w.key@ == permission_cache_key(user_id@),
            w.value@ == permissions@,
            w.ttl_secs == old(self).ttls().permission_ttl / 1000,
    {
        let key = Self::permission_key(user_id);
        let ttl = self.policy.permission_ttl;
        self.set(key.as_str(), permissions, Some(ttl), now)
    }

    pub fn get_user_permissions(&self, user_id: &str, now: u64) -> (step: ReadStep)
        requires
            self.wf(),
        ensures
            step_view(step) == live_value(self.tier(), permission_cache_key(user_id@), now),
    {
        let key = Self::permission_key(user_id);
        self.get(key.as_str(), now)
    }

    /// Counts over the fast tier as seen at `now`.
    pub fn get_cache_stats(&self, now: u64) -> (stats: CacheStats)
        requires
            self.wf(),
        ensures
            stats.total_entries == self.tier().dom().len(),
            stats.total_entries == self.entries().len(),
            stats.expired_entries == count_expired(self.entries(), now),
    {
        let n = self.memory_cache.len();
        proof {
            assert(self.tier().dom() =~= self.memory_cache@.dom());
        }
        let mut expired: usize = 0;
        let mut i: usize = 0;
        while i < n
            invariant
                self.wf(),
                n == self.entries().len(),
                i <= n,
                expired == count_expired(self.entries().take(i as int), now),
                expired <= i,
            decreases n - i,
        {
            proof {
                assert(self.entries().take(i + 1).drop_last() =~= self.entries().take(i as int));
            }
            if self.memory_cache.value_at(i).is_expired(now) {
                expired += 1;
            }
            i += 1;
        }
        proof {
            assert(self.entries().take(n as int) =~= self.entries());
        }
        CacheStats { total_entries: n, expired_entries: expired }
    }
}

/// A value stored at `stored` with time to live `ttl` is read back from the
/// fast tier at every instant up to `stored + ttl`, whatever the tier held
/// before, and is absent at every instant after it.
pub proof fn law_set_then_get(
    tier: Map<Seq<char>, CacheEntryView>,
    key: Seq<char>,
    value: JsonView,
    ttl: u64,
    stored: u64,
    now: u64,
)
    ensures
        elapsed(now, stored) <= ttl ==> live_value(tier_with(tier, key, value, ttl, stored), key, now)
            == Some(value),
        elapsed(now, stored) > ttl ==> live_value(tier_with(tier, key, value, ttl, stored), key, now)
            is None,
{
}

/// With nothing under the key in the durable tier, the whole read path
/// returns the last value stored until its time to live has lapsed and
/// nothing afterwards, and leaves the fast tier as it was.
pub proof fn law_read_after_set(
    tier: Map<Seq<char>, CacheEntryView>,
    default_ttl: u64,
    key: Seq<char>,
    value: JsonView,
    ttl: u64,
    stored: u64,
    now: u64,
)
    ensures
        ({
            let after = tier_with(tier, key, value, ttl, stored);
            let read = read_path(after, default_ttl, key, None, now);
            &&& read.0 == after
            &&& elapsed(now, stored) <= ttl ==> read.1 == Some(value)
            &&& elapsed(now, stored) > ttl ==> read.1 is None
        }),
{
}

/// The two steps of a read make up the read path: a live entry of the fast
/// tier is the result and nothing changes; otherwise the result and the
/// fast tier afterwards are what [`CacheManager::finish_get`] makes of the
/// durable tier's reply.
pub proof fn law_read_steps(
    tier: Map<Seq<char>, CacheEntryView>,
    default_ttl: u64,
    key: Seq<char>,
    durable: Option<JsonView>,
    now: u64,
)
    ensures
        live_value(tier, key, now) is Some ==> read_path(tier, default_ttl, key, durable, now) == (
            tier,
            live_value(tier, key, now),
        ),
        live_value(tier, key, now) is None ==> read_path(tier, default_ttl, key, durable, now) == (
            match durable {
                Some(v) => tier_with(tier, key, v, default_ttl, now),
                None => tier,
            },
            durable,
        ),
{
}

} // verus!
