//! Fixed-window request counters, one per identifier.
//!
//! Instants and durations are milliseconds on the caller's monotonic clock.
//! Every operation that depends on the time takes the current instant as
//! `now`, so a run of the limiter is a function of the calls made to it.

use crate::clock::elapsed;
use crate::strmap::StringMap;
use vstd::prelude::*;
use vstd::string::StringExecFns;

verus! {

/// Why a request was turned away.
#[derive(Debug, PartialEq, Eq)]
pub enum RateLimitError {
    /// The identifier's counter has reached its maximum in the current window.
    Exceeded,
    /// As `Exceeded`, for the counter kept per user on the endpoint named.
    EndpointExceeded(String),
    /// As `Exceeded`, for a counter kept per source address.
    IpExceeded,
}

/// The mathematical content of a [`RateLimitError`].
pub enum RateLimitFault {
    Exceeded,
    EndpointExceeded(Seq<char>),
    IpExceeded,
}

impl View for RateLimitError {
    type V = RateLimitFault;

    open spec fn view(&self) -> RateLimitFault {
        match self {
            RateLimitError::Exceeded => RateLimitFault::Exceeded,
            RateLimitError::EndpointExceeded(endpoint) => RateLimitFault::EndpointExceeded(
                endpoint@,
            ),
            RateLimitError::IpExceeded => RateLimitFault::IpExceeded,
        }
    }
}

impl RateLimitFault {
    /// The text shown to the client.
    pub open spec fn text(self) -> Seq<char> {
        match self {
            RateLimitFault::Exceeded => "Rate limit exceeded"@,
            RateLimitFault::EndpointExceeded(endpoint) => "Rate limit exceeded for endpoint: "@
                + endpoint,
            RateLimitFault::IpExceeded => "IP rate limit exceeded"@,
        }
    }
}

impl RateLimitError {
    pub fn message(&self) -> (s: String)
        ensures
            s@ == self@.text(),
    {
        match self {
            RateLimitError::Exceeded => String::from_str("Rate limit exceeded"),
            RateLimitError::EndpointExceeded(endpoint) => {
                let mut s = String::from_str("Rate limit exceeded for endpoint: ");
                s.append(endpoint.as_str());
                s
            },
            RateLimitError::IpExceeded => String::from_str("IP rate limit exceeded"),
        }
    }
}

#[derive(Clone, Copy, Debug, PartialEq, Eq, Structural)]
pub struct RateLimitEntry {
    pub count: u32,
    pub window_start: u64,
    pub window_duration: u64,
    pub max_requests: u32,
}

impl RateLimitEntry {
    /// A counter at zero whose window opens at `now`.
    pub open spec fn fresh(max_requests: u32, window_duration: u64, now: u64) -> Self {
        RateLimitEntry { count: 0, window_start: now, window_duration, max_requests }
    }

    pub open spec fn expired_at(self, now: u64) -> bool {
        elapsed(now, self.window_start) > self.window_duration
    }

    /// The counter as a call at `now` first sees it: reset if its window has
    /// lapsed, unchanged otherwise.
    pub open spec fn rolled(self, now: u64) -> Self {
        if self.expired_at(now) {
            RateLimitEntry { count: 0, window_start: now, ..self }
        } else {
            self
        }
    }

    pub open spec fn admits(self) -> bool {
        self.count < self.max_requests
    }

    /// The counter after one check at `now`, and whether that check passed.
    pub open spec fn consumed(self, now: u64) -> (Self, bool) {
        let e = self.rolled(now);
        if e.admits() {
            (RateLimitEntry { count: (e.count + 1) as u32, ..e }, true)
        } else {
            (e, false)
        }
    }

    /// The counter after checks at each of `times`, in order.
    pub open spec fn run(self, times: Seq<u64>) -> Self
        decreases times.len(),
    {
        if times.len() == 0 {
            self
        } else {
            self.run(times.drop_last()).consumed(times.last()).0
        }
    }

    /// Whether the check at `times[i]` passes when the checks before it have
    /// been made.
    pub open spec fn allowed(self, times: Seq<u64>, i: int) -> bool {
        self.run(times.take(i)).consumed(times[i]).1
    }

    /// The number of checks among `times` that passed since the window in
    /// force after the last of them was opened, counting what the counter
    /// already held when no reset happened.
    pub open spec fn window_successes(self, times: Seq<u64>) -> int
        decreases times.len(),
    {
        if times.len() == 0 {
            self.count as int
        } else {
            let before = self.run(times.drop_last());
            let passed: int = if before.consumed(times.last()).1 {
                1
            } else {
                0
            };
            if before.expired_at(times.last()) {
                passed
            } else {
                self.window_successes(times.drop_last()) + passed
            }
        }
    }

    pub fn new(max_requests: u32, window_duration: u64, now: u64) -> (e: Self)
        ensures
            e == Self::fresh(max_requests, window_duration, now),
    {
        RateLimitEntry { count: 0, window_start: now, window_duration, max_requests }
    }

    pub fn is_expired(&self, now: u64) -> (r: bool)
        ensures
            r == self.expired_at(now),
    {
        now >= self.window_start && now - self.window_start > self.window_duration
    }

    pub fn reset_if_expired(&mut self, now: u64)
        ensures
            *final(self) == old(self).rolled(now),
    {
        if self.is_expired(now) {
            self.count = 0;
            self.window_start = now;
        }
    }

    pub fn can_proceed(&self) -> (r: bool)
        ensures
            r == self.admits(),
    {
        self.count < self.max_requests
    }

    /// Records one admitted request. The counter only moves after
    /// [`Self::can_proceed`] has confirmed that there is room.
    pub fn increment(&mut self)
        requires
            old(self).admits(),
        ensures
            *final(self) == (RateLimitEntry { count: (old(self).count + 1) as u32, ..*old(self) }),
            final(self).count <= final(self).max_requests,
    {
        self.count += 1;
    }

    /// One check at `now`: rolls the window over if it has lapsed, then
    /// counts the request if there is room.
    pub fn check(&mut self, now: u64) -> (ok: bool)
        ensures
            (*final(self), ok) == old(self).consumed(now),
    {
        self.reset_if_expired(now);
        if self.can_proceed() {
            self.increment();
            true
        } else {
            false
        }
    }
}

/// The limits that apply when an identifier has no endpoint-specific policy.
pub const DEFAULT_MAX_REQUESTS: u32 = 100;

pub const DEFAULT_WINDOW_MS: u64 = 60_000;

/// The coarser policy kept per source address.
pub const IP_MAX_REQUESTS: u32 = 1000;

pub const IP_WINDOW_MS: u64 = 3_600_000;

/// The policy of an endpoint: `(max, window)`, the given defaults where the
/// route has no override.
pub open spec fn endpoint_limits(endpoint: Seq<char>, default_max: u32, default_window: u64) -> (
    u32,
    u64,
) {
    if endpoint == "/api/nvidia/stream"@ {
        (10u32, 60_000u64)
    } else if endpoint == "/api/nvidia/launch"@ {
        (5u32, 60_000u64)
    } else if endpoint == "/api/github/create"@ {
        (10u32, 3_600_000u64)
    } else if endpoint == "/api/vercel/deploy"@ {
        (20u32, 3_600_000u64)
    } else if endpoint == "/api/auth/login"@ {
        (5u32, 300_000u64)
    } else {
        (default_max, default_window)
    }
}

/// The key under which requests of `user` to `endpoint` are counted.
pub open spec fn api_identifier(endpoint: Seq<char>, user: Seq<char>) -> Seq<char> {
    "api:"@ + endpoint + ":"@ + user
}

/// The key under which requests from one source address are counted.
pub open spec fn ip_identifier(address: Seq<char>) -> Seq<char> {
    "ip:"@ + address
}

/// The counter that a check for `id` works on: the one on record, or a new
/// one under the given policy whose window opens at `now`.
pub open spec fn entry_for(
    table: Map<Seq<char>, RateLimitEntry>,
    id: Seq<char>,
    max: u32,
    window: u64,
    now: u64,
) -> RateLimitEntry {
    if table.contains_key(id) {
        table[id]
    } else {
        RateLimitEntry::fresh(max, window, now)
    }
}

/// Whether a check for `id` at `now` passes.
pub open spec fn admitted(
    table: Map<Seq<char>, RateLimitEntry>,
    id: Seq<char>,
    max: u32,
    window: u64,
    now: u64,
) -> bool {
    entry_for(table, id, max, window, now).consumed(now).1
}

/// The counters after a check for `id` at `now`.
pub open spec fn table_after(
    table: Map<Seq<char>, RateLimitEntry>,
    id: Seq<char>,
    max: u32,
    window: u64,
    now: u64,
) -> Map<Seq<char>, RateLimitEntry> {
    table.insert(id, entry_for(table, id, max, window, now).consumed(now).0)
}

/// The number of `entries` whose window is still open at `now`.
pub open spec fn count_active(entries: Seq<RateLimitEntry>, now: u64) -> nat
    decreases entries.len(),
{
    if entries.len() == 0 {
        0
    } else {
        count_active(entries.drop_last(), now) + if entries.last().expired_at(now) {
            0nat
        } else {
            1nat
        }
    }
}

/// The requests counted over all `entries`.
pub open spec fn sum_counts(entries: Seq<RateLimitEntry>) -> nat
    decreases entries.len(),
{
    if entries.len() == 0 {
        0
    } else {
        sum_counts(entries.drop_last()) + entries.last().count as nat
    }
}

/// What [`RateLimitManager::get_rate_limit_status`] reports of a counter.
#[derive(Clone, Copy, Debug, PartialEq, Eq, Structural)]
pub struct RateLimitStatus {
    pub count: u32,
    pub remaining: u32,
    /// Milliseconds until the window lapses; zero once it has.
    pub reset_in: u64,
}

/// Totals over all counters on record.
#[derive(Clone, Copy, Debug, PartialEq, Eq, Structural)]
pub struct RateLimitStats {
    pub total_entries: usize,
    pub active_entries: usize,
    /// The sum of all counts, held at `u64::MAX` should it not fit.
    pub total_requests: u64,
}

pub struct RateLimitManager {
    limits: StringMap<RateLimitEntry>,
    default_max_requests: u32,
    default_window: u64,
}

impl RateLimitManager {
    /// The table is well formed and no counter has passed its maximum.
    pub closed spec fn wf(&self) -> bool {
        &&& self.limits.wf()
        &&& forall|k: Seq<char>| #[trigger]
            self.limits@.contains_key(k) ==> self.limits@[k].count <= self.limits@[k].max_requests
    }

    /// In every state that the manager can reach, no counter has passed its
    /// maximum: whatever the order of the calls, an identifier has had at most
    /// its maximum of passes counted in the window in force.
    pub proof fn law_counter_never_passes_max(&self)
        requires
            self.wf(),
        ensures
            forall|k: Seq<char>| #[trigger]
                self.table().contains_key(k) ==> self.table()[k].count
                    <= self.table()[k].max_requests,
    {
    }

    /// The counters on record, by identifier.
    pub closed spec fn table(&self) -> Map<Seq<char>, RateLimitEntry> {
        self.limits@
    }

    /// The identifiers that have a counter, in the order of the table's
    /// listing.
    pub closed spec fn identifiers(&self) -> Seq<Seq<char>> {
        self.limits.key_seq()
    }

    /// The counters on record, each at the place of its identifier in
    /// [`Self::identifiers`].
    pub closed spec fn entries(&self) -> Seq<RateLimitEntry> {
        self.limits.val_seq()
    }

    /// The counters by identifier and the counters in order are the same
    /// counters: no identifier is listed twice, each listed counter is the
    /// one on record for its identifier, and every identifier on record is
    /// listed.
    pub proof fn lemma_entries_listed(&self)
        requires
            self.wf(),
        ensures
            self.table().dom().finite(),
            self.identifiers().len() == self.entries().len(),
            self.entries().len() == self.table().dom().len(),
            forall|i: int, j: int|
                0 <= i < j < self.identifiers().len() ==> self.identifiers()[i]
                    != self.identifiers()[j],
            forall|i: int|
                0 <= i < self.identifiers().len() ==> self.table().contains_key(
                    #[trigger] self.identifiers()[i],
                ) && self.table()[self.identifiers()[i]] == self.entries()[i],
            forall|k: Seq<char>| #[trigger]
                self.table().contains_key(k) ==> exists|i: int|
                    0 <= i < self.identifiers().len() && #[trigger] self.identifiers()[i] == k,
    {
        self.limits.lemma_listed();
        assert forall|k: Seq<char>| #[trigger] self.table().contains_key(k) implies exists|i: int|
            0 <= i < self.identifiers().len() && #[trigger] self.identifiers()[i] == k by {
            let i = self.limits.index_of(k);
            assert(self.limits@.contains_key(k));
            assert(self.limits.bound_at(k, i));
            assert(0 <= i < self.identifiers().len() && self.identifiers()[i] == k);
        }
    }

    pub closed spec fn default_max(&self) -> u32 {
        self.default_max_requests
    }

    pub closed spec fn default_window_ms(&self) -> u64 {
        self.default_window
    }

    /// Two managers under the same default policy.
    pub open spec fn same_policy(&self, other: &Self) -> bool {
        self.default_max() == other.default_max() && self.default_window_ms()
            == other.default_window_ms()
    }

    pub fn new() -> (m: Self)
        ensures
            m.wf(),
            m.table() == Map::<Seq<char>, RateLimitEntry>::empty(),
            m.default_max() == DEFAULT_MAX_REQUESTS,
            m.default_window_ms() == DEFAULT_WINDOW_MS,
    {
        RateLimitManager {
            limits: StringMap::new(),
            default_max_requests: DEFAULT_MAX_REQUESTS,
            default_window: DEFAULT_WINDOW_MS,
        }
    }

    /// A manager whose default policy is `max_requests` per `window` ms.
    pub fn with_policy(max_requests: u32, window: u64) -> (m: Self)
        ensures
            m.wf(),
            m.table() == Map::<Seq<char>, RateLimitEntry>::empty(),
            m.default_max() == max_requests,
            m.default_window_ms() == window,
    {
        RateLimitManager {
            limits: StringMap::new(),
            default_max_requests: max_requests,
            default_window: window,
        }
    }

    /// Checks the counter of `identifier` at `now` and counts the request if
    /// it passes. A counter that does not exist yet is made under the policy
    /// `(max_requests, window)`; one that exists keeps the policy it was made
    /// with.
    pub fn check_and_consume(
        &mut self,
        identifier: &str,
        max_requests: u32,
        window: u64,
        now: u64,
    ) -> (r: Result<(), RateLimitError>)
        requires
            old(self).wf(),
        ensures
            final(self).wf(),
            final(self).same_policy(old(self)),
            final(self).table() == table_after(
                old(self).table(),
                identifier@,
                max_requests,
                window,
                now,
            ),
            r is Ok <==> admitted(old(self).table(), identifier@, max_requests, window, now),
            r is Err ==> r == Err::<(), RateLimitError>(RateLimitError::Exceeded),
            !old(self).table().contains_key(identifier@) ==> final(self).identifiers() == old(self).identifiers().push(identifier@) && final(self).entries() == old(self).entries().push(
                final(self).table()[identifier@],
            ),
            old(self).table().contains_key(identifier@) ==> final(self).identifiers() == old(self).identifiers() && final(self).entries().len() == old(self).entries().len(),
    {
        let mut entry = match self.limits.get(identifier) {
            Some(e) => *e,
            None => RateLimitEntry::new(max_requests, window, now),
        };
        let ok = entry.check(now);
        self.limits.insert(identifier.to_owned(), entry);
        if ok {
            Ok(())
        } else {
            Err(RateLimitError::Exceeded)
        }
    }

    /// A check under the default policy.
    pub fn check_rate_limit(&mut self, identifier: &str, now: u64) -> (r: Result<
        (),
        RateLimitError,
    >)
        requires
            old(self).wf(),
        ensures
            final(self).wf(),
            final(self).same_policy(old(self)),
            final(self).table() == table_after(
                old(self).table(),
                identifier@,
                old(self).default_max(),
                old(self).default_window_ms(),
                now,
            ),
            r is Ok <==> admitted(
                old(self).table(),
                identifier@,
                old(self).default_max(),
                old(self).default_window_ms(),
                now,
            ),
            r is Err ==> r == Err::<(), RateLimitError>(RateLimitError::Exceeded),
    {
        let max = self.default_max_requests;
        let window = self.default_window;
        self.check_and_consume(identifier, max, window, now)
    }

    /// A check of the counter kept for `user_id` on `endpoint`, under the
    /// endpoint's own policy where it has one.
    pub fn check_api_rate_limit(&mut self, endpoint: &str, user_id: &str, now: u64) -> (r: Result<
        (),
        RateLimitError,
    >)
        requires
            old(self).wf(),
        ensures
            final(self).wf(),
            final(self).same_policy(old(self)),
            ({
                let id = api_identifier(endpoint@, user_id@);
                let policy = endpoint_limits(
                    endpoint@,
                    old(self).default_max(),
                    old(self).default_window_ms(),
                );
                &&& final(self).table() == table_after(
                    old(self).table(),
                    id,
                    policy.0,
                    policy.1,
                    now,
                )
                &&& r is Ok <==> admitted(old(self).table(), id, policy.0, policy.1, now)
            }),
            r matches Err(e) ==> e@ == RateLimitFault::EndpointExceeded(endpoint@),
    {
        let mut identifier = String::from_str("api:");
        identifier.append(endpoint);
        identifier.append(":");
        identifier.append(user_id);
        let (max, window) = self.get_endpoint_limits(endpoint);
        match self.check_and_consume(identifier.as_str(), max, window, now) {
            Ok(()) => Ok(()),
            Err(_) => Err(RateLimitError::EndpointExceeded(endpoint.to_owned())),
        }
    }

    /// A check of the counter kept for a source address. It is kept apart
    /// from the per-endpoint counters: a request has to pass both.
    pub fn check_ip_rate_limit(&mut self, ip_address: &str, now: u64) -> (r: Result<
        (),
        RateLimitError,
    >)
        requires
            old(self).wf(),
        ensures
            final(self).wf(),
            final(self).same_policy(old(self)),
            final(self).table() == table_after(
                old(self).table(),
                ip_identifier(ip_address@),
                IP_MAX_REQUESTS,
                IP_WINDOW_MS,
                now,
            ),
            r is Ok <==> admitted(
                old(self).table(),
                ip_identifier(ip_address@),
                IP_MAX_REQUESTS,
                IP_WINDOW_MS,
                now,
            ),
            r is Err ==> r == Err::<(), RateLimitError>(RateLimitError::IpExceeded),
    {
        let mut identifier = String::from_str("ip:");
        identifier.append(ip_address);
        match self.check_and_consume(identifier.as_str(), IP_MAX_REQUESTS, IP_WINDOW_MS, now) {
            Ok(()) => Ok(()),
            Err(_) => Err(RateLimitError::IpExceeded),
        }
    }

    pub fn get_endpoint_limits(&self, endpoint: &str) -> (policy: (u32, u64))
        ensures
            policy == endpoint_limits(endpoint@, self.default_max(), self.default_window_ms()),
    {
        if crate::text::str_eq(endpoint, "/api/nvidia/stream") {
            (10, 60_000)
        } else if crate::text::str_eq(endpoint, "/api/nvidia/launch") {
            (5, 60_000)
        } else if crate::text::str_eq(endpoint, "/api/github/create") {
            (10, 3_600_000)
        } else if crate::text::str_eq(endpoint, "/api/vercel/deploy") {
            (20, 3_600_000)
        } else if crate::text::str_eq(endpoint, "/api/auth/login") {
            (5, 300_000)
        } else {
            (self.default_max_requests, self.default_window)
        }
    }

    /// The state of the counter of `identifier` as seen at `now`, without
    /// touching it.
    pub fn get_rate_limit_status(&self, identifier: &str, now: u64) -> (r: Option<RateLimitStatus>)
        requires
            self.wf(),
        ensures
            r is Some <==> self.table().contains_key(identifier@),
            r matches Some(s) ==> {
                let e = self.table()[identifier@];
                &&& s.count == e.count
                &&& s.remaining == if e.max_requests >= e.count {
                    e.max_requests - e.count
                } else {
                    0
                }
                &&& s.reset_in == if e.window_duration >= elapsed(now, e.window_start) {
                    e.window_duration - elapsed(now, e.window_start)
                } else {
                    0
                }
            },
    {
        match self.limits.get(identifier) {
            Some(e) => {
                let remaining = e.max_requests.saturating_sub(e.count);
                let waited: u64 = if now >= e.window_start {
                    now - e.window_start
                } else {
                    0
                };
                let reset_in = e.window_duration.saturating_sub(waited);
                Some(RateLimitStatus { count: e.count, remaining, reset_in })
            },
            None => None,
        }
    }

    /// Forgets the counter of `identifier`.
    pub fn reset_rate_limit(&mut self, identifier: &str)
        requires
            old(self).wf(),
        ensures
            final(self).wf(),
            final(self).same_policy(old(self)),
            final(self).table() == old(self).table().remove(identifier@),
    {
        self.limits.remove(identifier);
    }

    /// Drops every counter whose window has lapsed at `now`; the others stay
    /// as they are.
    pub fn cleanup_expired(&mut self, now: u64)
        requires
            old(self).wf(),
        ensures
            final(self).wf(),
            final(self).same_policy(old(self)),
            forall|k: Seq<char>| #[trigger]
                final(self).table().contains_key(k) <==> old(self).table().contains_key(k)
                    && !old(self).table()[k].expired_at(now),
            forall|k: Seq<char>| #[trigger]
                final(self).table().contains_key(k) ==> final(self).table()[k] == old(self).table()[k],
    {
        let ghost before = self.limits@;
        let mut rest: StringMap<RateLimitEntry> = StringMap::new();
        std::mem::swap(&mut rest, &mut self.limits);
        loop
            invariant
                rest.wf(),
                self.limits.wf(),
                self.default_max_requests == old(self).default_max_requests,
                self.default_window == old(self).default_window,
                forall|k: Seq<char>| #[trigger]
                    rest@.contains_key(k) ==> before.contains_key(k) && rest@[k] == before[k],
                forall|k: Seq<char>| #[trigger]
                    self.limits@.contains_key(k) <==> before.contains_key(k) && !rest@.contains_key(
                        k,
                    ) && !before[k].expired_at(now),
                forall|k: Seq<char>| #[trigger]
                    self.limits@.contains_key(k) ==> self.limits@[k] == before[k],
            ensures
                rest.spec_len() == 0,
                forall|k: Seq<char>| !rest@.contains_key(k),
            decreases rest.spec_len(),
        {
            match rest.pop() {
                Some((k, e)) => {
                    if !e.is_expired(now) {
                        self.limits.insert(k, e);
                    }
                },
                None => {
                    break ;
                },
            }
        }
    }

    /// Totals over the counters on record, as seen at `now`.
    pub fn get_global_stats(&self, now: u64) -> (stats: RateLimitStats)
        requires
            self.wf(),
        ensures
            stats.total_entries == self.table().dom().len(),
            stats.total_entries == self.entries().len(),
            stats.active_entries == count_active(self.entries(), now),
            stats.total_requests == if sum_counts(self.entries()) <= u64::MAX {
                sum_counts(self.entries())
            } else {
                u64::MAX as nat
            },
    {
        let n = self.limits.len();
        let mut active: usize = 0;
        let mut total: u64 = 0;
        let mut i: usize = 0;
        while i < n
            invariant
                self.wf(),
                n == self.entries().len(),
                i <= n,
                active == count_active(self.entries().take(i as int), now),
                active <= i,
                total == if sum_counts(self.entries().take(i as int)) <= u64::MAX {
                    sum_counts(self.entries().take(i as int))
                } else {
                    u64::MAX as nat
                },
            decreases n - i,
        {
            let e = self.limits.value_at(i);
            proof {
                assert(self.entries().take(i + 1).drop_last() =~= self.entries().take(i as int));
            }
            if !e.is_expired(now) {
                active += 1;
            }
            total = total.saturating_add(e.count as u64);
            i += 1;
        }
        proof {
            assert(self.entries().take(n as int) =~= self.entries());
        }
        RateLimitStats { total_entries: n, active_entries: active, total_requests: total }
    }
}

/// Within one window, once a counter is within its maximum it stays there,
/// keeps its window, and has counted every check up to the maximum.
pub proof fn lemma_run_within_window(e: RateLimitEntry, times: Seq<u64>)
    requires
        e.count <= e.max_requests,
        forall|i: int| 0 <= i < times.len() ==> !e.expired_at(#[trigger] times[i]),
    ensures
        e.run(times).window_start == e.window_start,
        e.run(times).window_duration == e.window_duration,
        e.run(times).max_requests == e.max_requests,
        e.run(times).count == if e.count + times.len() <= e.max_requests {
            e.count + times.len()
        } else {
            e.max_requests as int
        },
    decreases times.len(),
{
    if times.len() > 0 {
        let head = times.drop_last();
        assert forall|i: int| 0 <= i < head.len() implies !e.expired_at(#[trigger] head[i]) by {
            assert(head[i] == times[i]);
        }
        lemma_run_within_window(e, head);
        assert(!e.expired_at(times[times.len() - 1]));
    }
}

/// A counter created with maximum `max` and window `window` by a first call
/// at `start` lets exactly the first `max` calls through while every call
/// falls within `window` of `start`, and turns away each one after them.
pub proof fn law_window_admits_exactly_max(max: u32, window: u64, start: u64, times: Seq<u64>)
    requires
        forall|i: int| 0 <= i < times.len() ==> elapsed(#[trigger] times[i], start) <= window,
    ensures
        forall|i: int|
            0 <= i < times.len() ==> (#[trigger] RateLimitEntry::fresh(max, window, start).allowed(
                times,
                i,
            ) <==> i < max),
{
    let e = RateLimitEntry::fresh(max, window, start);
    assert forall|i: int| 0 <= i < times.len() implies (#[trigger] e.allowed(times, i) <==> i
        < max) by {
        let head = times.take(i);
        assert forall|j: int| 0 <= j < head.len() implies !e.expired_at(#[trigger] head[j]) by {
            assert(head[j] == times[j]);
        }
        lemma_run_within_window(e, head);
        assert(!e.expired_at(times[i]));
    }
}

/// After any calls within the window of the first, a call made once the
/// window has lapsed passes and leaves the counter at one in a window that
/// opens with that call. A policy that admits nothing is left out: its
/// counter stays at zero.
pub proof fn law_lapsed_window_starts_over(
    max: u32,
    window: u64,
    start: u64,
    times: Seq<u64>,
    late: u64,
)
    requires
        max > 0,
        forall|i: int| 0 <= i < times.len() ==> elapsed(#[trigger] times[i], start) <= window,
        elapsed(late, start) > window,
    ensures
        RateLimitEntry::fresh(max, window, start).run(times).consumed(late) == (
            RateLimitEntry { count: 1, window_start: late, window_duration: window, max_requests: max },
            true,
        ),
{
    let e = RateLimitEntry::fresh(max, window, start);
    lemma_run_within_window(e, times);
}

/// The counters after checks for `id` at each of `times`, in order, all
/// under the policy `(max, window)`.
pub open spec fn table_after_calls(
    table: Map<Seq<char>, RateLimitEntry>,
    id: Seq<char>,
    max: u32,
    window: u64,
    times: Seq<u64>,
) -> Map<Seq<char>, RateLimitEntry>
    decreases times.len(),
{
    if times.len() == 0 {
        table
    } else {
        table_after(
            table_after_calls(table, id, max, window, times.drop_last()),
            id,
            max,
            window,
            times.last(),
        )
    }
}

/// Whether the check for `id` at `times[i]` passes when the checks before
/// it have been made.
pub open spec fn call_admitted(
    table: Map<Seq<char>, RateLimitEntry>,
    id: Seq<char>,
    max: u32,
    window: u64,
    times: Seq<u64>,
    i: int,
) -> bool {
    admitted(table_after_calls(table, id, max, window, times.take(i)), id, max, window, times[i])
}

/// For an identifier without a counter, the first check makes one whose
/// window opens with that check; from then on the identifier's counter is
/// that counter run through the checks.
pub proof fn lemma_calls_run_the_counter(
    table: Map<Seq<char>, RateLimitEntry>,
    id: Seq<char>,
    max: u32,
    window: u64,
    times: Seq<u64>,
)
    requires
        !table.contains_key(id),
        times.len() > 0,
    ensures
        table_after_calls(table, id, max, window, times).contains_key(id),
        table_after_calls(table, id, max, window, times)[id] == RateLimitEntry::fresh(
            max,
            window,
            times[0],
        ).run(times),
    decreases times.len(),
{
    let first = RateLimitEntry::fresh(max, window, times[0]);
    let head = times.drop_last();
    if times.len() == 1 {
        assert(head.len() == 0);
        assert(table_after_calls(table, id, max, window, head) == table);
        assert(first.run(head) == first);
    } else {
        assert(head[0] == times[0]);
        lemma_calls_run_the_counter(table, id, max, window, head);
    }
}

/// An identifier under the policy `(max, window)` that has no counter yet:
/// of its calls, all made within `window` of the first, exactly the first
/// `max` pass and every later one is turned away. A call made after
/// `window` has passed since the first call passes again and leaves the
/// counter at one, in a window that opens with that call. The second part
/// leaves out a policy that admits nothing, under which no call passes.
pub proof fn law_policy_admits_exactly_max(
    table: Map<Seq<char>, RateLimitEntry>,
    id: Seq<char>,
    max: u32,
    window: u64,
    times: Seq<u64>,
    late: u64,
)
    requires
        !table.contains_key(id),
        times.len() > 0,
        forall|i: int| 0 <= i < times.len() ==> elapsed(#[trigger] times[i], times[0]) <= window,
    ensures
        forall|i: int|
            0 <= i < times.len() ==> (#[trigger] call_admitted(table, id, max, window, times, i)
                <==> i < max),
        max > 0 && elapsed(late, times[0]) > window ==> {
            let before = table_after_calls(table, id, max, window, times);
            &&& admitted(before, id, max, window, late)
            &&& table_after(before, id, max, window, late)[id] == RateLimitEntry {
                count: 1,
                window_start: late,
                window_duration: window,
                max_requests: max,
            }
        },
{
    let first = RateLimitEntry::fresh(max, window, times[0]);
    law_window_admits_exactly_max(max, window, times[0], times);
    assert forall|i: int| 0 <= i < times.len() implies (#[trigger] call_admitted(
        table,
        id,
        max,
        window,
        times,
        i,
    ) <==> i < max) by {
        let head = times.take(i);
        assert(first.allowed(times, i) <==> i < max);
        if i == 0 {
            assert(head.len() == 0);
            assert(table_after_calls(table, id, max, window, head) == table);
            assert(first.run(head) == first);
        } else {
            assert(head[0] == times[0]);
            lemma_calls_run_the_counter(table, id, max, window, head);
        }
    }
    lemma_calls_run_the_counter(table, id, max, window, times);
    if max > 0 && elapsed(late, times[0]) > window {
        law_lapsed_window_starts_over(max, window, times[0], times, late);
    }
}

/// However the calls for one identifier are ordered, the number of them that
/// pass within the window in force never exceeds the maximum: it is what the
/// counter holds, and the counter never passes its maximum.
pub proof fn law_successes_never_exceed_max(e: RateLimitEntry, times: Seq<u64>)
    requires
        e.count <= e.max_requests,
    ensures
        e.run(times).max_requests == e.max_requests,
        e.run(times).count <= e.max_requests,
        e.window_successes(times) == e.run(times).count,
    decreases times.len(),
{
    if times.len() > 0 {
        law_successes_never_exceed_max(e, times.drop_last());
    }
}

} // verus!
