//! Per-invocation host state: tenant identity, outbound allowlist and the
//! memory/table limiter that caps a guest and records its peak memory.
use vstd::prelude::*;
use crate::kv::{KvStore, lookup, bytes_of};

verus! {

/// Largest number of table elements a guest may grow a table to.
pub const TABLE_ELEMENT_CAP: usize = 10_000;

/// Abstract memory-accounting state of a [`TenantLimiter`]: the cap, the
/// high-water mark of granted sizes, and whether a request above the cap was
/// ever refused.
pub struct MemoryState {
    pub cap: nat,
    pub peak: nat,
    pub cap_hit: bool,
}

/// One request to grow linear memory: `(current, desired)` sizes in bytes.
pub type MemoryRequest = (nat, nat);

impl MemoryState {
    /// A limiter that has seen no request yet.
    pub open spec fn fresh(cap: nat) -> MemoryState {
        MemoryState { cap, peak: 0, cap_hit: false }
    }

    /// Whether a request to grow linear memory from `current` to `desired`
    /// bytes is granted: it must stay within the cap and must not shrink.
    pub open spec fn accepts(self, current: nat, desired: nat) -> bool {
        desired <= self.cap && desired >= current
    }

    /// The state after one request to grow linear memory from `current` to
    /// `desired` bytes: a grant raises the peak, a request above the cap sets
    /// `cap_hit`, and a refused shrink changes nothing.
    pub open spec fn after_request(self, current: nat, desired: nat) -> MemoryState {
        if self.accepts(current, desired) {
            MemoryState {
                peak: if desired > self.peak { desired } else { self.peak },
                ..self
            }
        } else if desired > self.cap {
            MemoryState { cap_hit: true, ..self }
        } else {
            self
        }
    }

    /// The state after a sequence of memory-growth requests, oldest first.
    pub open spec fn after_requests(self, requests: Seq<MemoryRequest>) -> MemoryState
        decreases requests.len(),
    {
        if requests.len() == 0 {
            self
        } else {
            self.after_requests(requests.drop_last()).after_request(requests.last().0, requests.last().1)
        }
    }
}

/// The largest `desired` size among the requests that a limiter with cap
/// `cap` grants (within the cap, not shrinking), or 0 if it grants none.
pub open spec fn max_accepted(cap: nat, requests: Seq<MemoryRequest>) -> nat
    decreases requests.len(),
{
    if requests.len() == 0 {
        0
    } else {
        let rest: nat = max_accepted(cap, requests.drop_last());
        let (current, desired) = requests.last();
        if desired <= cap && desired >= current && desired > rest {
            desired
        } else {
            rest
        }
    }
}

/// The largest accepted request never exceeds the cap.
pub proof fn lemma_max_accepted_within_cap(cap: nat, requests: Seq<MemoryRequest>)
    ensures
        max_accepted(cap, requests) <= cap,
    decreases requests.len(),
{
    if requests.len() > 0 {
        lemma_max_accepted_within_cap(cap, requests.drop_last());
    }
}

/// Over any sequence of memory-growth requests the cap never changes, the
/// recorded peak is the high-water mark of the starting peak and every
/// granted request (so it never decreases), `cap_hit` is set exactly when it
/// was already set or some request asked for more than the cap (so once set
/// it stays set), and a peak that starts within the cap stays within it.
pub proof fn law_memory_requests(start: MemoryState, requests: Seq<MemoryRequest>)
    ensures
        start.after_requests(requests).cap == start.cap,
        start.after_requests(requests).peak == (if max_accepted(start.cap, requests) > start.peak {
            max_accepted(start.cap, requests)
        } else {
            start.peak
        }),
        start.after_requests(requests).peak >= start.peak,
        start.after_requests(requests).cap_hit == (start.cap_hit || exists|i: int|
            0 <= i < requests.len() && (#[trigger] requests[i]).1 > start.cap),
        start.peak <= start.cap ==> start.after_requests(requests).peak <= start.cap,
    decreases requests.len(),
{
    lemma_max_accepted_within_cap(start.cap, requests);
    if requests.len() > 0 {
        let prefix = requests.drop_last();
        law_memory_requests(start, prefix);
        lemma_max_accepted_within_cap(start.cap, prefix);
        let last: MemoryRequest = requests.last();
        if last.1 > start.cap {
            assert(requests[requests.len() - 1].1 > start.cap);
        } else {
            assert forall|i: int| 0 <= i < requests.len() && (#[trigger] requests[i]).1 > start.cap
                implies 0 <= i < prefix.len() && prefix[i].1 > start.cap by {
                assert(i != requests.len() - 1);
                assert(prefix[i] == requests[i]);
            }
        }
        assert forall|i: int| 0 <= i < prefix.len() && (#[trigger] prefix[i]).1 > start.cap
            implies 0 <= i < requests.len() && requests[i].1 > start.cap by {
            assert(prefix[i] == requests[i]);
        }
    }
}

/// A limiter that starts fresh records as its peak exactly the largest size
/// it granted (0 when none was granted), never more than its cap, and reports
/// `cap_hit` exactly when some request asked for more than the cap.
pub proof fn law_fresh_limiter_peak_is_high_water_mark(cap: nat, requests: Seq<MemoryRequest>)
    ensures
        MemoryState::fresh(cap).after_requests(requests).peak == max_accepted(cap, requests),
        MemoryState::fresh(cap).after_requests(requests).peak <= cap,
        MemoryState::fresh(cap).after_requests(requests).cap_hit == (exists|i: int|
            0 <= i < requests.len() && (#[trigger] requests[i]).1 > cap),
{
    law_memory_requests(MemoryState::fresh(cap), requests);
}

/// The requests `(current, desired)` of a recorded sequence, by value.
pub open spec fn requests_view(requests: Seq<(usize, usize)>) -> Seq<MemoryRequest> {
    requests.map_values(|r: (usize, usize)| (r.0 as nat, r.1 as nat))
}

/// Memory + table-growth limiter for one tenant's store. Each tenant gets
/// its own ceiling: a `memory.grow` that would push linear memory above the
/// cap is refused, and the limiter doubles as the peak-memory recorder for
/// metering.
#[derive(Debug)]
pub struct TenantLimiter {
    pub mem_cap_bytes: usize,
    /// High-water mark of every `desired` size this limiter has accepted.
    pub peak_bytes: usize,
    /// Set once `memory_growing` refuses a request, so that an invocation can
    /// tell "guest hit the memory cap" apart from any other trap.
    pub cap_hit: bool,
    /// Largest table size, in elements, that a guest may grow a table to.
    pub table_cap: usize,
}

impl TenantLimiter {
    /// The limiter's memory accounting, as an abstract state.
    pub open spec fn memory_state(&self) -> MemoryState {
        MemoryState {
            cap: self.mem_cap_bytes as nat,
            peak: self.peak_bytes as nat,
            cap_hit: self.cap_hit,
        }
    }

    /// Well-formedness: the recorded peak never exceeds the cap.
    pub open spec fn wf(&self) -> bool {
        self.peak_bytes <= self.mem_cap_bytes
    }

    /// A limiter with memory cap `mem_cap_bytes` that has accepted nothing yet.
    pub fn new(mem_cap_bytes: usize) -> (limiter: TenantLimiter)
        ensures
            limiter.mem_cap_bytes == mem_cap_bytes,
            limiter.peak_bytes == 0,
            !limiter.cap_hit,
            limiter.table_cap == TABLE_ELEMENT_CAP,
            limiter.memory_state() == MemoryState::fresh(mem_cap_bytes as nat),
            limiter.wf(),
    {
        TenantLimiter { mem_cap_bytes, peak_bytes: 0, cap_hit: false, table_cap: TABLE_ELEMENT_CAP }
    }

    /// Decide a request to grow linear memory from `current` to `desired`
    /// bytes. Granted exactly when `desired` is within the cap and not below
    /// `current`; a grant raises the recorded peak to `desired` if it is
    /// higher, and a request above the cap sets `cap_hit`.
    pub fn memory_growing(&mut self, current: usize, desired: usize, maximum: Option<usize>) -> (accepted: bool)
        ensures
            accepted == (desired <= old(self).mem_cap_bytes && desired >= current),
            final(self).memory_state() == old(self).memory_state().after_request(current as nat, desired as nat),
            final(self).table_cap == old(self).table_cap,
            old(self).wf() ==> final(self).wf(),
    {
        if desired > self.mem_cap_bytes {
            self.cap_hit = true;
            false
        } else if desired < current {
            false
        } else {
            if desired > self.peak_bytes {
                self.peak_bytes = desired;
            }
            true
        }
    }

    /// A fresh limiter with cap `mem_cap_bytes` after deciding `requests`
    /// (`(current, desired)` pairs) one by one, oldest first, together with
    /// each decision.
    pub fn replay_memory_requests(mem_cap_bytes: usize, requests: &Vec<(usize, usize)>) -> (result: (TenantLimiter, Vec<bool>))
        ensures
            result.0.memory_state() == MemoryState::fresh(mem_cap_bytes as nat).after_requests(requests_view(requests@)),
            result.0.peak_bytes == max_accepted(mem_cap_bytes as nat, requests_view(requests@)),
            result.0.peak_bytes <= mem_cap_bytes,
            result.0.cap_hit == (exists|i: int| 0 <= i < requests@.len() && (#[trigger] requests@[i]).1 > mem_cap_bytes),
            result.0.mem_cap_bytes == mem_cap_bytes,
            result.0.table_cap == TABLE_ELEMENT_CAP,
            result.1@.len() == requests@.len(),
            forall|i: int| 0 <= i < requests@.len() ==> #[trigger] result.1@[i] == (requests@[i].1 <= mem_cap_bytes
                && requests@[i].1 >= requests@[i].0),
    {
        let mut limiter = TenantLimiter::new(mem_cap_bytes);
        let mut decisions: Vec<bool> = Vec::new();
        let n: usize = requests.len();
        let mut k: usize = 0;
        while k < n
            invariant
                n == requests@.len(),
                k <= n,
                limiter.mem_cap_bytes == mem_cap_bytes,
                limiter.table_cap == TABLE_ELEMENT_CAP,
                limiter.memory_state() == MemoryState::fresh(mem_cap_bytes as nat).after_requests(
                    requests_view(requests@.take(k as int)),
                ),
                decisions@.len() == k,
                forall|i: int| 0 <= i < k ==> #[trigger] decisions@[i] == (requests@[i].1 <= mem_cap_bytes
                    && requests@[i].1 >= requests@[i].0),
            decreases n - k,
        {
            let (current, desired) = requests[k];
            let accepted: bool = limiter.memory_growing(current, desired, None);
            decisions.push(accepted);
            assert(requests_view(requests@.take(k + 1)).drop_last() =~= requests_view(requests@.take(k as int)));
            assert(requests_view(requests@.take(k + 1)).last() == (current as nat, desired as nat));
            k = k + 1;
        }
        assert(requests@.take(n as int) =~= requests@);
        proof {
            let rv = requests_view(requests@);
            law_fresh_limiter_peak_is_high_water_mark(mem_cap_bytes as nat, rv);
            if exists|i: int| 0 <= i < rv.len() && (#[trigger] rv[i]).1 > mem_cap_bytes {
                let i = choose|i: int| 0 <= i < rv.len() && (#[trigger] rv[i]).1 > mem_cap_bytes;
                assert(requests@[i].1 > mem_cap_bytes);
            }
            if exists|i: int| 0 <= i < requests@.len() && (#[trigger] requests@[i]).1 > mem_cap_bytes {
                let i = choose|i: int| 0 <= i < requests@.len() && (#[trigger] requests@[i]).1 > mem_cap_bytes;
                assert(rv[i].1 > mem_cap_bytes);
            }
        }
        (limiter, decisions)
    }

    /// Decide a request to grow a table from `current` to `desired` elements:
    /// granted exactly when `desired` is within the table cap.
    pub fn table_growing(&self, current: usize, desired: usize, maximum: Option<usize>) -> (accepted: bool)
        ensures
            accepted == (desired <= self.table_cap),
    {
        desired <= self.table_cap
    }
}

/// The key under which the store keeps `key` for `tenant`: `t/{tenant}/{key}`.
pub open spec fn scoped_key_of(tenant: Seq<char>, key: Seq<char>) -> Seq<char> {
    seq!['t', '/'] + tenant + seq!['/'] + key
}

/// Whether `s` holds no `/`.
pub open spec fn has_no_slash(s: Seq<char>) -> bool {
    forall|i: int| 0 <= i < s.len() ==> #[trigger] s[i] != '/'
}

/// Whether `host` is one of the allowed hosts.
pub open spec fn host_listed(allowed: Seq<String>, host: Seq<char>) -> bool {
    exists|i: int| 0 <= i < allowed.len() && #[trigger] allowed[i]@ == host
}

/// The host part of `url` as the URL parser reads it: `None` when `url` does
/// not parse, `Some(None)` when it parses but names no host.
pub uninterp spec fn url_host_of(url: Seq<char>) -> Option<Option<Seq<char>>>;

/// The message a guest gets when it fetches from a host that is not allowed.
pub open spec fn denied_message(host: Seq<char>) -> Seq<char> {
    "host "@ + host + " not allowed"@
}

/// The outcome of checking an outbound request against the allowlist.
#[derive(Debug)]
pub enum OutboundCheck {
    /// The request may go to this host.
    Allowed(String),
    /// The request is refused; the guest sees this message.
    Denied(String),
    /// The URL does not parse; the invocation traps.
    InvalidUrl,
}

/// What the allowlist decides for a parsed URL host (`None` for a URL that
/// did not parse, `Some(None)` for one without a host, which counts as the
/// empty host name).
pub open spec fn outbound_check_spec(allowed: Seq<String>, parsed: Option<Option<Seq<char>>>) -> Option<Result<Seq<char>, Seq<char>>> {
    match parsed {
        None => None,
        Some(h) => {
            let host = match h {
                Some(name) => name,
                None => Seq::<char>::empty(),
            };
            if host_listed(allowed, host) {
                Some(Ok(host))
            } else {
                Some(Err(denied_message(host)))
            }
        },
    }
}

/// An outbound check, by view: `None` for an invalid URL, `Ok(host)` when
/// allowed, `Err(message)` when denied.
pub open spec fn outbound_check_view(check: OutboundCheck) -> Option<Result<Seq<char>, Seq<char>>> {
    match check {
        OutboundCheck::Allowed(h) => Some(Ok(h@)),
        OutboundCheck::Denied(m) => Some(Err(m@)),
        OutboundCheck::InvalidUrl => None,
    }
}

/// Parses `url` and returns its host name (`Some(None)` when it has none), or
/// `None` when the URL does not parse.
///
/// Trusted: calls `reqwest::Url::parse` (the `url` crate's WHATWG parser) and
/// reads `host_str` of the result. Its contract only names the result
/// (`url_host_of`); what host a given URL has is not stated here.
#[verifier::external_body]
fn parse_url_host(url: &str) -> (host: Option<Option<String>>)
    ensures
        match host {
            None => url_host_of(url@) is None,
            Some(None) => url_host_of(url@) == Some(None::<Seq<char>>),
            Some(Some(h)) => url_host_of(url@) == Some(Some(h@)),
        },
{
    match reqwest::Url::parse(url) {
        Ok(parsed) => Some(parsed.host_str().map(|h| h.to_string())),
        Err(_) => None,
    }
}

/// Per-invocation host context: who is calling, which outbound hosts the
/// tenant may reach (deny by default), and the tenant's limiter.
#[derive(Debug)]
pub struct HostCtx {
    pub tenant_id: String,
    pub fn_name: String,
    /// Outbound HTTP host allowlist; empty means every host is refused.
    pub allowed_hosts: Vec<String>,
    /// Memory cap + peak-usage tracker for this invocation.
    pub limiter: TenantLimiter,
}

impl HostCtx {
    /// A context for one invocation of `fn_name` on behalf of `tenant_id`,
    /// with a fresh limiter capped at `mem_cap_bytes`.
    pub fn new(tenant_id: String, fn_name: String, allowed_hosts: Vec<String>, mem_cap_bytes: usize) -> (ctx: HostCtx)
        ensures
            ctx.tenant_id@ == tenant_id@,
            ctx.fn_name@ == fn_name@,
            ctx.allowed_hosts@ == allowed_hosts@,
            ctx.limiter.mem_cap_bytes == mem_cap_bytes,
            ctx.limiter.memory_state() == MemoryState::fresh(mem_cap_bytes as nat),
            ctx.limiter.table_cap == TABLE_ELEMENT_CAP,
            ctx.limiter.wf(),
    {
        HostCtx { tenant_id, fn_name, allowed_hosts, limiter: TenantLimiter::new(mem_cap_bytes) }
    }

    /// The store key for this tenant's `key`: `t/{tenant_id}/{key}`.
    pub fn scoped_key(&self, key: &str) -> (scoped: String)
        ensures
            scoped@ == scoped_key_of(self.tenant_id@, key@),
    {
        let mut scoped = String::from_str("t/");
        scoped.append(self.tenant_id.as_str());
        scoped.append("/");
        scoped.append(key);
        proof {
            reveal_strlit("t/");
            reveal_strlit("/");
        }
        assert(scoped@ =~= scoped_key_of(self.tenant_id@, key@));
        scoped
    }

    /// The guest's `kv::get(key)`: reads this tenant's `key` from `store`.
    pub fn kv_get<S: KvStore>(&self, store: &S, key: &str) -> (value: Option<Vec<u8>>)
        ensures
            bytes_of(value) == lookup(store.contents(), scoped_key_of(self.tenant_id@, key@)),
    {
        let scoped = self.scoped_key(key);
        store.get(scoped.as_str())
    }

    /// The guest's `kv::put(key, value)`: writes this tenant's `key` in `store`.
    pub fn kv_put<S: KvStore>(&self, store: &mut S, key: &str, value: Vec<u8>)
        ensures
            final(store).contents() == old(store).contents().insert(scoped_key_of(self.tenant_id@, key@), value@),
    {
        let scoped = self.scoped_key(key);
        store.put(scoped.as_str(), value);
    }

    /// Whether `host` is on this tenant's outbound allowlist.
    pub fn host_allowed(&self, host: &String) -> (allowed: bool)
        ensures
            allowed == host_listed(self.allowed_hosts@, host@),
    {
        let n: usize = self.allowed_hosts.len();
        let mut i: usize = 0;
        while i < n
            invariant
                n == self.allowed_hosts@.len(),
                i <= n,
                forall|j: int| 0 <= j < i ==> self.allowed_hosts@[j]@ != host@,
            decreases n - i,
        {
            if self.allowed_hosts[i] == *host {
                assert(self.allowed_hosts@[i as int]@ == host@);
                return true;
            }
            i = i + 1;
        }
        false
    }

    /// Decide an outbound request from the parsed host of its URL (as
    /// `parse_url_host` returns it): allowed when the host is listed, denied
    /// with `host {h} not allowed` otherwise; a URL without a host counts as
    /// the empty host name, and one that did not parse is invalid.
    pub fn outbound_decision(&self, parsed: Option<Option<String>>) -> (check: OutboundCheck)
        ensures
            outbound_check_view(check) == outbound_check_spec(
                self.allowed_hosts@,
                match parsed {
                    None => None,
                    Some(None) => Some(None),
                    Some(Some(h)) => Some(Some(h@)),
                },
            ),
    {
        match parsed {
            None => OutboundCheck::InvalidUrl,
            Some(h) => {
                let host = match h {
                    Some(name) => name,
                    None => String::new(),
                };
                if self.host_allowed(&host) {
                    OutboundCheck::Allowed(host)
                } else {
                    let mut message = String::from_str("host ");
                    message.append(host.as_str());
                    message.append(" not allowed");
                    OutboundCheck::Denied(message)
                }
            },
        }
    }

    /// Check the URL of an outbound request against this tenant's allowlist.
    pub fn check_outbound_url(&self, url: &str) -> (check: OutboundCheck)
        ensures
            outbound_check_view(check) == outbound_check_spec(self.allowed_hosts@, url_host_of(url@)),
    {
        let parsed = parse_url_host(url);
        self.outbound_decision(parsed)
    }
}

/// Keys of two different tenants never collide, as long as tenant ids hold no
/// `/`: the store key `t/{tenant}/{key}` determines the tenant.
pub proof fn law_scoped_keys_separate_tenants(t1: Seq<char>, k1: Seq<char>, t2: Seq<char>, k2: Seq<char>)
    requires
        has_no_slash(t1),
        has_no_slash(t2),
        t1 != t2,
    ensures
        scoped_key_of(t1, k1) != scoped_key_of(t2, k2),
{
    let a = scoped_key_of(t1, k1);
    let b = scoped_key_of(t2, k2);
    if a == b {
        assert forall|i: int| 0 <= i < t1.len() implies a[2 + i] == t1[i] by {}
        assert forall|i: int| 0 <= i < t2.len() implies b[2 + i] == t2[i] by {}
        assert(a[2 + t1.len() as int] == '/');
        assert(b[2 + t2.len() as int] == '/');
        if t1.len() < t2.len() {
            assert(b[2 + t1.len() as int] == t2[t1.len() as int]);
            assert(false);
        } else if t2.len() < t1.len() {
            assert(a[2 + t2.len() as int] == t1[t2.len() as int]);
            assert(false);
        } else {
            assert(t1 =~= t2);
        }
    }
}

/// Tenant isolation: a value that one tenant puts is never read by another
/// tenant (whatever keys either uses), and a tenant reads back what it put.
pub proof fn law_tenant_isolation(
    contents: Map<Seq<char>, Seq<u8>>,
    writer: Seq<char>,
    key: Seq<char>,
    value: Seq<u8>,
    reader: Seq<char>,
    read_key: Seq<char>,
)
    requires
        has_no_slash(writer),
        has_no_slash(reader),
    ensures
        reader != writer ==> lookup(contents.insert(scoped_key_of(writer, key), value), scoped_key_of(reader, read_key))
            == lookup(contents, scoped_key_of(reader, read_key)),
        lookup(contents.insert(scoped_key_of(writer, key), value), scoped_key_of(writer, key)) == Some(value),
{
    if reader != writer {
        law_scoped_keys_separate_tenants(writer, key, reader, read_key);
    }
}

/// Outbound access is deny-by-default and exact: a URL that parses is allowed
/// exactly when its host is listed, so an empty allowlist refuses every host.
pub proof fn law_outbound_allowlist(allowed: Seq<String>, parsed: Option<Seq<char>>)
    ensures
        outbound_check_spec(allowed, Some(parsed)) is Some,
        (outbound_check_spec(allowed, Some(parsed)).unwrap() is Ok) == host_listed(
            allowed,
            match parsed {
                Some(name) => name,
                None => Seq::<char>::empty(),
            },
        ),
        allowed.len() == 0 ==> outbound_check_spec(allowed, Some(parsed)).unwrap() is Err,
{
}

/// The store key of a tenant's key is `t/`, then the tenant id, then `/`,
/// then the key itself, character for character; so within one tenant two
/// different keys never share a store key, and a put of one key never changes
/// what another key of the same tenant reads.
pub proof fn law_scoped_key_layout(
    tenant: Seq<char>,
    key: Seq<char>,
    other: Seq<char>,
    contents: Map<Seq<char>, Seq<u8>>,
    value: Seq<u8>,
)
    ensures
        scoped_key_of(tenant, key).len() == tenant.len() as int + key.len() as int + 3,
        scoped_key_of(tenant, key)[0] == 't',
        scoped_key_of(tenant, key)[1] == '/',
        scoped_key_of(tenant, key).subrange(2, tenant.len() as int + 2) == tenant,
        scoped_key_of(tenant, key)[tenant.len() as int + 2] == '/',
        scoped_key_of(tenant, key).subrange(tenant.len() as int + 3, tenant.len() as int + key.len() as int + 3) == key,
        scoped_key_of(tenant, key) == scoped_key_of(tenant, other) ==> key == other,
        key != other ==> lookup(contents.insert(scoped_key_of(tenant, key), value), scoped_key_of(tenant, other))
            == lookup(contents, scoped_key_of(tenant, other)),
{
    let s = scoped_key_of(tenant, key);
    let o = scoped_key_of(tenant, other);
    assert(s.subrange(2, tenant.len() as int + 2) =~= tenant);
    assert(s.subrange(tenant.len() as int + 3, tenant.len() as int + key.len() as int + 3) =~= key);
    assert(o.subrange(tenant.len() as int + 3, tenant.len() as int + other.len() as int + 3) =~= other);
    if s == o {
        assert(key =~= other);
    }
}

/// Every host on the allowlist is allowed (the check of a URL with that host
/// yields the host), a host is listed exactly when some entry equals it, and a
/// host equal to no entry is denied with `host {h} not allowed`.
pub proof fn law_allowlist_membership(allowed: Seq<String>, host: Seq<char>)
    ensures
        forall|i: int| 0 <= i < allowed.len() ==> #[trigger] outbound_check_spec(allowed, Some(Some(allowed[i]@)))
            == Some(Ok::<Seq<char>, Seq<char>>(allowed[i]@)),
        host_listed(allowed, host) <==> exists|i: int| 0 <= i < allowed.len() && #[trigger] allowed[i]@ == host,
        (forall|i: int| 0 <= i < allowed.len() ==> #[trigger] allowed[i]@ != host) ==> outbound_check_spec(
            allowed,
            Some(Some(host)),
        ) == Some(Err::<Seq<char>, Seq<char>>("host "@ + host + " not allowed"@)),
{
    assert forall|i: int| 0 <= i < allowed.len() implies #[trigger] outbound_check_spec(allowed, Some(Some(allowed[i]@)))
        == Some(Ok::<Seq<char>, Seq<char>>(allowed[i]@)) by {
        assert(allowed[i]@ == allowed[i]@);
        assert(host_listed(allowed, allowed[i]@));
    }
}

} // verus!
