//! Invocation policy: engine settings, the CPU budget, the outbound HTTP
//! client settings and response-body cap, and how a failed invocation is
//! reported.
use vstd::prelude::*;
use crate::types::{MemoryRequest, MemoryState, TenantLimiter, max_accepted, law_fresh_limiter_peak_is_high_water_mark};

verus! {

/// Memory cap given to an invocation when nothing else is configured (64 MiB).
pub const DEFAULT_MEM_CAP_BYTES: usize = 64 * 1024 * 1024;

/// CPU budget given to an invocation when nothing else is configured.
pub const DEFAULT_CPU_BUDGET_MS: u64 = 100;

/// Largest response body an outbound fetch may hand to a guest (1 MiB).
pub const MAX_RESPONSE_BODY_BYTES: usize = 1024 * 1024;

/// Per-request timeout of outbound fetches.
pub const OUTBOUND_TIMEOUT_MS: u64 = 5_000;

/// How the shared engine is configured.
#[derive(Debug)]
pub struct EngineSettings {
    /// Needed for asynchronous instantiation and calls.
    pub async_support: bool,
    /// CPU budgets are enforced by epoch interruption (one check per call).
    pub epoch_interruption: bool,
    /// Fuel metering (one decrement per instruction) is not used.
    pub consume_fuel: bool,
    /// Compile for speed rather than size.
    pub optimize_for_speed: bool,
    pub parallel_compilation: bool,
}

/// The engine configuration: asynchronous, epoch interruption on, fuel off,
/// optimised for speed, parallel compilation.
pub fn engine_settings() -> (settings: EngineSettings)
    ensures
        settings.async_support,
        settings.epoch_interruption,
        !settings.consume_fuel,
        settings.optimize_for_speed,
        settings.parallel_compilation,
{
    EngineSettings {
        async_support: true,
        epoch_interruption: true,
        consume_fuel: false,
        optimize_for_speed: true,
        parallel_compilation: true,
    }
}

/// Period of the engine-wide epoch ticker.
pub const EPOCH_TICK_MS: u64 = 5;

/// The epoch deadline, in ticks, that enforces a CPU budget of
/// `cpu_budget_ms`: the budget divided by the tick period.
pub fn epoch_deadline_ticks(cpu_budget_ms: u64) -> (ticks: u64)
    ensures
        ticks == cpu_budget_ms / EPOCH_TICK_MS,
{
    cpu_budget_ms / EPOCH_TICK_MS
}

/// The epoch deadline never lets a guest run past its budget and cuts it short
/// by less than one tick period.
pub proof fn law_epoch_deadline_resolution(cpu_budget_ms: nat)
    ensures
        (cpu_budget_ms / EPOCH_TICK_MS as nat) * EPOCH_TICK_MS <= cpu_budget_ms,
        cpu_budget_ms < (cpu_budget_ms / EPOCH_TICK_MS as nat) * EPOCH_TICK_MS + EPOCH_TICK_MS,
{
}

/// Settings of the shared outbound HTTP client.
#[derive(Debug)]
pub struct OutboundSettings {
    pub timeout_ms: u64,
    /// Redirects are returned to the guest, never followed.
    pub follow_redirects: bool,
    pub max_body_bytes: usize,
}

/// The outbound client: a per-request timeout, no redirect following, and a
/// cap on the response body.
pub fn outbound_settings() -> (settings: OutboundSettings)
    ensures
        settings.timeout_ms == OUTBOUND_TIMEOUT_MS,
        !settings.follow_redirects,
        settings.max_body_bytes == MAX_RESPONSE_BODY_BYTES,
{
    OutboundSettings { timeout_ms: OUTBOUND_TIMEOUT_MS, follow_redirects: false, max_body_bytes: MAX_RESPONSE_BODY_BYTES }
}

/// The concatenation of `chunks`, in order.
pub open spec fn concat_chunks(chunks: Seq<Seq<u8>>) -> Seq<u8>
    decreases chunks.len(),
{
    if chunks.len() == 0 {
        Seq::<u8>::empty()
    } else {
        concat_chunks(chunks.drop_last()) + chunks.last()
    }
}

/// The body collected from `start` after offering `chunks` one by one:
/// `None` as soon as a chunk would take the body past the cap.
pub open spec fn body_after_chunks(start: Seq<u8>, chunks: Seq<Seq<u8>>) -> Option<Seq<u8>>
    decreases chunks.len(),
{
    if chunks.len() == 0 {
        Some(start)
    } else {
        match body_after_chunks(start, chunks.drop_last()) {
            None => None,
            Some(body) => if body.len() + chunks.last().len() <= MAX_RESPONSE_BODY_BYTES {
                Some(body + chunks.last())
            } else {
                None
            },
        }
    }
}

/// A response body being read from the network, bounded by
/// `MAX_RESPONSE_BODY_BYTES` before anything is handed to the guest.
pub struct ResponseBody {
    bytes: Vec<u8>,
}

impl ResponseBody {
    /// The bytes collected so far.
    pub closed spec fn contents(&self) -> Seq<u8> {
        self.bytes@
    }

    /// An empty body.
    pub fn new() -> (body: ResponseBody)
        ensures
            body.contents() == Seq::<u8>::empty(),
    {
        ResponseBody { bytes: Vec::new() }
    }

    /// Offer the next `chunk`: taken when the body stays within the cap,
    /// refused (and the body left as it was) otherwise.
    pub fn push_chunk(&mut self, chunk: &[u8]) -> (accepted: bool)
        ensures
            accepted == (old(self).contents().len() + chunk@.len() <= MAX_RESPONSE_BODY_BYTES),
            accepted ==> final(self).contents() == old(self).contents() + chunk@,
            !accepted ==> final(self).contents() == old(self).contents(),
    {
        if chunk.len() > MAX_RESPONSE_BODY_BYTES || self.bytes.len() > MAX_RESPONSE_BODY_BYTES - chunk.len() {
            return false;
        }
        let n: usize = chunk.len();
        let mut i: usize = 0;
        while i < n
            invariant
                n == chunk@.len(),
                i <= n,
                self.bytes@ == old(self).bytes@ + chunk@.take(i as int),
            decreases n - i,
        {
            self.bytes.push(chunk[i]);
            assert(chunk@.take(i + 1) =~= chunk@.take(i as int).push(chunk@[i as int]));
            i = i + 1;
        }
        assert(chunk@.take(n as int) =~= chunk@);
        true
    }

    /// The collected bytes.
    pub fn into_bytes(self) -> (bytes: Vec<u8>)
        ensures
            bytes@ == self.contents(),
    {
        self.bytes
    }
}

/// Offering chunks to an empty body succeeds exactly when their total length
/// is within the cap, and then the body is their concatenation; so a body
/// handed to a guest never exceeds the cap.
pub proof fn law_response_body_cap(chunks: Seq<Seq<u8>>)
    ensures
        body_after_chunks(Seq::<u8>::empty(), chunks) == (if concat_chunks(chunks).len() <= MAX_RESPONSE_BODY_BYTES {
            Some(concat_chunks(chunks))
        } else {
            None
        }),
    decreases chunks.len(),
{
    if chunks.len() > 0 {
        let prefix = chunks.drop_last();
        law_response_body_cap(prefix);
        assert(concat_chunks(chunks).len() == concat_chunks(prefix).len() + chunks.last().len());
    } else {
        assert(concat_chunks(chunks) =~= Seq::<u8>::empty());
    }
}

/// Why an invocation failed.
#[derive(Debug)]
pub enum InvokeError {
    /// The guest ran past its CPU budget and was interrupted.
    CpuBudgetExceeded { budget_ms: u64 },
    /// The guest asked for more linear memory than its cap.
    MemoryCapExceeded { peak_bytes: usize, cap_bytes: usize },
    /// The guest trapped for any other reason.
    GuestTrap(String),
    /// The component could not be linked or instantiated.
    Setup(String),
}

/// A successful invocation: the guest's output and its peak linear memory.
#[derive(Debug)]
pub struct InvokeOutcome {
    pub output: Vec<u8>,
    pub peak_bytes: usize,
}

/// How a trapped call is reported, by value.
pub enum TrapReport {
    Cpu { budget_ms: nat },
    Memory { peak_bytes: nat, cap_bytes: nat },
    Guest(Seq<char>),
}

/// The report for a call that trapped with the limiter in state `memory`:
/// a refused memory request explains the trap first (with the recorded peak
/// and the cap); otherwise an epoch interruption means the CPU budget ran
/// out; anything else is a guest trap carrying its message.
pub open spec fn trap_report(memory: MemoryState, interrupted: bool, cpu_budget_ms: nat, message: Seq<char>) -> TrapReport {
    if memory.cap_hit {
        TrapReport::Memory { peak_bytes: memory.peak, cap_bytes: memory.cap }
    } else if interrupted {
        TrapReport::Cpu { budget_ms: cpu_budget_ms }
    } else {
        TrapReport::Guest(message)
    }
}

/// An invocation error, by value (`None` for a setup failure).
pub open spec fn trap_report_of(err: InvokeError) -> Option<TrapReport> {
    match err {
        InvokeError::CpuBudgetExceeded { budget_ms } => Some(TrapReport::Cpu { budget_ms: budget_ms as nat }),
        InvokeError::MemoryCapExceeded { peak_bytes, cap_bytes } => Some(TrapReport::Memory {
            peak_bytes: peak_bytes as nat,
            cap_bytes: cap_bytes as nat,
        }),
        InvokeError::GuestTrap(m) => Some(TrapReport::Guest(m@)),
        InvokeError::Setup(_) => None,
    }
}

/// Report a call that trapped, given the limiter as the call left it and
/// whether the trap was an epoch interruption.
pub fn classify_trap(limiter: &TenantLimiter, interrupted: bool, cpu_budget_ms: u64, message: String) -> (err: InvokeError)
    ensures
        trap_report_of(err) == Some(trap_report(limiter.memory_state(), interrupted, cpu_budget_ms as nat, message@)),
{
    if limiter.cap_hit {
        InvokeError::MemoryCapExceeded { peak_bytes: limiter.peak_bytes, cap_bytes: limiter.mem_cap_bytes }
    } else if interrupted {
        InvokeError::CpuBudgetExceeded { budget_ms: cpu_budget_ms }
    } else {
        InvokeError::GuestTrap(message)
    }
}

/// Report a call that returned `output`, with the limiter's recorded peak.
pub fn finish_invocation(limiter: &TenantLimiter, output: Vec<u8>) -> (outcome: InvokeOutcome)
    ensures
        outcome.output@ == output@,
        outcome.peak_bytes == limiter.peak_bytes,
{
    InvokeOutcome { output, peak_bytes: limiter.peak_bytes }
}

/// A guest whose memory requests, starting from a fresh limiter with cap
/// `cap`, included one above the cap is reported as having exceeded its memory
/// cap, with exactly that cap and the largest granted size as its peak, which
/// is within the cap, whatever else happened to the call.
pub proof fn law_memory_cap_report(cap: nat, requests: Seq<MemoryRequest>, interrupted: bool, budget: nat, message: Seq<char>)
    requires
        exists|i: int| 0 <= i < requests.len() && (#[trigger] requests[i]).1 > cap,
    ensures
        trap_report(MemoryState::fresh(cap).after_requests(requests), interrupted, budget, message)
            == (TrapReport::Memory { peak_bytes: max_accepted(cap, requests), cap_bytes: cap }),
        max_accepted(cap, requests) <= cap,
{
    law_fresh_limiter_peak_is_high_water_mark(cap, requests);
    crate::types::law_memory_requests(MemoryState::fresh(cap), requests);
}

/// A trap is reported as a memory-cap failure exactly when a memory request
/// was refused for exceeding the cap, with the recorded peak and the cap;
/// otherwise an interrupted call is a CPU-budget failure with its budget and
/// any other trap is a guest trap with its message, whatever the peak.
pub proof fn law_trap_report_cases(memory: MemoryState, interrupted: bool, budget: nat, message: Seq<char>)
    ensures
        memory.cap_hit ==> trap_report(memory, interrupted, budget, message)
            == (TrapReport::Memory { peak_bytes: memory.peak, cap_bytes: memory.cap }),
        !memory.cap_hit && interrupted ==> trap_report(memory, interrupted, budget, message)
            == (TrapReport::Cpu { budget_ms: budget }),
        !memory.cap_hit && !interrupted ==> trap_report(memory, interrupted, budget, message)
            == TrapReport::Guest(message),
{
}

/// A guest none of whose memory requests asked for more than its cap is never
/// reported as having exceeded its memory cap, even when its granted memory
/// reached the cap exactly.
pub proof fn law_no_refusal_no_memory_report(
    cap: nat,
    requests: Seq<MemoryRequest>,
    interrupted: bool,
    budget: nat,
    message: Seq<char>,
)
    requires
        forall|i: int| 0 <= i < requests.len() ==> (#[trigger] requests[i]).1 <= cap,
    ensures
        !(trap_report(MemoryState::fresh(cap).after_requests(requests), interrupted, budget, message) is Memory),
        trap_report(MemoryState::fresh(cap).after_requests(requests), interrupted, budget, message) == (if interrupted {
            TrapReport::Cpu { budget_ms: budget }
        } else {
            TrapReport::Guest(message)
        }),
{
    law_fresh_limiter_peak_is_high_water_mark(cap, requests);
}

} // verus!
