//! Per-invocation metering rows: `(tenant, func, cpu_us, mem_peak_bytes)`,
//! appended once per successful invocation.
use vstd::prelude::*;

verus! {

/// One row of the metering ledger, in the ledger's column types.
#[derive(Debug)]
pub struct MeterRow {
    pub tenant: String,
    pub func: String,
    pub cpu_us: i64,
    pub mem_peak_bytes: i64,
}

/// The row recording one invocation of `func` for `tenant`. The counters are
/// stored as signed 64-bit columns, converted as Rust's `as` converts them.
pub fn meter_row(tenant: &str, func: &str, cpu_us: u64, mem_peak: usize) -> (row: MeterRow)
    ensures
        row.tenant@ == tenant@,
        row.func@ == func@,
        row.cpu_us == cpu_us as i64,
        row.mem_peak_bytes == mem_peak as i64,
{
    MeterRow {
        tenant: String::from_str(tenant),
        func: String::from_str(func),
        cpu_us: cpu_us as i64,
        mem_peak_bytes: mem_peak as i64,
    }
}

} // verus!
