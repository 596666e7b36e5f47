//! Verified core of a multi-tenant WebAssembly function host.
//!
//! - [`types`]: the per-invocation host context (tenant-scoped KV access,
//!   outbound allowlist) and the tenant memory/table limiter.
//! - [`kv`]: the key/value store interface and its in-memory implementation.
//! - [`cache`]: content-hash naming of compiled artifacts and the load plan.
//! - [`runtime`]: engine settings, CPU budget, outbound client settings and
//!   response-body cap, and how failed invocations are reported.
//! - [`meter`]: the metering row written per invocation.
//! - [`upload`]: the control plane's upload rules.
pub mod cache;
pub mod kv;
pub mod meter;
pub mod runtime;
pub mod types;
pub mod upload;
