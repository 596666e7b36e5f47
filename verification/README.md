# warpline core, verified

The verified core of a multi-tenant WebAssembly function host: per-tenant
memory/table limits, tenant-scoped key/value access, the deny-by-default
outbound allowlist and response-body cap, the content-hashed `.cwasm` cache
naming and load plan, the CPU-budget epoch deadline, and how failed
invocations are reported.

- `src/` — the library, verified with Verus (`types`, `kv`, `cache`,
  `runtime`, `meter`, `upload`).
- `tests/` — tests of the library on concrete values.
- `app/` — the servers around it: engine and linker construction, host
  functions wired to the library's decisions, `invoke`, the on-disk cache,
  the metering insert, and the `host` / `control` HTTP APIs.
