# dataflare_wasm

The WASM plugin layer of DataFlare, written in Verus: plugin metadata and
life cycle, host functions, the sandbox and security policies, distributed
task scheduling and load balancing, event routing, profiling, the developer
tools, and the plugin marketplace (registry, search, packages, licences,
payments, reviews, authentication and security scanning).

Every function under `src/` carries a `requires`/`ensures` contract that
Verus proves. The contracts speak of mathematical models (`Seq`, `Map`,
`int`) of each type; laws that relate several operations are stated as
public proof functions next to the code they describe (for instance, that a
registry search shows only entries passing its filters, in the order asked
for, or that recording a call keeps a function's average time between its
shortest and longest call).

Calls into outside crates and into the parts of `std` that Verus has no
specification for are made by small trusted wrappers, each with a doc
comment saying what its contract claims of the outside code.

Layout:

- `src/` — the verified library, one module per area; `src/marketplace/`
  holds the marketplace.
- `tests/` — tests of the library on concrete values.
- `app/` — the code around the library that Verus does not check: timing
  and benchmarks with floating-point figures, processes (`cargo`,
  `wasm-opt`), files, JSON tables of processor types, token signing, and the
  marketplace service that runs the library's decisions.
