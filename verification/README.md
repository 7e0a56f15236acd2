# cronchware

The verified core of Cronchware, an RPC framework for Hyperware/Kinode processes.

- `src/` — the library, verified with Verus:
  - `text`, `case`: character-level string helpers and name conversions;
  - `wit`, `wit_lex`, `wit_types`, `wit_items`: the WIT grammar the type generator reads;
  - `wit_codegen`: Rust types generated from WIT files;
  - `signatures`, `bindgen`: signature records of WIT interfaces and the async RPC module generated from them;
  - `hyperprocess`, `send_macro`: argument reading, method checks and expansions of the `#[hyperprocess]`, `send_async!` and `fan_out!` macros, as Rust source text;
  - `registry`, `app_common`, `kinode`: the process runtimes' tables, persistence policy, executor bookkeeping, send outcomes, fan-out aggregation and message routing;
  - `async_app`, `async_receiver`, `receiver_a`, `receiver_c`, `async_requester`, `shared`: the example applications' handlers, their step-by-step exchanges, the receivers' answers and the example addresses.
- `app/` — what talks to the host or to `syn`: the macros' token glue, file reading, the message loops, timer and request sending, and the serde copies of the example message types.
- `tests/` — tests of the library.
