# moonproto

Verified core of a client library for the MoonBot protocol, written in Verus.

## Layout

- `src/` is the verified library.
  - `shared_config/` holds the shared configuration ("safe-share") format:
    the reader and writer of its wire values, the fixed-layout records, the
    six sections (`signals`, `trading`, `visual`, theme and ini in `ini`,
    `ui`), the payload framing (`payload`), the whole configuration with its
    parse, serialize and text forms (`config`), and the clipboard and
    `.mbshare` encodings (`clipboard`). Decimal settings are held as the bit
    patterns of their IEEE-754 values.
  - `base16384.rs`: the clipboard text encoding; `radix.rs`: the little-endian
    radix arithmetic behind it.
  - `telegram.rs`: Telegram UI actions and their wire encoding.
  - `chunked.rs`: reassembly of chunked Engine API responses.
  - `strats.rs`: the strategy list, folders, snapshots, pending edits, and
    the application of core snapshot batches.
  - `state.rs`: kernel health, problems, settings events and the account
    balance digest.
  - `settings.rs`: the settings snapshots received from the core, and the
    safe-share config built from the last full snapshot with newer compact
    and leverage settings laid over it.
  - `runtime.rs`: decisions of the runtime loop and the init steps, among
    them the step functions of the retained-candles and market-history
    requests.
  - `engine_api.rs`: Engine API fields that the core may leave short.
  - `report_traces.rs`: archived order geometry of closed report trades and
    the bookkeeping of trace requests in flight.
- `tests/` runs the library on concrete values.
- `app/` is ordinary Rust around the library: operating-system calls, the
  serde forms of the Telegram state, and the pollers that read the reply
  channels of pending requests and act on the library's step decisions.

Each public function states its result in its contract; the laws of the
format (a written payload, section or record reads back as what was written)
are proof functions next to the code they speak of.
