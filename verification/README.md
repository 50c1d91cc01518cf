# adamoq

Variable-bitrate control for live media over QUIC, verified with Verus.

A relay watches the transport of each connection, estimates how much it can
carry, and tells the publisher a bitrate ceiling. The ceiling follows the
estimate down when there are signs of congestion, and is probed back up.

- `src/` is the library. Every function states what it returns and changes; the
  contracts speak of the views of the types, such as `ControllerView`. The laws
  that hold across calls stand in `laws.rs` and `relay_laws.rs`.
- `tests/` runs the library, with the `bytes` and `conducer` crates linked.
- `app/` holds `bitrate-sim`, which replays a scripted network scenario, and the
  plumbing that connects the library to a real transport.

Rates are smoothed in double precision. `Binary64` computes with the bits of
doubles in integer arithmetic, so that the contracts can say which double comes
out; a value crosses into `f64` by `to_bits` and `from_bits`.

Times are nanoseconds since some fixed start. Durations and bitrates are taken as
they are given, so the functions that add them up ask for numbers that stay in
range; `law_ordinary_readings_accepted` says which ones do.
