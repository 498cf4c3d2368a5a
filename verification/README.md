# tracing_throttle

Rate limiting for log events, proved with [Verus](https://github.com/verus-lang/verus).

Events that look alike (same level, place, target, and chosen fields) share a *signature*. Each
signature has a policy of its own, which decides event by event what passes. What is suppressed is
counted, and summaries say how much it was. Where limiting itself fails, events pass.

## Layout

- `src/`: the library. Everything in it is verified.
  - `time`, `text`: instants and durations as plain numbers; order and digits of strings.
  - `domain`: policies, signatures, fields, counters, summaries.
  - `application`: the registry of signatures, the limiter, the emitter of summaries, the circuit
    breaker, the counts, and the ports through which all of it meets its surroundings.
  - `infrastructure`: the storage in memory and its eviction policies, clocks, what Redis needs,
    and the layer that decides about events.
- `tests/`: tests of the compiled library.
- `app/`: ordinary Rust around it: the `tracing` filter, the background task, Redis, and what can
  be shared between threads.

## How things are stated

Every type has a model: a plain struct of numbers, sequences and maps, given by its `view` or by
spec methods. The contract of a function gives its result and the model afterwards as functions of
the model before. Where the clock or the order of a hash map decides, the contract says what holds
whatever comes, and a sibling that ends in `_at` takes the time as an argument and says it exactly.

What spans several functions is stated as a proof function whose name begins with `law_`:
which events a policy allows over a whole run, that signatures do not influence each other, that no
suppression is lost or reported twice, that a storage stays within its limit, that keys lead back
to their signatures, and so on.

A few functions of other crates and of the standard library are believed rather than proved:
the hasher of `ahash`, the hash map of `dashmap`, which leads from keys to positions, the clock,
`String::push`, and how the standard library writes a duration. Their doc comments say what is
claimed of each.

A storage that several processes write to, or that may be out of reach, cannot be relied on. Such a
storage declines `Storage::is_exact`; what is promised of a limiter then leaves out what it stores,
but not how an answer becomes a decision, how events are counted, and what the circuit breaker does.

## State and threads

The library's types have plain `&mut` methods. `app/` puts a layer behind a lock to share it, takes
a panic on the way for a failure of the operation, and lets the event pass.

The counts for monitoring are the exception. Clones of `Metrics` share their numbers, so one of them
can be read from anywhere while the layer goes on. Others may count at the same moment, so no
contract says which numbers a holder finds. What a limiter has counted itself is exact, and `tally`
returns it.
