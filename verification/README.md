# ArcRelay Automation

Local-first, linear desktop automations: **when → only if → do**.

`src/` is a Verus library. It holds the rules and proves them: which definitions are valid, which
events run an automation, what an execution does next, what a confirmation or a cancellation
changes, which time slots come, what is stored and for how long. It opens no database, starts no
process and asks no system. What it has to know of them it is told, and what has to be done it asks
for.

`app/` is the desktop side: the SQLite store, shell processes, and the engine that drives the
library. `tests/` exercises the library from outside.

## Modules

- `model`: definitions, events, activities and results, each with a mathematical model.
- `trigger`, `conditions`, `schedule`, `ticks`: which events and time slots run an automation.
- `template`, `summary`: texts with variables, and a definition as a sentence.
- `validation`, `preflight`, `saving`, `records`: what a definition has to keep before it is stored,
  and what always holds of the stored ones.
- `admission`, `enqueue`: from an event to a queued activity.
- `execution`, `guarantees`: running an activity, and what holds of every run and of all of them
  together.
- `lifecycle`, `history`, `registry`: confirmation, cancellation, recovery, retention.
- `shell`: how scripts are started and what is kept of their output.
- `text`, `text_map`, `time`, `identity`, `error`: what the others are built from.

Functions whose names begin with `law_` state what holds across several of the others.

## Outside code

`chrono` and `chrono-tz` read times and map them to time zones, `uuid` gives identifiers, and
`serde_json` values are carried along. Each call stands in a small function whose comment says what
is taken on trust.
