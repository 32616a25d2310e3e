# job_hunter

The decisions of a job-hunting application, verified with Verus.

An autopilot searches job boards on a schedule and keeps what it finds. An agent, such as a
command line client, can ask the running application about it. This crate holds what such an
application decides: the addresses it asks, what it makes of a page, how a run is merged into
what was found before, what an agent gets to see, and how the client and the application find and
trust each other.

## Layout

- `src/` is the library. Everything in it is verified.
  - `linkedin/` — search addresses, cards, postings, and a search over several pages as a machine.
  - `autopilot/` — the records, their store, merging, grouping, and requests to change a record.
  - `run/` — what a run asks the boards for, descriptions to look up, notes, and diagnostics.
  - `agent_read/` — the questions of agents and their answers.
  - `agent_cli/` — the verbs, the frames, the handshake and the ending of the command line.
- `tests/` runs the library from outside.
- `app/` is ordinary Rust around it: files, connections, waits, and what the host application
  supplies.

## How to read the contracts

Each type has a view of mathematical values, and each function says what it does to views. Where
the library needs something that only the host knows, such as whether two postings are the same
job, it takes a function, and its contract says what is asked of that function and what becomes of
the answer. Work that waits is a machine: it is told what happened and says what to do next.

What is believed without proof stands in functions marked `external_body`, each with a comment
that names the outside function: parsing HTML, JSON, dates, percent-encoding, random ids and
numbers, the clock.

Public proof functions state what holds across functions. They stand at the end of the file they
are about, or in `autopilot/laws.rs`, `agent_read/secrets.rs` and `agent_read/round_trip.rs`.
