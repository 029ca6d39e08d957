# jcode_ambient

The decisions of an ambient coding agent: a background process that wakes now
and then, looks after memories, works through a queue of scheduled items, runs
recurring jobs and tells its user about it. The library is verified with Verus:
every function states in its contract what it returns or changes, and Verus
proves the contract.

## Layout

- `src/ambient/`: the state and the queue, the prompt of a cycle, schedule
  windows, the pace of cycles, projects and their turns, and the runner's loop
  as steps and events.
- `src/channel/`: the channels that notifications go out on and replies come
  back on.
- `src/cron/`: recurring jobs, their schedules and what is recorded of them.
- `src/server/`: the debug commands, and what happens when a client
  disconnects.
- `src/clock.rs`, `src/time.rs`: instants, wall-clock times and the calendar.
- `src/text.rs`, `src/numerals.rs`, `src/text_map.rs`, `src/text_set.rs`,
  `src/ordering.rs`: text, numbers in text, and small collections.
- `tests/`: the library as its callers see it.
- `app/`: files, processes, network requests and timers around the library.

The library reads neither files nor the configuration: it takes plain values
and returns plain values. It reads the clock, the local time zone and random
bits through functions whose contracts are taken on trust; these are marked
`external_body`, and each says what it claims.

Public proof functions state what holds of the library as a whole: that a claim
and its recovery cancel out, that a busy project cannot starve another one, that
a job keeps its cadence, that the end of a cycle is accepted only past its todo
gates.
