# seed_helper

A helper that seeds Squad servers: it starts the game, joins the servers of a
seed order one after another, waits until each has enough players, and then
moves on, closes the game or runs the chosen after-seed action.

## Layout

- `src/` is the verified library. Its functions carry contracts that Verus
  proves, except three small wrappers around outside calls whose contracts are
  taken as given: building a `String` from characters, reading the system
  clock, and turning a Unix time into Moscow's hour and minute.
  - `ini`: rewriting the keys of the game's settings file (frame rates,
    resolution), with laws on what the rewrite keeps, writes and removes, and
    that a second rewrite changes nothing.
  - `seeder`, `server_seed`, `launch`, `join`: the seeding run, the seeding of
    one server, starting the game and the join flow, as state machines from
    state and event to next state and action.
  - `servers`, `form`, `schedule`, `updater`, `game`, `process`, `input`,
    `config`: server names and tags, the settings form, the shutdown schedule
    and health checks, version comparison, settings validation and launch
    plans, process checks, console keystrokes, and the settings themselves.
  - `text`: the string and number handling that the rest is built on.
- `tests/` runs the library on concrete values.
- `app/` is the program around the library: the command line, the hub's HTTP
  API, file I/O, processes, keyboard input and the loops that drive the state
  machines, the background checks and the settings form.
