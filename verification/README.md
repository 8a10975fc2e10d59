# suomipeli_core

The rules of a map-and-quiz game board, verified with Verus. Players touch contacts that are wired
to port expanders; the game answers with lamps, a relay and a bell.

- `src/pins.rs`: pins, contacts and the wiring of a board.
- `src/ports.rs`: banks of ports as lines that are high or low; edges between two readings.
- `src/lamps.rs`: driving output lines, one by one or by table.
- `src/tasks.rs`: the tasks that the game asks for, and those that only ask for others.
- `src/state.rs`: the state of the game, polling, and the output lines.
- `src/tables.rs`: the lamps of the board by table, the relay and the bell.
- `src/game.rs`: contacts touched and let go, game modes, answers, the secret sequence.
- `src/shows.rs`: the test of the outputs, the easter egg, lamps at random.
- `src/report.rs`: the texts that are sent over the serial line.
- `src/laws.rs`: what holds of the game as a whole.
- `app/`: the firmware of the real board around the library. The pins of that board come from the
  `suomipeli` crate, the port expander driver from `port_expander_multi`.
