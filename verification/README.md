# dafm

Verified game logic of a small tile-based factory game, written in Verus.

- `src/` is the library, all of it verified by Verus. Its public functions
  carry contracts (some small private helpers carry none, and are checked
  in place); the laws that relate several functions stand there as public
  proof functions whose names begin with `law_`.
  - `tiles`, `sprite_sheet`: map positions, neighbours, sprite indices.
  - `factory_game`: directions, payload transport lines, belts, bridges,
    distributors, generators, sinks, operators and the tool bar.
  - `conveyor`: the first conveyor prototype (sprites, hover cursor,
    generator, payload steps).
  - `mapgen`, `terrain`: wave-function-collapse map generation and its
    step controls.
  - `game`, `space_shooter`: cooldown, gun and wave timers.
- `tests/` runs the library on concrete values.
- `app/` is the game around it: windowing, input, rendering, file loading
  and everything that needs floating point.
