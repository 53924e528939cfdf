# space_shooter

A small browser space shooter whose rules are a verified library.

- `src/` — the library, verified with Verus:
  - `input.rs`: which key drives which control, the input state, and which keys
    suppress the browser's default action;
  - `entity.rs`: the player, enemies and bullets — life, hit points, weapon
    cooldowns, shot patterns;
  - `game.rs`: game states and transitions, input handling, collision resolution
    and scoring, removal of spent entities, enemy spawning and formations;
  - `rendering.rs`: the color palette and the texts of the user interface.
- `app/` — the WebAssembly front end: canvas drawing, keyboard listeners, the
  animation-frame loop, random numbers, and the floating-point geometry
  (positions, movement, circle overlaps) that the library's decisions take as input.
- `tests/` — tests of the library.
