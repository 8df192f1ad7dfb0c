# king_of_the_hill

A client-side castle-defence arcade game. Two foes walk up to the castle wall
and wear it down; the player fires a crossbow (left of the centre) and a cannon
(right of the centre) at them; cannonballs burst into animated explosions;
every foe knocked out scores a point, and the round ends when the wall falls.

## Layout

- `src/` — the rules, verified with Verus:
  - `board.rs`: the discrete state of a round (projectile and explosion pools,
    the foes' attack cycle, score, end of round) and every transition of it;
  - `strike.rs`: the specification of hit resolution and its laws;
  - `sprites.rs`: sprite ids, image files, size classes, and the exact
    explosion scale of each stage;
  - `render.rs`: the order and poses of the render list, and its packing.
- `app/` — the WASM host (`wasm-bindgen`): it keeps positions, velocities,
  sizes and timers as `f32` in a `hecs` world, measures overlaps with `glam`,
  and hands every decision to the board.
- `tests/` — tests of the library.
