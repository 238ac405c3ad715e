# breakout

The rules of a brick-breaking game, verified with Verus.

- `src/prelude.rs`: playfield size, rectangles and their window placement.
- `src/paddle.rs`: the paddle, clamped to its bounds.
- `src/brick.rs`: a brick's life: standing, dying, removed.
- `src/layout.rs`: the four level maps and the brick layout they describe.
- `src/level.rs`: a level's bricks, paddle and score; how a frame's contacts kill bricks.
- `src/game.rs`: scenes, lives, moving through the maps, the start button.

The physics world, the animations, sound and drawing stay in `app/`, which
hands the rules plain values (collider handles, pointer positions, what an
animation reports) and carries out the effects they return.
