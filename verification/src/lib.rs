//! Rules of a brick-breaking game: rectangle geometry, the paddle, the bricks,
//! the level maps and their brick layout, contact resolution, and the game's
//! scene and lives state machine.

pub mod brick;
pub mod game;
pub mod layout;
pub mod level;
pub mod paddle;
pub mod prelude;
