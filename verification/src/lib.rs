//! Simulation core of a small grid-based stealth game: a fox retrieves mail
//! and delivers it to a mailbox while avoiding guard pugs that can be
//! distracted by a throwable bone.
//!
//! The crate models the tile grid and its isometric back-to-front traversal
//! order, the entity data, the pug guard/alert state machine, the per-tick
//! world update, and the level-lifecycle state machine.  Rendering, audio
//! playback and level-file parsing are left to the embedding program: the
//! library consumes plain level blueprints and reports sound cues and level
//! load requests as plain values.

pub mod blueprint;
pub mod diagonal;
pub mod entities;
pub mod geom;
pub mod level;
pub mod pug_ai;
pub mod world;
