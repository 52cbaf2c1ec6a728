//! A deterministic simulation of a pool table seen from the side.
//!
//! Two balls, a cue ball and an object ball, move along one axis between two
//! pockets. A ball slips or rolls on the cloth, is thrown back by the
//! cushions, collides with the other ball and falls into a pocket; a small
//! phase machine decides when the balls are set up, shot and left to run. A
//! session runs two such tables side by side, one whose balls can spin and
//! one whose balls cannot, from the same trigger and the same clock.
//!
//! All quantities are integers that count millionths (see [`fixed`]), so a
//! run is reproducible to the last digit. The host supplies the elapsed time
//! and the trigger of each tick and reads the balls back for drawing.
//!
//! - [`fixed`]: the arithmetic.
//! - [`constants`]: the table's dimensions and the physical constants.
//! - [`ball`]: a ball, its invariant and one tick of its motion.
//! - [`friction`]: the friction of the cloth.
//! - [`wall`], [`pair`], [`pocket`]: cushions, the collision of the pair,
//!   pockets.
//! - [`phase`]: the phases of a shot.
//! - [`world`]: one table and the pipeline of a tick.
//! - [`game`]: the session of two tables.
//! - [`fibonacci`]: Fibonacci numbers at positive and negative indices.

pub mod ball;
pub mod constants;
pub mod fibonacci;
pub mod fixed;
pub mod friction;
pub mod game;
pub mod pair;
pub mod phase;
pub mod pocket;
pub mod wall;
pub mod world;
