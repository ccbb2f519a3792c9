//! The simulation core of a small haunted-neighbourhood game: a ghost follows
//! the pointer across a grid of houses, collects candy into a capped sack,
//! deposits it at a pumpkin to fill a progress meter, and, once the meter is
//! full, shoots at a floating balloon that bursts into particles.
//!
//! Everything here works on plain integers. Real-valued quantities (lengths,
//! shares, rates, percentages, angles) are fixed-point numbers with six
//! decimal digits, see [`fixed::UNIT`]; time is counted in nanoseconds.
//!
//! Three things only trigonometry can tell, and the caller tells them: the
//! direction from the ghost to the pointer as an angle, the sines of the
//! waves on which the ghost and the balloon float, and the direction in
//! which a particle flies off, as a vector. Everything else that happens
//! on a tick is decided here; see [`world::World::tick`].

pub mod angle;
pub mod burst;
pub mod chance;
pub mod easing;
pub mod fixed;
pub mod game_state;
pub mod geometry;
pub mod house;
pub mod interaction;
pub mod inventory;
pub mod player;
pub mod projectile;
pub mod sack;
pub mod timer;
pub mod trail;
pub mod transient;
pub mod world;
