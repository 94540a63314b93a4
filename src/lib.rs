//! Damage-and-destruction core of a 2D ragdoll physics sandbox.
//!
//! The engines here turn what the physics engine reports (velocities,
//! collisions, impulses, positions) into state changes of a shared health
//! model: joint damage, fractures and severed joints from stress and impacts
//! (`impact`), point explosions (`blast`), traveling shockwaves
//! (`shockwave`), fire (`combustion`), and user-made connections that break
//! under force (`connection`). Bodies live in an arena (`world`) where a
//! handle to a body that is gone is answered with "absent", never an error,
//! and despawning is idempotent.
//!
//! All quantities are fixed-point integers:
//! positions and distances in world units, linear speeds in world units per
//! second, angular speeds in milliradians per second, masses in grams,
//! health and damage in milli-hit-points, time in milliseconds and ratios in
//! parts per thousand.
pub mod fixed;
pub mod health;
pub mod world;
pub mod blast;
pub mod shockwave;
pub mod impact;
pub mod random;
pub mod finder;
pub mod combustion;
pub mod connection;
pub mod fragments;
pub mod ragdoll;
pub mod drag;
