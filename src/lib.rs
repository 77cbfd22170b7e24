//! Behavior-tree driven decision making for the agents of a tile-based tower
//! defense simulation.
//!
//! - [`bt`]: the resumable behavior-tree engine (sequence, selector,
//!   inverter and leaf nodes) with its optional audit trail.
//! - [`field`]: the tile graph, its traversal costs and pathability.
//! - [`pathing`]: memoized shortest-route queries and reachability checks.
//! - [`enemy_nodes`], [`tower_nodes`]: the agents' world views, intents and
//!   leaf nodes.
//! - [`targeting`]: the lead-shot solver.
//! - [`enemies`], [`towers`], [`economy`], [`simulation`]: unit stats, prices,
//!   the wave schedule and the rules applied between ticks.
pub mod bt;
pub mod economy;
pub mod enemies;
pub mod enemy_nodes;
pub mod field;
pub mod pathing;
pub mod simulation;
pub mod targeting;
pub mod tower_nodes;
pub mod towers;
