//! Movement resolution for a two-dimensional fighting game.
//!
//! Once per tick and fighter, [`resolver::player_control`] decides from the
//! input of the tick, the input of the last moments and the motion state
//! the fighter is in which motion state it goes over to, and
//! [`integrator::update_state`] moves the fighter and holds it within the
//! arena. Both read the movement graph of the fighter's archetype
//! ([`movement_graph::FighterMovementMap`]), which is built once and not
//! changed after that.
//!
//! All quantities are whole numbers. Time is counted in milliseconds,
//! speed in thousandths of a length unit per second, and position in
//! millionths of a length unit, so that a speed times a time is a distance
//! with nothing rounded.
//!
//! The modules, leaves first:
//! - [`bitmask`]: facts about sixteen-bit masks;
//! - [`history`]: bounded histories of time-stamped values;
//! - [`controls`]: input symbols, sets of them, and a player's keys;
//! - [`fighters`]: archetypes, motion states, and what a fighter carries;
//! - [`movement_rules`]: the rules that a movement node is made of;
//! - [`movement_graph`]: movement nodes and the graph that holds them;
//! - [`default_graph`]: the graph that the fighters are given;
//! - [`resolver`]: the decision of a tick;
//! - [`integrator`]: the motion of a tick;
//! - [`animation`]: the frames of a sprite sheet;
//! - [`laws`]: what holds of all of these together.

pub mod bitmask;
pub mod history;
pub mod controls;
pub mod fighters;
pub mod movement_rules;
pub mod movement_graph;
pub mod default_graph;
pub mod resolver;
pub mod integrator;
pub mod animation;
pub mod laws;
