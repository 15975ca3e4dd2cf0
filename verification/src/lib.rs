//! A fixed-point plant-growth simulation.
//!
//! Every plant is a tree of branches kept in a flat arena. A small rule program,
//! the genome, is evaluated on each branch once per tick; the growth it asks for
//! is queued by priority and admitted greedily against the plant's energy.
//!
//! All quantities are integers in thousandths of a unit, so that every result is
//! exactly reproducible and every contract speaks of exact values.

pub mod fixed;
pub mod random;
pub mod config;
pub mod branch;
pub mod genome;
pub mod growth_priority_item;
pub mod plant;
pub mod branch_execute_genome;
pub mod admission;
pub mod terrain;
pub mod plant_option_vec;
