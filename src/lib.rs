//! An evolutionary simulation's core: genetic operators and the genetic
//! algorithm that drives them, feed-forward networks with a fixed flattened
//! layout of their values, the brains built from them, and the clock that
//! marks generation boundaries.

pub mod brain;
pub mod clock;
pub mod crossover;
pub mod eye;
pub mod ga;
pub mod network;
