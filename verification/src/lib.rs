//! An exhaustive, probability-weighted outcome engine for turn-based combat.
//!
//! Instead of sampling one random playout, the engine evaluates every branch
//! of every probabilistic event. A turn is described as a tree of staged
//! computations over a cloneable state value ([`rng::RngNode`]); a scheduler
//! walks the tree, executing deterministic steps in place and fanning out at
//! each weighted branch with a private copy of the state, until every path
//! reaches a terminal node and reports its final state and depth.

pub mod rng;
pub mod battle;
pub mod scheduler;
pub mod skill;

pub use rng::RngNode;
