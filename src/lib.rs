//! Lindenmayer systems: rewriting a grammar to an order, filtering the
//! result down to turtle actions, and reading those actions into a plan of
//! points and path commands, with the contracts of each step. Beside them
//! stand the splitting of a catalog text into its objects and the states
//! of a paged document.

mod text;
pub mod actions;
pub mod rules;
pub mod turtle;
pub mod grammar;
pub mod chunks;
pub mod doc;
