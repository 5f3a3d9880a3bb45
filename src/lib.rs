//! An in-memory pet store that keeps each record split over per-kind tables
//! (a base table, a mammal table and one table per mammal kind) and joins the
//! tables back into composed records on read.
pub mod pet_module;

pub use pet_module::{Cat, Dog, Mammal, PetState};
