//! A growable, contiguously indexed sequence container built on a pluggable
//! allocation capability.
//!
//! The container is layered:
//!
//! * [`allocator`] describes the capability the container is parameterised
//!   by, and the layouts it is asked for;
//! * [`raw_vec`] owns the slots and the capacity, and decides how capacity
//!   grows;
//! * [`raw_val_iter`] is the pair of boundaries that every traversal uses;
//! * [`nom_vec`] is the vector itself;
//! * [`into_iter`], [`drain`] and [`iter`] are the three ways of walking it;
//! * [`laws`] states what the operations mean when they are combined.
//!
//! Every contract is phrased over `Seq`: a vector is the sequence of its live
//! elements, an iterator is the sequence of elements it has yet to yield.

pub mod allocator;
pub mod drain;
pub mod error;
pub mod into_iter;
pub mod iter;
pub mod laws;
pub mod nom_vec;
pub mod raw_val_iter;
pub mod raw_vec;

pub use allocator::{recorded, AllocError, Allocator, Global, Layout, Request};
pub use drain::Drain;
pub use error::AllocationError;
pub use into_iter::IntoIter;
pub use iter::Iter;
pub use nom_vec::NomVec;
pub use raw_val_iter::RawValIter;
pub use raw_vec::RawVec;
