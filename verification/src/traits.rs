//! The bound that the framework asks of the values it moves between tasks.
use vstd::prelude::*;

verus! {

/// Can be moved to and shared with other threads for the whole program.
pub trait TriviallyThreadable: Send + Sync + 'static {}

impl<T> TriviallyThreadable for T where T: Send + Sync + 'static {}

} // verus!
