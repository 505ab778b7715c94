//! The per-connection lifecycle state. Each state's data lives with the
//! component that owns it (the reader owns the accumulation buffer), so no
//! accessor can be called against the wrong state. `Closed` is terminal:
//! the registry tears the session down after the event that closed it.
use vstd::prelude::*;

verus! {

#[derive(Clone, Copy, Debug, PartialEq, Eq, Structural)]
pub enum State {
    Reading,
    Writing,
    Closed,
}

} // verus!
