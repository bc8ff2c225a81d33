use vstd::prelude::*;

verus! {

/// The single error of the core: the writer is gone and no further snapshot
/// will ever arrive.
#[derive(Clone, Copy, Debug, PartialEq, Eq, Structural)]
pub struct Closed;

impl Closed {
    /// A short description, offered in place of a formatting impl.
    pub fn message(&self) -> (r: &'static str)
        ensures
            r@ == "Closed"@,
    {
        "Closed"
    }
}

} // verus!
