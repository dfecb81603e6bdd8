use vstd::prelude::*;

verus! {

/// Search adaptations that can be switched on and off.
#[derive(Debug, Copy, Clone)]
pub struct Adapt {
    pub singular: bool,
}

impl Default for Adapt {
    /// Singular extensions are on by default.
    fn default() -> (r: Self)
        ensures
            r.singular,
    {
        Self { singular: true }
    }
}

} // verus!
