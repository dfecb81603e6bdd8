use vstd::prelude::*;

verus! {

/// A margin growing linearly with the remaining depth: `base + factor * depth`.
#[derive(Debug, Clone)]
pub struct Threshold {
    base: i16,
    factor: i16,
}

impl Threshold {
    pub closed spec fn spec_base(&self) -> i16 {
        self.base
    }

    pub closed spec fn spec_factor(&self) -> i16 {
        self.factor
    }

    pub fn new(base: i16, factor: i16) -> (r: Self)
        ensures
            r.spec_base() == base,
            r.spec_factor() == factor,
    {
        Self { base, factor }
    }

    /// The depth is converted to `i16` by truncation before multiplying.
    pub fn threshold(&self, depth_left: u32) -> (r: i16)
        requires
            i16::MIN <= self.spec_factor() * (depth_left as i16) <= i16::MAX,
            i16::MIN <= self.spec_base() + self.spec_factor() * (depth_left as i16) <= i16::MAX,
        ensures
            r == self.spec_base() + self.spec_factor() * (depth_left as i16),
    {
        self.base + (self.factor * (depth_left as i16))
    }
}

} // verus!
