use vstd::prelude::*;

verus! {

/// A depth reduction growing linearly with depth: `base + depth * factor / divisor`.
#[derive(Debug, Clone)]
pub struct Reduction {
    base: u32,
    factor: u32,
    divisor: u32,
}

impl Reduction {
    pub closed spec fn spec_base(&self) -> u32 {
        self.base
    }

    pub closed spec fn spec_factor(&self) -> u32 {
        self.factor
    }

    pub closed spec fn spec_divisor(&self) -> u32 {
        self.divisor
    }

    pub fn new(base: u32, factor: u32, divisor: u32) -> (r: Self)
        ensures
            r.spec_base() == base,
            r.spec_factor() == factor,
            r.spec_divisor() == divisor,
    {
        Self { base, factor, divisor }
    }

    pub fn reduction(&self, depth: u32) -> (r: u32)
        requires
            self.spec_divisor() > 0,
            depth * self.spec_factor() <= u32::MAX,
            self.spec_base() + (depth * self.spec_factor()) / (self.spec_divisor() as int) <= u32::MAX,
        ensures
            r == self.spec_base() + (depth * self.spec_factor()) / (self.spec_divisor() as int),
    {
        self.base + (depth * self.factor) / self.divisor
    }
}

} // verus!
