use vstd::prelude::*;

verus! {

/// A table of values precomputed for each depth; deeper lookups use the last entry.
#[derive(Clone, Debug)]
pub struct LookUp<T: Copy, const DEPTH: usize> {
    table: Vec<T>,
}

impl<T: Copy, const DEPTH: usize> LookUp<T, DEPTH> {
    pub closed spec fn spec_table(&self) -> Seq<T> {
        self.table@
    }

    pub fn new<F: Fn(usize) -> T>(init: F) -> (r: Self)
        requires
            forall|d: usize| d < DEPTH ==> call_requires(init, (d,)),
        ensures
            r.spec_table().len() == DEPTH,
            forall|d: usize| d < DEPTH ==> call_ensures(init, (d,), #[trigger] r.spec_table()[d as int]),
    {
        let mut table: Vec<T> = Vec::new();
        let mut d: usize = 0;
        while d < DEPTH
            invariant
                d <= DEPTH,
                table.len() == d,
                forall|k: usize| k < DEPTH ==> call_requires(init, (k,)),
                forall|k: usize| k < d ==> call_ensures(init, (k,), #[trigger] table@[k as int]),
            decreases DEPTH - d,
        {
            let v = init(d);
            table.push(v);
            d += 1;
        }
        Self { table }
    }

    pub fn get(&self, depth: usize) -> (r: T)
        requires
            DEPTH > 0,
            self.spec_table().len() == DEPTH,
        ensures
            r == self.spec_table()[if depth < DEPTH { depth as int } else { DEPTH - 1 }],
    {
        let i = if depth < DEPTH { depth } else { DEPTH - 1 };
        self.table[i]
    }
}

/// A table of values precomputed for each (depth, move number); larger indices are clamped.
#[derive(Clone, Debug)]
pub struct LookUp2d<T: Copy, const DEPTH: usize, const MOVE: usize> {
    table: Vec<T>,
}

impl<T: Copy, const DEPTH: usize, const MOVE: usize> LookUp2d<T, DEPTH, MOVE> {
    pub closed spec fn spec_table(&self) -> Seq<T> {
        self.table@
    }

    pub open spec fn spec_at(&self, depth: int, mv: int) -> T {
        self.spec_table()[depth * MOVE + mv]
    }

    pub fn new<F: Fn(usize, usize) -> T>(init: F) -> (r: Self)
        requires
            DEPTH * MOVE <= usize::MAX,
            forall|d: usize, m: usize| d < DEPTH && m < MOVE ==> call_requires(init, (d, m)),
        ensures
            r.spec_table().len() == DEPTH * MOVE,
            forall|d: usize, m: usize|
                d < DEPTH && m < MOVE ==> call_ensures(init, (d, m), #[trigger] r.spec_at(d as int, m as int)),
    {
        let mut table: Vec<T> = Vec::new();
        let mut d: usize = 0;
        while d < DEPTH
            invariant
                d <= DEPTH,
                DEPTH * MOVE <= usize::MAX,
                table.len() == d * MOVE,
                forall|a: usize, b: usize| a < DEPTH && b < MOVE ==> call_requires(init, (a, b)),
                forall|a: usize, b: usize|
                    a < d && b < MOVE ==> call_ensures(init, (a, b), #[trigger] table@[a * MOVE + b]),
            decreases DEPTH - d,
        {
            let mut m: usize = 0;
            while m < MOVE
                invariant
                    d < DEPTH,
                    m <= MOVE,
                    DEPTH * MOVE <= usize::MAX,
                    table.len() == d * MOVE + m,
                    forall|a: usize, b: usize| a < DEPTH && b < MOVE ==> call_requires(init, (a, b)),
                    forall|a: usize, b: usize|
                        (a < d && b < MOVE) || (a == d && b < m) ==> call_ensures(
                            init,
                            (a, b),
                            #[trigger] table@[a * MOVE + b],
                        ),
                decreases MOVE - m,
            {
                proof {
                    assert(d * MOVE + m < DEPTH * MOVE) by (nonlinear_arith)
                        requires
                            d < DEPTH,
                            m < MOVE,
                    ;
                }
                let v = init(d, m);
                table.push(v);
                proof {
                    assert forall|a: usize, b: usize|
                        (a < d && b < MOVE) || (a == d && b < m + 1) implies call_ensures(
                        init,
                        (a, b),
                        #[trigger] table@[a * MOVE + b],
                    ) by {
                        if a < d {
                            assert(a * MOVE + b < d * MOVE) by (nonlinear_arith)
                                requires
                                    a < d,
                                    b < MOVE,
                            ;
                        }
                    }
                }
                m += 1;
            }
            proof {
                assert((d + 1) * MOVE == d * MOVE + MOVE) by (nonlinear_arith);
            }
            d += 1;
        }
        Self { table }
    }

    pub fn get(&self, depth: usize, mv: usize) -> (r: T)
        requires
            DEPTH > 0,
            MOVE > 0,
            self.spec_table().len() == DEPTH * MOVE,
        ensures
            r == self.spec_at(
                if depth < DEPTH { depth as int } else { DEPTH - 1 },
                if mv < MOVE { mv as int } else { MOVE - 1 },
            ),
    {
        let d = if depth < DEPTH { depth } else { DEPTH - 1 };
        let m = if mv < MOVE { mv } else { MOVE - 1 };
        proof {
            assert(self.table@.len() == self.table.len());
            assert(d * MOVE + m < DEPTH * MOVE) by (nonlinear_arith)
                requires
                    d < DEPTH,
                    m < MOVE,
            ;
        }
        self.table[d * MOVE + m]
    }
}

} // verus!
