use vstd::prelude::*;

verus! {

/// A search constant that the tuner can set: one of the exchange values of `bm_search::see`.
#[derive(Debug, Clone, Copy, PartialEq, Eq)]
pub enum TunedValue {
    Pawn,
    Minor,
    Rook,
    Queen,
}

/// The tunable search constants, each with the range of values it may be tuned in.
pub struct SearchTuner {
    parameters: Vec<TunedValue>,
    ranges: Vec<(i16, i16)>,
}

impl SearchTuner {
    pub closed spec fn spec_parameters(&self) -> Seq<TunedValue> {
        self.parameters@
    }

    pub closed spec fn spec_ranges(&self) -> Seq<(i16, i16)> {
        self.ranges@
    }

    /// Each parameter has one range.
    pub closed spec fn wf(&self) -> bool {
        self.parameters@.len() == self.ranges@.len()
    }

    fn add(&mut self, value: TunedValue, min: i16, max: i16)
        ensures
            final(self).spec_parameters() == old(self).spec_parameters().push(value),
            final(self).spec_ranges() == old(self).spec_ranges().push((min, max)),
    {
        self.parameters.push(value);
        self.ranges.push((min, max));
    }

    /// The number of tunable parameters.
    pub fn param_count(&self) -> (r: usize)
        ensures
            r == self.spec_parameters().len(),
    {
        self.parameters.len()
    }
}

/// The tuner of the exchange values: pawn in 50..150, minor piece in 250..350,
/// rook in 400..600 and queen in 700..1100.
pub fn create() -> (t: SearchTuner)
    ensures
        t.wf(),
        t.spec_parameters() == seq![TunedValue::Pawn, TunedValue::Minor, TunedValue::Rook, TunedValue::Queen],
        t.spec_ranges() == seq![(50i16, 150i16), (250i16, 350i16), (400i16, 600i16), (700i16, 1100i16)],
{
    let mut tuner = SearchTuner { parameters: Vec::new(), ranges: Vec::new() };
    tuner.add(TunedValue::Pawn, 50, 150);
    tuner.add(TunedValue::Minor, 250, 350);
    tuner.add(TunedValue::Rook, 400, 600);
    tuner.add(TunedValue::Queen, 700, 1100);
    tuner
}

} // verus!
