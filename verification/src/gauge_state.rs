//! Progress of a batch of downloads, counted in steps.
//!
//! Each download is worth four steps (video found, thumbnail fetched,
//! metadata built, file written), so the gauge holds whole numbers: the
//! numerator counts the steps done and the denominator the steps planned.

use vstd::prelude::*;

verus! {

/// Steps done (`numer`) out of steps planned (`denom`).
pub struct GaugeState {
    pub numer: u64,
    pub denom: u64,
}

impl GaugeState {
    /// The gauge with one more step done (the count stops at its largest
    /// value).
    pub open spec fn one_step_more(self) -> GaugeState {
        GaugeState { numer: self.numer.saturating_add(1), denom: self.denom }
    }

    /// The gauge with `num` more steps done (the count stops at its
    /// largest value).
    pub open spec fn steps_more(self, num: u64) -> GaugeState {
        GaugeState { numer: self.numer.saturating_add(num), denom: self.denom }
    }

    /// One more step done.
    pub fn increase_numerator(&mut self)
        ensures
            final(self).numer == old(self).numer.saturating_add(1),
            final(self).denom == old(self).denom,
            *final(self) == old(self).one_step_more(),
    {
        self.numer = self.numer.saturating_add(1);
    }

    /// Sets the number of steps done.
    pub fn set_numerator(&mut self, new_numer: u64)
        ensures
            final(self).numer == new_numer,
            final(self).denom == old(self).denom,
    {
        self.numer = new_numer;
    }

    /// Sets the number of steps planned.
    pub fn set_denominator(&mut self, new_denom: u64)
        ensures
            final(self).numer == old(self).numer,
            final(self).denom == new_denom,
    {
        self.denom = new_denom;
    }

    /// `num` more steps done.
    pub fn increase_numerator_by(&mut self, num: u64)
        ensures
            final(self).numer == old(self).numer.saturating_add(num),
            final(self).denom == old(self).denom,
            *final(self) == old(self).steps_more(num),
    {
        self.numer = self.numer.saturating_add(num);
    }
}

/// One step more is the same as one step more by count: `increase_numerator`
/// and `increase_numerator_by(1)` leave equal gauges.
pub proof fn lemma_one_step_is_step_by_one(g: GaugeState)
    ensures
        g.one_step_more() == g.steps_more(1),
{
}

/// Steps added in two goes add up, as long as the total fits.
pub proof fn lemma_steps_add_up(g: GaugeState, a: u64, b: u64)
    requires
        g.numer + a + b <= u64::MAX,
    ensures
        g.steps_more(a).steps_more(b) == g.steps_more((a + b) as u64),
        g.steps_more(a).steps_more(b).numer == g.numer + a + b,
{
}

} // verus!
