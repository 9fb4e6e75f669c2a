//! Telemetry of the feasibility filter: how many candidates passed and why
//! the others were rejected.

use vstd::prelude::*;

verus! {

/// The kind of a feasibility rejection (the measured values that come with a
/// rejection are not needed to count it).
#[derive(Debug, Clone, Copy, PartialEq, Eq, Structural)]
pub enum RejectCategory {
    DeadSignal,
    RailSaturation,
    DcOffsetTooHigh,
    PhaseInstability,
    MissingSimulationData,
}

/// Counters of filter decisions by outcome.
#[derive(Debug, Clone, PartialEq)]
pub struct FilterStats {
    pub total_evaluated: usize,
    pub passed: usize,
    pub dead_signal: usize,
    pub rail_saturation: usize,
    pub dc_offset: usize,
    pub phase_instability: usize,
    pub missing_data: usize,
}

/// `s2` is `s` with one more decision of outcome `result` counted.
pub open spec fn recorded(s: FilterStats, s2: FilterStats, result: Result<(), RejectCategory>) -> bool {
    let bump = |hit: bool, n: usize| if hit {
        n + 1
    } else {
        n as int
    };
    &&& s2.total_evaluated == s.total_evaluated + 1
    &&& s2.passed == bump(result is Ok, s.passed)
    &&& s2.dead_signal == bump(result == Err::<(), RejectCategory>(RejectCategory::DeadSignal), s.dead_signal)
    &&& s2.rail_saturation == bump(
        result == Err::<(), RejectCategory>(RejectCategory::RailSaturation),
        s.rail_saturation,
    )
    &&& s2.dc_offset == bump(result == Err::<(), RejectCategory>(RejectCategory::DcOffsetTooHigh), s.dc_offset)
    &&& s2.phase_instability == bump(
        result == Err::<(), RejectCategory>(RejectCategory::PhaseInstability),
        s.phase_instability,
    )
    &&& s2.missing_data == bump(
        result == Err::<(), RejectCategory>(RejectCategory::MissingSimulationData),
        s.missing_data,
    )
}

/// Sum of the outcome counters.
pub open spec fn outcome_total(s: FilterStats) -> int {
    s.passed + s.dead_signal + s.rail_saturation + s.dc_offset + s.phase_instability + s.missing_data
}

/// The filter counters balance: the total equals the sum of the outcome
/// counters.
pub open spec fn filter_balanced(s: FilterStats) -> bool {
    s.total_evaluated == outcome_total(s)
}

impl FilterStats {
    /// All counters at zero.
    pub fn new() -> (s: Self)
        ensures
            s.total_evaluated == 0 && s.passed == 0 && s.dead_signal == 0 && s.rail_saturation == 0
                && s.dc_offset == 0 && s.phase_instability == 0 && s.missing_data == 0,
            filter_balanced(s),
    {
        FilterStats {
            total_evaluated: 0,
            passed: 0,
            dead_signal: 0,
            rail_saturation: 0,
            dc_offset: 0,
            phase_instability: 0,
            missing_data: 0,
        }
    }

    /// Counts one filter decision under its outcome.
    pub fn record(&mut self, result: &Result<(), RejectCategory>)
        requires
            old(self).total_evaluated < usize::MAX,
            old(self).passed < usize::MAX,
            old(self).dead_signal < usize::MAX,
            old(self).rail_saturation < usize::MAX,
            old(self).dc_offset < usize::MAX,
            old(self).phase_instability < usize::MAX,
            old(self).missing_data < usize::MAX,
        ensures
            recorded(*old(self), *final(self), *result),
            outcome_total(*final(self)) == outcome_total(*old(self)) + 1,
            filter_balanced(*old(self)) ==> filter_balanced(*final(self)),
    {
        self.total_evaluated = self.total_evaluated + 1;
        match result {
            Ok(()) => self.passed = self.passed + 1,
            Err(RejectCategory::DeadSignal) => self.dead_signal = self.dead_signal + 1,
            Err(RejectCategory::RailSaturation) => self.rail_saturation = self.rail_saturation + 1,
            Err(RejectCategory::DcOffsetTooHigh) => self.dc_offset = self.dc_offset + 1,
            Err(RejectCategory::PhaseInstability) => self.phase_instability = self.phase_instability
                + 1,
            Err(RejectCategory::MissingSimulationData) => self.missing_data = self.missing_data + 1,
        }
    }
}

impl Default for FilterStats {
    fn default() -> (s: Self)
        ensures
            s.total_evaluated == 0 && s.passed == 0 && s.dead_signal == 0 && s.rail_saturation == 0
                && s.dc_offset == 0 && s.phase_instability == 0 && s.missing_data == 0,
    {
        FilterStats::new()
    }
}

/// Every decision is counted exactly once: starting from zero, the total
/// always equals the sum of the outcome counters.
pub proof fn lemma_filter_stats_balance(s: FilterStats, s2: FilterStats, result: Result<(), RejectCategory>)
    requires
        s.total_evaluated == outcome_total(s),
        recorded(s, s2, result),
    ensures
        s2.total_evaluated == outcome_total(s2),
{
    match result {
        Ok(()) => {},
        Err(RejectCategory::DeadSignal) => {},
        Err(RejectCategory::RailSaturation) => {},
        Err(RejectCategory::DcOffsetTooHigh) => {},
        Err(RejectCategory::PhaseInstability) => {},
        Err(RejectCategory::MissingSimulationData) => {},
    }
}

} // verus!
