//! Capability interfaces through which the rating engine reads caller-owned
//! competitor and duel records and reports its results back.
//!
//! Each trait pairs its executable methods with spec functions modelling the
//! state the methods expose.  Implementations are free in how they store that
//! state; the contracts only tie what the getters return, and what the
//! callbacks leave behind, to the model.

use vstd::prelude::*;

verus! {

/// Trait representing a bacchiatore.
pub trait Bacchiatore {
    /// Model of the stored rating.
    spec fn spec_elo(&self) -> int;

    /// Model of the count of already-ranked duels.
    spec fn spec_total_duels(&self) -> int;

    /// Model of the count of days with at least one already-ranked duel.
    spec fn spec_total_days(&self) -> int;

    /// Returns the current elo of the bacchiatore.
    fn elo(&self) -> (r: i32)
        ensures
            r as int == self.spec_elo(),
    ;

    /// Returns the number of *already-ranked* duels played by this bacchiatore.
    fn total_duels(&self) -> (r: u32)
        ensures
            r as int == self.spec_total_duels(),
    ;

    /// Returns the number of days in which this bacchiatore played an
    /// *already-ranked* duel.
    fn total_days(&self) -> (r: u32)
        ensures
            r as int == self.spec_total_days(),
    ;

    /// Called at the end of the elo calculation with the elo increase or
    /// decrease for this bacchiatore.  The stored rating grows by the reported
    /// gain, saturating at the `i32` bounds; the counters are untouched.
    fn elo_gain_callback(&mut self, elo_gain: i32)
        ensures
            final(self).spec_elo() == crate::elo::clip_i32(
                old(self).spec_elo() + elo_gain as int,
            ),
            final(self).spec_total_duels() == old(self).spec_total_duels(),
            final(self).spec_total_days() == old(self).spec_total_days(),
    ;
}

/// Trait representing a duel.
pub trait Duel {
    /// Model of the points scored by the equal side.
    spec fn spec_equal_points(&self) -> int;

    /// Model of the points scored by the opposite side.
    spec fn spec_opposite_points(&self) -> int;

    /// Model of the elo gain last reported for the equal side, if any.
    spec fn spec_equal_gain(&self) -> Option<int>;

    /// Model of the elo gain last reported for the opposite side, if any.
    spec fn spec_opposite_gain(&self) -> Option<int>;

    /// Returns the points done by equal.
    fn equal_points(&self) -> (r: i32)
        ensures
            r as int == self.spec_equal_points(),
    ;

    /// Returns the points done by opposite.
    fn opposite_points(&self) -> (r: i32)
        ensures
            r as int == self.spec_opposite_points(),
    ;

    /// Called at the end of the elo calculation with the elo increase or
    /// decrease for equal.  Only the recorded gain for the equal side changes.
    fn equal_elo_gain_callback(&mut self, elo_gain: i32)
        ensures
            final(self).spec_equal_gain() == Some(elo_gain as int),
            final(self).spec_opposite_gain() == old(self).spec_opposite_gain(),
            final(self).spec_equal_points() == old(self).spec_equal_points(),
            final(self).spec_opposite_points() == old(self).spec_opposite_points(),
    ;

    /// Called at the end of the elo calculation with the elo increase or
    /// decrease for opposite.  Only the recorded gain for the opposite side
    /// changes.
    fn opposite_elo_gain_callback(&mut self, elo_gain: i32)
        ensures
            final(self).spec_opposite_gain() == Some(elo_gain as int),
            final(self).spec_equal_gain() == old(self).spec_equal_gain(),
            final(self).spec_equal_points() == old(self).spec_equal_points(),
            final(self).spec_opposite_points() == old(self).spec_opposite_points(),
    ;
}

} // verus!
