//! Plain in-memory records implementing the capability traits.
//!
//! These are the simplest data types the engine can rank: a competitor that
//! stores its rating and counters directly, and a duel that stores its two
//! point totals and remembers the gains reported to it.

use vstd::prelude::*;
use crate::elo::clip_i32;
use crate::traits::{Bacchiatore, Duel};

verus! {

/// A competitor record holding its state in plain fields.
pub struct SimpleBacchiatore {
    /// Current rating.
    pub elo: i32,
    /// Count of already-ranked duels.
    pub total_duels: u32,
    /// Count of days with at least one already-ranked duel.
    pub total_days: u32,
}

impl SimpleBacchiatore {
    /// A competitor with the given pre-batch rating and counters.
    pub fn new(elo: i32, total_duels: u32, total_days: u32) -> (r: SimpleBacchiatore)
        ensures
            r.spec_elo() == elo as int,
            r.spec_total_duels() == total_duels as int,
            r.spec_total_days() == total_days as int,
    {
        SimpleBacchiatore { elo, total_duels, total_days }
    }
}

impl Bacchiatore for SimpleBacchiatore {
    open spec fn spec_elo(&self) -> int {
        self.elo as int
    }

    open spec fn spec_total_duels(&self) -> int {
        self.total_duels as int
    }

    open spec fn spec_total_days(&self) -> int {
        self.total_days as int
    }

    fn elo(&self) -> (r: i32) {
        self.elo
    }

    fn total_duels(&self) -> (r: u32) {
        self.total_duels
    }

    fn total_days(&self) -> (r: u32) {
        self.total_days
    }

    fn elo_gain_callback(&mut self, elo_gain: i32) {
        let sum: i64 = self.elo as i64 + elo_gain as i64;
        self.elo = if sum > i32::MAX as i64 {
            i32::MAX
        } else if sum < i32::MIN as i64 {
            i32::MIN
        } else {
            sum as i32
        };
    }
}

/// A duel record holding its two point totals and the reported gains.
pub struct SimpleDuel {
    /// Points scored by the equal side.
    pub equal_points: i32,
    /// Points scored by the opposite side.
    pub opposite_points: i32,
    /// Gain reported for the equal side, once the duel has been evaluated.
    pub equal_gain: Option<i32>,
    /// Gain reported for the opposite side, once the duel has been evaluated.
    pub opposite_gain: Option<i32>,
}

impl SimpleDuel {
    /// A fresh duel with the given points and no reported gains yet.
    pub fn new(equal_points: i32, opposite_points: i32) -> (r: SimpleDuel)
        ensures
            r.spec_equal_points() == equal_points as int,
            r.spec_opposite_points() == opposite_points as int,
            r.spec_equal_gain() is None,
            r.spec_opposite_gain() is None,
    {
        SimpleDuel { equal_points, opposite_points, equal_gain: None, opposite_gain: None }
    }
}

impl Duel for SimpleDuel {
    open spec fn spec_equal_points(&self) -> int {
        self.equal_points as int
    }

    open spec fn spec_opposite_points(&self) -> int {
        self.opposite_points as int
    }

    open spec fn spec_equal_gain(&self) -> Option<int> {
        match self.equal_gain {
            Some(g) => Some(g as int),
            None => None,
        }
    }

    open spec fn spec_opposite_gain(&self) -> Option<int> {
        match self.opposite_gain {
            Some(g) => Some(g as int),
            None => None,
        }
    }

    fn equal_points(&self) -> (r: i32) {
        self.equal_points
    }

    fn opposite_points(&self) -> (r: i32) {
        self.opposite_points
    }

    fn equal_elo_gain_callback(&mut self, elo_gain: i32) {
        self.equal_gain = Some(elo_gain);
    }

    fn opposite_elo_gain_callback(&mut self, elo_gain: i32) {
        self.opposite_gain = Some(elo_gain);
    }
}

} // verus!
