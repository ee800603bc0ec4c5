//! Elo-style rating evaluation for batches of duels between bacchiatori.
//!
//! A [`RankingBuilder`] accumulates competitors and duels, handing out opaque
//! handles that tie each duel to its two participants.  [`RankingBuilder::evaluate`]
//! then runs the rating algorithm once: for every duel it computes an expected
//! score from the pre-batch ratings, selects K-factors from the placement
//! status of both sides, derives an integer rating delta for each side, and
//! finally reports the accumulated delta to every competitor exactly once.
//! All deltas are computed from pre-batch state only, so the outcome does not
//! depend on the order in which duels were registered.

use vstd::prelude::*;

pub mod elo;
mod records;
mod traits;

pub use records::{SimpleBacchiatore, SimpleDuel};
pub use traits::{Bacchiatore, Duel};

use crate::elo::{
    clip_i32, expected_of, expected_score, k_factors, k_factors_of, placing_of, raw_delta_of,
    side_delta,
};

verus! {

/// Rating assigned to a freshly registered bacchiatore.
pub const STARTING_ELO: i32 = 1200;

/// Conditions under which the builder refuses a registration.
#[derive(Clone, Copy, Debug, PartialEq, Eq, Structural)]
#[non_exhaustive]
pub enum RankingError {
    /// A handle passed to `add_duel` lies outside the range of competitors
    /// this builder has registered.
    InvalidHandle,
    /// The two point totals of a duel sum to zero, so it has no observed
    /// score.
    DegenerateDuel,
}

/// Opaque handle of a registered bacchiatore, valid only for the
/// `RankingBuilder` that issued it.  Misuse across builders is detected only
/// when the handle's position is out of range for the consuming builder.
#[derive(Clone, Copy, Debug, PartialEq, Eq, Hash, Structural)]
pub struct RankingBacchiatore {
    index: usize,
}

impl RankingBacchiatore {
    /// Position of the competitor inside the builder that issued this handle.
    pub closed spec fn spec_index(&self) -> int {
        self.index as int
    }
}

/// The pair of rating deltas one duel produces, for its equal and opposite
/// side respectively, given the pre-batch state of all competitors.
pub open spec fn duel_deltas<B: Bacchiatore, D: Duel>(
    competitors: Seq<B>,
    duel: D,
    equal: int,
    opposite: int,
) -> (int, int) {
    let elo_e = competitors[equal].spec_elo();
    let elo_o = competitors[opposite].spec_elo();
    let placing_e = placing_of(
        competitors[equal].spec_total_duels(),
        competitors[equal].spec_total_days(),
    );
    let placing_o = placing_of(
        competitors[opposite].spec_total_duels(),
        competitors[opposite].spec_total_days(),
    );
    let ks = k_factors_of(placing_e, placing_o);
    (
        clip_i32(
            raw_delta_of(
                ks.0,
                duel.spec_equal_points(),
                duel.spec_opposite_points(),
                expected_of(elo_e, elo_o),
            ),
        ),
        clip_i32(
            raw_delta_of(
                ks.1,
                duel.spec_opposite_points(),
                duel.spec_equal_points(),
                expected_of(elo_o, elo_e),
            ),
        ),
    )
}

/// Sum of the deltas competitor `c` receives from the first `upto` duels:
/// the accumulator the evaluation pass builds before reporting.
pub open spec fn total_delta<B: Bacchiatore, D: Duel>(
    competitors: Seq<B>,
    duels: Seq<D>,
    links: Seq<(usize, usize)>,
    c: int,
    upto: int,
) -> int
    decreases upto,
{
    if upto <= 0 {
        0
    } else {
        let j = upto - 1;
        let pair = duel_deltas(competitors, duels[j], links[j].0 as int, links[j].1 as int);
        total_delta(competitors, duels, links, c, j) + (
        if links[j].0 as int == c {
            pair.0
        } else {
            0
        }
        ) + (
        if links[j].1 as int == c {
            pair.1
        } else {
            0
        }
        )
    }
}

/// Each duel contributes at most one clamped delta per side, so the running
/// accumulator stays within `upto` times the `i32` span.
proof fn lemma_total_delta_bound<B: Bacchiatore, D: Duel>(
    competitors: Seq<B>,
    duels: Seq<D>,
    links: Seq<(usize, usize)>,
    c: int,
    upto: int,
)
    requires
        0 <= upto,
    ensures
        -upto * 4294967296 <= total_delta(competitors, duels, links, c, upto) <= upto
            * 4294967296,
    decreases upto,
{
    if upto > 0 {
        lemma_total_delta_bound(competitors, duels, links, c, upto - 1);
    }
}

/// Batches that agree on their first `upto` duels and links accumulate the
/// same totals over that prefix.
proof fn lemma_total_delta_prefix<B: Bacchiatore, D: Duel>(
    competitors: Seq<B>,
    duels1: Seq<D>,
    links1: Seq<(usize, usize)>,
    duels2: Seq<D>,
    links2: Seq<(usize, usize)>,
    c: int,
    upto: int,
)
    requires
        forall|j: int| 0 <= j < upto ==> #[trigger] duels1[j] == duels2[j],
        forall|j: int| 0 <= j < upto ==> #[trigger] links1[j] == links2[j],
    ensures
        total_delta(competitors, duels1, links1, c, upto) == total_delta(
            competitors,
            duels2,
            links2,
            c,
            upto,
        ),
    decreases upto,
{
    if upto > 0 {
        lemma_total_delta_prefix(competitors, duels1, links1, duels2, links2, c, upto - 1);
    }
}

/// Law: the order in which duels are processed does not affect any
/// competitor's accumulated delta.  Swapping two neighbouring duels of the
/// batch — and repeated swaps reach every reordering — leaves every total
/// unchanged, because each duel's deltas depend only on pre-batch state and
/// integer addition commutes.
pub proof fn lemma_total_delta_swap_adjacent<B: Bacchiatore, D: Duel>(
    competitors: Seq<B>,
    duels: Seq<D>,
    links: Seq<(usize, usize)>,
    c: int,
    i: int,
    upto: int,
)
    requires
        0 <= i,
        i + 1 < duels.len(),
        links.len() == duels.len(),
        upto <= duels.len(),
        upto <= i || i + 2 <= upto,
    ensures
        total_delta(
            competitors,
            duels.update(i, duels[i + 1]).update(i + 1, duels[i]),
            links.update(i, links[i + 1]).update(i + 1, links[i]),
            c,
            upto,
        ) == total_delta(competitors, duels, links, c, upto),
    decreases upto,
{
    let duels2 = duels.update(i, duels[i + 1]).update(i + 1, duels[i]);
    let links2 = links.update(i, links[i + 1]).update(i + 1, links[i]);
    if upto <= i {
        lemma_total_delta_prefix(competitors, duels2, links2, duels, links, c, upto);
    } else if upto == i + 2 {
        lemma_total_delta_prefix(competitors, duels2, links2, duels, links, c, i);
        assert(total_delta(competitors, duels2, links2, c, i + 2) == total_delta(
            competitors,
            duels2,
            links2,
            c,
            i + 1,
        ) + (
        if links2[i + 1].0 as int == c {
            duel_deltas(competitors, duels2[i + 1], links2[i + 1].0 as int, links2[i + 1].1 as int).0
        } else {
            0
        }
        ) + (
        if links2[i + 1].1 as int == c {
            duel_deltas(competitors, duels2[i + 1], links2[i + 1].0 as int, links2[i + 1].1 as int).1
        } else {
            0
        }
        ));
        assert(total_delta(competitors, duels, links, c, i + 2) == total_delta(
            competitors,
            duels,
            links,
            c,
            i + 1,
        ) + (
        if links[i + 1].0 as int == c {
            duel_deltas(competitors, duels[i + 1], links[i + 1].0 as int, links[i + 1].1 as int).0
        } else {
            0
        }
        ) + (
        if links[i + 1].1 as int == c {
            duel_deltas(competitors, duels[i + 1], links[i + 1].0 as int, links[i + 1].1 as int).1
        } else {
            0
        }
        ));
    } else {
        lemma_total_delta_swap_adjacent(competitors, duels, links, c, i, upto - 1);
        assert(duels2[upto - 1] == duels[upto - 1]);
        assert(links2[upto - 1] == links[upto - 1]);
    }
}

/// Whether a bacchiatore is still in its placement period: fewer than ten
/// ranked duels, or fewer than two ranked days.
pub fn is_placing<B: Bacchiatore>(bac: &B) -> (r: bool)
    ensures
        r == placing_of(bac.spec_total_duels(), bac.spec_total_days()),
{
    bac.total_duels() < 10 || bac.total_days() < 2
}

/// Accumulator for one evaluation batch: competitors, duels, and the
/// positions linking each duel to its two participants.
pub struct RankingBuilder<B: Bacchiatore, D: Duel> {
    bacchiatori: Vec<B>,
    duels: Vec<D>,
    participants: Vec<(usize, usize)>,
}

impl<B: Bacchiatore, D: Duel> RankingBuilder<B, D> {
    /// The registered competitors, in registration order.
    pub closed spec fn competitors(&self) -> Seq<B> {
        self.bacchiatori@
    }

    /// The registered duels, in registration order.
    pub closed spec fn duels(&self) -> Seq<D> {
        self.duels@
    }

    /// For each duel, the positions of its equal and opposite participant.
    pub closed spec fn links(&self) -> Seq<(usize, usize)> {
        self.participants@
    }

    /// Well-formedness: every duel points at registered competitors and has a
    /// nonzero point sum.  `add_duel` rejects anything else.
    pub open spec fn wf(&self) -> bool {
        &&& self.links().len() == self.duels().len()
        &&& forall|j: int|
            0 <= j < self.links().len() ==> (#[trigger] self.links()[j]).0
                < self.competitors().len() && self.links()[j].1 < self.competitors().len()
        &&& forall|j: int|
            0 <= j < self.duels().len() ==> (#[trigger] self.duels()[j]).spec_equal_points()
                + self.duels()[j].spec_opposite_points() != 0
    }

    /// An empty builder.
    pub fn new() -> (r: Self)
        ensures
            r.competitors().len() == 0,
            r.duels().len() == 0,
            r.links().len() == 0,
            r.wf(),
    {
        RankingBuilder { bacchiatori: Vec::new(), duels: Vec::new(), participants: Vec::new() }
    }

    /// Registers a competitor and returns its handle.  No deduplication takes
    /// place: registering the same logical competitor twice creates two
    /// independent positions.
    pub fn add_bacchiatore(&mut self, bac: B) -> (handle: RankingBacchiatore)
        ensures
            final(self).competitors() == old(self).competitors().push(bac),
            final(self).duels() == old(self).duels(),
            final(self).links() == old(self).links(),
            handle.spec_index() == old(self).competitors().len(),
            old(self).wf() ==> final(self).wf(),
    {
        self.bacchiatori.push(bac);
        RankingBacchiatore { index: self.bacchiatori.len() - 1 }
    }

    /// Registers a duel between two previously registered competitors.
    /// Rejects a handle this builder did not issue (when its position is out
    /// of range) and a duel whose point totals sum to zero, leaving the
    /// builder unchanged in both cases.
    pub fn add_duel(
        &mut self,
        equal: RankingBacchiatore,
        opposite: RankingBacchiatore,
        duel: D,
    ) -> (r: Result<(), RankingError>)
        ensures
            r is Ok <==> (equal.spec_index() < old(self).competitors().len()
                && opposite.spec_index() < old(self).competitors().len()
                && duel.spec_equal_points() + duel.spec_opposite_points() != 0),
            r is Ok ==> {
                &&& final(self).duels() == old(self).duels().push(duel)
                &&& final(self).links() == old(self).links().push(
                    ((equal.spec_index() as usize, opposite.spec_index() as usize)),
                )
                &&& final(self).competitors() == old(self).competitors()
            },
            !(equal.spec_index() < old(self).competitors().len() && opposite.spec_index()
                < old(self).competitors().len()) ==> r == Result::<(), RankingError>::Err(
                RankingError::InvalidHandle,
            ),
            (equal.spec_index() < old(self).competitors().len() && opposite.spec_index()
                < old(self).competitors().len() && duel.spec_equal_points()
                + duel.spec_opposite_points() == 0) ==> r == Result::<(), RankingError>::Err(
                RankingError::DegenerateDuel,
            ),
            r is Err ==> *final(self) == *old(self),
            old(self).wf() ==> final(self).wf(),
    {
        let n = self.bacchiatori.len();
        if equal.index >= n || opposite.index >= n {
            return Err(RankingError::InvalidHandle);
        }
        let pe = duel.equal_points();
        let po = duel.opposite_points();
        if pe as i64 + po as i64 == 0 {
            return Err(RankingError::DegenerateDuel);
        }
        self.duels.push(duel);
        self.participants.push((equal.index, opposite.index));
        Ok(())
    }

    /// Runs the rating algorithm once, consuming the builder.
    ///
    /// Every duel's deltas are computed from the pre-batch ratings alone and
    /// reported to the duel through its two callbacks; every competitor then
    /// receives, exactly once, the clamped sum of its per-duel deltas through
    /// its rating callback.  The updated competitors and duels are returned in
    /// registration order.
    pub fn evaluate(self) -> (r: Result<(Vec<B>, Vec<D>), RankingError>)
        requires
            self.wf(),
        ensures
            r is Ok,
            r->Ok_0.0@.len() == self.competitors().len(),
            r->Ok_0.1@.len() == self.duels().len(),
            forall|c: int|
                0 <= c < self.competitors().len() ==> {
                    let gain = clip_i32(
                        total_delta(
                            self.competitors(),
                            self.duels(),
                            self.links(),
                            c,
                            self.duels().len() as int,
                        ),
                    );
                    &&& (#[trigger] r->Ok_0.0@[c]).spec_elo() == clip_i32(
                        self.competitors()[c].spec_elo() + gain,
                    )
                    &&& r->Ok_0.0@[c].spec_total_duels() == self.competitors()[c].spec_total_duels()
                    &&& r->Ok_0.0@[c].spec_total_days() == self.competitors()[c].spec_total_days()
                },
            forall|j: int|
                0 <= j < self.duels().len() ==> {
                    let pair = duel_deltas(
                        self.competitors(),
                        self.duels()[j],
                        self.links()[j].0 as int,
                        self.links()[j].1 as int,
                    );
                    &&& (#[trigger] r->Ok_0.1@[j]).spec_equal_gain() == Some(pair.0)
                    &&& r->Ok_0.1@[j].spec_opposite_gain() == Some(pair.1)
                    &&& r->Ok_0.1@[j].spec_equal_points() == self.duels()[j].spec_equal_points()
                    &&& r->Ok_0.1@[j].spec_opposite_points() == self.duels()[j]
                        .spec_opposite_points()
                },
    {
        let ghost cs0 = self.competitors();
        let ghost ds0 = self.duels();
        let ghost ls0 = self.links();
        let RankingBuilder { bacchiatori, duels, participants } = self;
        let mut bacchiatori = bacchiatori;
        let mut duels = duels;
        let n = bacchiatori.len();
        let m = duels.len();

        let mut acc: Vec<i128> = Vec::new();
        let mut c: usize = 0;
        while c < n
            invariant
                c <= n,
                acc@.len() == c as int,
                forall|i: int| 0 <= i < c as int ==> acc@[i] == 0,
            decreases n - c,
        {
            acc.push(0);
            c += 1;
        }

        let mut j: usize = 0;
        while j < m
            invariant
                j <= m,
                n == cs0.len(),
                m == ds0.len(),
                bacchiatori@ == cs0,
                participants@ == ls0,
                duels@.len() == ds0.len(),
                ls0.len() == ds0.len(),
                forall|jj: int|
                    0 <= jj < ds0.len() ==> (#[trigger] ls0[jj]).0 < cs0.len() && ls0[jj].1
                        < cs0.len(),
                forall|jj: int|
                    0 <= jj < ds0.len() ==> (#[trigger] ds0[jj]).spec_equal_points()
                        + ds0[jj].spec_opposite_points() != 0,
                forall|jj: int|
                    0 <= jj < j as int ==> {
                        let pair = duel_deltas(cs0, ds0[jj], ls0[jj].0 as int, ls0[jj].1 as int);
                        &&& (#[trigger] duels@[jj]).spec_equal_gain() == Some(pair.0)
                        &&& duels@[jj].spec_opposite_gain() == Some(pair.1)
                        &&& duels@[jj].spec_equal_points() == ds0[jj].spec_equal_points()
                        &&& duels@[jj].spec_opposite_points() == ds0[jj].spec_opposite_points()
                    },
                forall|jj: int| j as int <= jj < ds0.len() ==> duels@[jj] == ds0[jj],
                acc@.len() == cs0.len(),
                forall|cc: int|
                    0 <= cc < cs0.len() ==> acc@[cc] as int == total_delta(
                        cs0,
                        ds0,
                        ls0,
                        cc,
                        j as int,
                    ),
            decreases m - j,
        {
            let pair = participants[j];
            let ie = pair.0;
            let io = pair.1;
            let elo_e = bacchiatori[ie].elo();
            let elo_o = bacchiatori[io].elo();
            let placing_e = is_placing(&bacchiatori[ie]);
            let placing_o = is_placing(&bacchiatori[io]);
            let pe = duels[j].equal_points();
            let po = duels[j].opposite_points();
            proof {
                assert(duels@[j as int] == ds0[j as int]);
                assert(ds0[j as int].spec_equal_points() + ds0[j as int].spec_opposite_points()
                    != 0);
            }
            let ks = k_factors(placing_e, placing_o);
            let ee = expected_score(elo_e, elo_o);
            let eo = expected_score(elo_o, elo_e);
            let d_e = side_delta(ks.0, pe, po, ee);
            let d_o = side_delta(ks.1, po, pe, eo);
            proof {
                assert(duel_deltas(cs0, ds0[j as int], ie as int, io as int).0 == d_e as int);
                assert(duel_deltas(cs0, ds0[j as int], ie as int, io as int).1 == d_o as int);
                lemma_total_delta_bound(cs0, ds0, ls0, ie as int, j as int);
                lemma_total_delta_bound(cs0, ds0, ls0, io as int, j as int);
            }
            let duel = &mut duels[j];
            duel.equal_elo_gain_callback(d_e);
            duel.opposite_elo_gain_callback(d_o);
            let ve: i128 = acc[ie] + (d_e as i128);
            let slot_e = &mut acc[ie];
            *slot_e = ve;
            let vo: i128 = acc[io] + (d_o as i128);
            let slot_o = &mut acc[io];
            *slot_o = vo;
            proof {
                assert forall|cc: int| 0 <= cc < cs0.len() implies acc@[cc] as int == total_delta(
                    cs0,
                    ds0,
                    ls0,
                    cc,
                    j as int + 1,
                ) by {
                    assert(total_delta(cs0, ds0, ls0, cc, j as int + 1) == total_delta(
                        cs0,
                        ds0,
                        ls0,
                        cc,
                        j as int,
                    ) + (
                    if ls0[j as int].0 as int == cc {
                        duel_deltas(
                            cs0,
                            ds0[j as int],
                            ls0[j as int].0 as int,
                            ls0[j as int].1 as int,
                        ).0
                    } else {
                        0
                    }
                    ) + (
                    if ls0[j as int].1 as int == cc {
                        duel_deltas(
                            cs0,
                            ds0[j as int],
                            ls0[j as int].0 as int,
                            ls0[j as int].1 as int,
                        ).1
                    } else {
                        0
                    }
                    ));
                }
            }
            j += 1;
        }

        let mut c: usize = 0;
        while c < n
            invariant
                c <= n,
                n == cs0.len(),
                m == ds0.len(),
                acc@.len() == cs0.len(),
                bacchiatori@.len() == cs0.len(),
                forall|cc: int|
                    0 <= cc < cs0.len() ==> acc@[cc] as int == total_delta(
                        cs0,
                        ds0,
                        ls0,
                        cc,
                        ds0.len() as int,
                    ),
                forall|cc: int| c as int <= cc < cs0.len() ==> bacchiatori@[cc] == cs0[cc],
                forall|cc: int|
                    0 <= cc < c as int ==> {
                        let gain = clip_i32(total_delta(cs0, ds0, ls0, cc, ds0.len() as int));
                        &&& (#[trigger] bacchiatori@[cc]).spec_elo() == clip_i32(
                            cs0[cc].spec_elo() + gain,
                        )
                        &&& bacchiatori@[cc].spec_total_duels() == cs0[cc].spec_total_duels()
                        &&& bacchiatori@[cc].spec_total_days() == cs0[cc].spec_total_days()
                    },
            decreases n - c,
        {
            let g128: i128 = acc[c];
            let g: i32 = if g128 > i32::MAX as i128 {
                i32::MAX
            } else if g128 < i32::MIN as i128 {
                i32::MIN
            } else {
                g128 as i32
            };
            proof {
                assert(g as int == clip_i32(
                    total_delta(cs0, ds0, ls0, c as int, ds0.len() as int),
                ));
            }
            let bac = &mut bacchiatori[c];
            bac.elo_gain_callback(g);
            c += 1;
        }

        Ok((bacchiatori, duels))
    }
}

impl<B: Bacchiatore, D: Duel> Default for RankingBuilder<B, D> {
    /// An empty builder, exactly as [`RankingBuilder::new`] yields it.
    fn default() -> (r: Self)
        ensures
            r.competitors().len() == 0,
            r.duels().len() == 0,
            r.links().len() == 0,
            r.wf(),
    {
        Self::new()
    }
}

/// Law: a batch without duels moves nothing — every competitor's accumulated
/// delta is zero, and a rating within the `i32` range is reported back
/// unchanged.
pub proof fn lemma_zero_duels_keep_elo<B: Bacchiatore, D: Duel>(
    competitors: Seq<B>,
    duels: Seq<D>,
    links: Seq<(usize, usize)>,
    c: int,
)
    requires
        duels.len() == 0,
        i32::MIN as int <= competitors[c].spec_elo() <= i32::MAX as int,
    ensures
        total_delta(competitors, duels, links, c, duels.len() as int) == 0,
        clip_i32(
            competitors[c].spec_elo() + clip_i32(
                total_delta(competitors, duels, links, c, duels.len() as int),
            ),
        ) == competitors[c].spec_elo(),
{
}

/// Law: a duel between two equally rated, equally scoring sides, neither of
/// which is placing, leaves both deltas at zero: each side expects one half,
/// observes one half, and `100 * 0` truncates to zero.
pub proof fn lemma_even_duel_no_movement<B: Bacchiatore, D: Duel>(
    competitors: Seq<B>,
    duel: D,
    equal: int,
    opposite: int,
)
    requires
        0 <= equal < competitors.len(),
        0 <= opposite < competitors.len(),
        competitors[equal].spec_elo() == competitors[opposite].spec_elo(),
        duel.spec_equal_points() == duel.spec_opposite_points(),
        duel.spec_equal_points() + duel.spec_opposite_points() != 0,
        !placing_of(competitors[equal].spec_total_duels(), competitors[equal].spec_total_days()),
        !placing_of(
            competitors[opposite].spec_total_duels(),
            competitors[opposite].spec_total_days(),
        ),
    ensures
        expected_of(competitors[equal].spec_elo(), competitors[opposite].spec_elo())
            == 2147483648,
        duel_deltas(competitors, duel, equal, opposite) == ((0int, 0int)),
{
    let r = competitors[equal].spec_elo();
    let p = duel.spec_equal_points();
    crate::elo::lemma_balanced_duel(r, 100, p);
}

} // verus!
