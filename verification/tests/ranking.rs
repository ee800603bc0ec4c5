//! End-to-end behaviour of the rating engine on concrete batches.

use bacrama_ranking::{
    is_placing, RankingBuilder, RankingError, SimpleBacchiatore, SimpleDuel, STARTING_ELO,
};

#[test]
fn even_placing_duel_moves_fifty() {
    let mut builder = RankingBuilder::new();
    let a = builder.add_bacchiatore(SimpleBacchiatore::new(1200, 0, 0));
    let b = builder.add_bacchiatore(SimpleBacchiatore::new(1200, 0, 0));
    builder.add_duel(a, b, SimpleDuel::new(3, 1)).unwrap();
    let (bacs, duels) = builder.evaluate().unwrap();
    assert_eq!(duels[0].equal_gain, Some(50));
    assert_eq!(duels[0].opposite_gain, Some(-50));
    assert_eq!(bacs[0].elo, 1250);
    assert_eq!(bacs[1].elo, 1150);
}

#[test]
fn veteran_shielded_against_placing_opponent() {
    let mut builder = RankingBuilder::new();
    let veteran = builder.add_bacchiatore(SimpleBacchiatore::new(1400, 50, 30));
    let newcomer = builder.add_bacchiatore(SimpleBacchiatore::new(1200, 2, 1));
    builder.add_duel(veteran, newcomer, SimpleDuel::new(2, 0)).unwrap();
    let (bacs, duels) = builder.evaluate().unwrap();
    assert_eq!(duels[0].equal_gain, Some(17));
    assert_eq!(duels[0].opposite_gain, Some(-71));
    assert_eq!(bacs[0].elo, 1417);
    assert_eq!(bacs[1].elo, 1129);
}

#[test]
fn zero_duels_keep_ratings() {
    let mut builder: RankingBuilder<SimpleBacchiatore, SimpleDuel> = RankingBuilder::new();
    builder.add_bacchiatore(SimpleBacchiatore::new(1234, 5, 3));
    builder.add_bacchiatore(SimpleBacchiatore::new(987, 0, 0));
    let (bacs, duels) = builder.evaluate().unwrap();
    assert!(duels.is_empty());
    assert_eq!(bacs[0].elo, 1234);
    assert_eq!(bacs[1].elo, 987);
}

#[test]
fn truncation_is_toward_zero() {
    // Raw deltas of -0.9 / +0.9: both store 0.
    let mut builder = RankingBuilder::new();
    let a = builder.add_bacchiatore(SimpleBacchiatore::new(1200, 20, 10));
    let b = builder.add_bacchiatore(SimpleBacchiatore::new(1200, 20, 10));
    builder.add_duel(a, b, SimpleDuel::new(491, 509)).unwrap();
    let (bacs, duels) = builder.evaluate().unwrap();
    assert_eq!(duels[0].equal_gain, Some(0));
    assert_eq!(duels[0].opposite_gain, Some(0));
    assert_eq!(bacs[0].elo, 1200);
    assert_eq!(bacs[1].elo, 1200);

    // Raw deltas of -1.1 / +1.1: stored as -1 / 1, not -2 / 1.
    let mut builder = RankingBuilder::new();
    let a = builder.add_bacchiatore(SimpleBacchiatore::new(1200, 20, 10));
    let b = builder.add_bacchiatore(SimpleBacchiatore::new(1200, 20, 10));
    builder.add_duel(a, b, SimpleDuel::new(489, 511)).unwrap();
    let (bacs, duels) = builder.evaluate().unwrap();
    assert_eq!(duels[0].equal_gain, Some(-1));
    assert_eq!(duels[0].opposite_gain, Some(1));
    assert_eq!(bacs[0].elo, 1199);
    assert_eq!(bacs[1].elo, 1201);
}

fn run_single_duel(
    equal: SimpleBacchiatore,
    opposite: SimpleBacchiatore,
    duel: SimpleDuel,
) -> (Vec<SimpleBacchiatore>, Vec<SimpleDuel>) {
    let mut builder = RankingBuilder::new();
    let a = builder.add_bacchiatore(equal);
    let b = builder.add_bacchiatore(opposite);
    builder.add_duel(a, b, duel).unwrap();
    builder.evaluate().unwrap()
}

#[test]
fn k_factor_table_is_exhaustive() {
    let placing = || SimpleBacchiatore::new(1200, 0, 0);
    let established = || SimpleBacchiatore::new(1200, 50, 30);

    // Both placing: K = 200/200, observed 0.75 vs expected 0.5.
    let (_, duels) = run_single_duel(placing(), placing(), SimpleDuel::new(3, 1));
    assert_eq!(duels[0].equal_gain, Some(50));
    assert_eq!(duels[0].opposite_gain, Some(-50));

    // Equal placing, opposite established: K = 200/50; -12.5 truncates to -12.
    let (_, duels) = run_single_duel(placing(), established(), SimpleDuel::new(3, 1));
    assert_eq!(duels[0].equal_gain, Some(50));
    assert_eq!(duels[0].opposite_gain, Some(-12));

    // Equal established, opposite placing: K = 50/200.
    let (_, duels) = run_single_duel(established(), placing(), SimpleDuel::new(3, 1));
    assert_eq!(duels[0].equal_gain, Some(12));
    assert_eq!(duels[0].opposite_gain, Some(-50));

    // Neither placing: K = 100/100.
    let (_, duels) = run_single_duel(established(), established(), SimpleDuel::new(3, 1));
    assert_eq!(duels[0].equal_gain, Some(25));
    assert_eq!(duels[0].opposite_gain, Some(-25));
}

#[test]
fn degenerate_duel_is_rejected() {
    let mut builder = RankingBuilder::new();
    let a = builder.add_bacchiatore(SimpleBacchiatore::new(1200, 0, 0));
    let b = builder.add_bacchiatore(SimpleBacchiatore::new(1200, 0, 0));
    assert_eq!(
        builder.add_duel(a, b, SimpleDuel::new(0, 0)),
        Err(RankingError::DegenerateDuel)
    );
    assert_eq!(
        builder.add_duel(a, b, SimpleDuel::new(5, -5)),
        Err(RankingError::DegenerateDuel)
    );
    // The rejected duels left the builder unchanged.
    let (bacs, duels) = builder.evaluate().unwrap();
    assert!(duels.is_empty());
    assert_eq!(bacs[0].elo, 1200);
}

#[test]
fn out_of_range_handle_is_rejected() {
    let mut other: RankingBuilder<SimpleBacchiatore, SimpleDuel> = RankingBuilder::new();
    other.add_bacchiatore(SimpleBacchiatore::new(1200, 0, 0));
    let foreign = other.add_bacchiatore(SimpleBacchiatore::new(1200, 0, 0));

    let mut builder = RankingBuilder::new();
    let local = builder.add_bacchiatore(SimpleBacchiatore::new(1200, 0, 0));
    assert_eq!(
        builder.add_duel(local, foreign, SimpleDuel::new(3, 1)),
        Err(RankingError::InvalidHandle)
    );
    assert_eq!(
        builder.add_duel(foreign, local, SimpleDuel::new(3, 1)),
        Err(RankingError::InvalidHandle)
    );
    let (_, duels) = builder.evaluate().unwrap();
    assert!(duels.is_empty());
}

#[test]
fn placement_period_boundaries() {
    assert!(is_placing(&SimpleBacchiatore::new(1200, 0, 0)));
    assert!(is_placing(&SimpleBacchiatore::new(1200, 9, 5)));
    assert!(is_placing(&SimpleBacchiatore::new(1200, 10, 1)));
    assert!(is_placing(&SimpleBacchiatore::new(1200, 100, 0)));
    assert!(!is_placing(&SimpleBacchiatore::new(1200, 10, 2)));
    assert!(!is_placing(&SimpleBacchiatore::new(1200, 50, 30)));
}

#[test]
fn symmetric_duel_gains_cancel() {
    let (bacs, duels) = run_single_duel(
        SimpleBacchiatore::new(1300, 50, 30),
        SimpleBacchiatore::new(1100, 60, 40),
        SimpleDuel::new(7, 3),
    );
    assert_eq!(duels[0].equal_gain, Some(5));
    assert_eq!(duels[0].opposite_gain, Some(-5));
    assert_eq!(bacs[0].elo, 1305);
    assert_eq!(bacs[1].elo, 1095);
}

#[test]
fn accumulated_delta_is_sum_of_per_duel_deltas() {
    let mut builder = RankingBuilder::new();
    let a = builder.add_bacchiatore(SimpleBacchiatore::new(1200, 0, 0));
    let b = builder.add_bacchiatore(SimpleBacchiatore::new(1200, 0, 0));
    let c = builder.add_bacchiatore(SimpleBacchiatore::new(1200, 0, 0));
    builder.add_duel(a, b, SimpleDuel::new(3, 1)).unwrap();
    builder.add_duel(a, c, SimpleDuel::new(1, 3)).unwrap();
    let (bacs, duels) = builder.evaluate().unwrap();
    let a_total = duels[0].equal_gain.unwrap() + duels[1].equal_gain.unwrap();
    assert_eq!(duels[0].equal_gain, Some(50));
    assert_eq!(duels[1].equal_gain, Some(-50));
    assert_eq!(a_total, 0);
    assert_eq!(bacs[0].elo, 1200);
    assert_eq!(bacs[1].elo, 1150);
    assert_eq!(bacs[2].elo, 1250);
}

#[test]
fn negative_points_are_ranked() {
    let (bacs, duels) = run_single_duel(
        SimpleBacchiatore::new(1200, 0, 0),
        SimpleBacchiatore::new(1200, 0, 0),
        SimpleDuel::new(-1, 3),
    );
    // Observed score of the equal side is -1/2 = -0.5, expected 0.5, K = 200.
    assert_eq!(duels[0].equal_gain, Some(-200));
    assert_eq!(duels[0].opposite_gain, Some(200));
    assert_eq!(bacs[0].elo, 1000);
    assert_eq!(bacs[1].elo, 1400);
}

#[test]
fn starting_elo_is_twelve_hundred() {
    assert_eq!(STARTING_ELO, 1200);
}

#[test]
fn default_builder_is_empty() {
    let builder: RankingBuilder<SimpleBacchiatore, SimpleDuel> = RankingBuilder::default();
    let (bacs, duels) = builder.evaluate().unwrap();
    assert!(bacs.is_empty());
    assert!(duels.is_empty());
}

#[test]
fn handles_are_issued_in_registration_order() {
    let mut builder = RankingBuilder::new();
    let a = builder.add_bacchiatore(SimpleBacchiatore::new(1200, 0, 0));
    let b = builder.add_bacchiatore(SimpleBacchiatore::new(1300, 0, 0));
    let c = builder.add_bacchiatore(SimpleBacchiatore::new(1400, 0, 0));
    assert_ne!(a, b);
    assert_ne!(b, c);
    builder.add_duel(a, c, SimpleDuel::new(2, 2)).unwrap();
    let (bacs, _) = builder.evaluate().unwrap();
    // The lower-rated side overperforms an even score and gains.
    assert_eq!(bacs[0].elo, 1228);
    assert_eq!(bacs[1].elo, 1300);
    assert_eq!(bacs[2].elo, 1372);
}

#[test]
fn self_duel_accumulates_both_sides() {
    let mut builder = RankingBuilder::new();
    let a = builder.add_bacchiatore(SimpleBacchiatore::new(1200, 0, 0));
    builder.add_duel(a, a, SimpleDuel::new(3, 1)).unwrap();
    let (bacs, duels) = builder.evaluate().unwrap();
    assert_eq!(duels[0].equal_gain, Some(50));
    assert_eq!(duels[0].opposite_gain, Some(-50));
    // Both deltas land on the same competitor and cancel out.
    assert_eq!(bacs[0].elo, 1200);
}

#[test]
fn extreme_rating_gap_saturates_expectation() {
    // Beyond a gap of 12000 points the favourite's expected score is exactly
    // one, so an underdog victory earns the full K-factor.
    let (bacs, duels) = run_single_duel(
        SimpleBacchiatore::new(1200, 0, 0),
        SimpleBacchiatore::new(1000000, 0, 0),
        SimpleDuel::new(1, 0),
    );
    assert_eq!(duels[0].equal_gain, Some(200));
    assert_eq!(duels[0].opposite_gain, Some(-200));
    assert_eq!(bacs[0].elo, 1400);
    assert_eq!(bacs[1].elo, 999800);
}

#[test]
fn deltas_and_ratings_clamp_at_i32_bounds() {
    // A huge negative observed score pushes the raw delta far outside the
    // `i32` range: the stored delta clamps, and applying the positive delta
    // to the opposite side saturates its rating at `i32::MAX`.
    let (bacs, duels) = run_single_duel(
        SimpleBacchiatore::new(1200, 0, 0),
        SimpleBacchiatore::new(1200, 0, 0),
        SimpleDuel::new(-2147483646, 2147483647),
    );
    assert_eq!(duels[0].equal_gain, Some(i32::MIN));
    assert_eq!(duels[0].opposite_gain, Some(i32::MAX));
    assert_eq!(bacs[0].elo, -2147482448);
    assert_eq!(bacs[1].elo, i32::MAX);
}
