use demc::aggregate::{aggregate, best_direction, Polar};

fn p(direction_deg: u16, strength_pct: u8) -> Polar {
    Polar { direction_deg, strength_pct }
}

#[test]
fn single_votes_round_trip_at_every_direction() {
    for d in 0u16..360 {
        for s in [1u8, 37, 50, 100] {
            assert_eq!(aggregate(&vec![p(d, s)]), p(d, s));
        }
    }
}

#[test]
fn empty_vote_set_is_neutral() {
    assert_eq!(aggregate(&Vec::new()), p(0, 0));
}

#[test]
fn opposite_votes_cancel_to_zero_strength() {
    let r = aggregate(&vec![p(0, 100), p(180, 100)]);
    assert_eq!(r.strength_pct, 0);
}

#[test]
fn equal_votes_reinforce() {
    let r = aggregate(&vec![p(90, 100), p(90, 100)]);
    assert_eq!(r, p(90, 100));
}

#[test]
fn perpendicular_votes_average_between() {
    // Up and right with equal strength pull to the diagonal; the summed
    // magnitude saturates at full deflection.
    let r = aggregate(&vec![p(0, 100), p(90, 100)]);
    assert_eq!(r.direction_deg, 45);
    assert_eq!(r.strength_pct, 100);
}

#[test]
fn reinforcing_votes_saturate() {
    // Two 60% votes in one direction push the magnitude past full
    // deflection, which is clamped, not averaged.
    let r = aggregate(&vec![p(90, 60), p(90, 60)]);
    assert_eq!(r, p(90, 100));
}

#[test]
fn diagonal_half_vote_keeps_its_strength() {
    assert_eq!(aggregate(&vec![p(45, 50)]), p(45, 50));
}

#[test]
fn strength_is_clamped_at_full_deflection() {
    let r = aggregate(&vec![p(45, 100)]);
    assert_eq!(r.direction_deg, 45);
    assert_eq!(r.strength_pct, 100);
}

#[test]
fn direction_recovery_is_exact_on_axes() {
    assert_eq!(best_direction(1000, 0), 0);
    assert_eq!(best_direction(0, 1000), 90);
    assert_eq!(best_direction(-1000, 0), 180);
    assert_eq!(best_direction(0, -1000), 270);
}

#[test]
fn direction_recovery_covers_all_quadrants() {
    assert_eq!(best_direction(707, 707), 45);
    assert_eq!(best_direction(-707, 707), 135);
    assert_eq!(best_direction(-707, -707), 225);
    assert_eq!(best_direction(707, -707), 315);
}

#[test]
fn vote_order_does_not_change_the_result() {
    let a = aggregate(&vec![p(0, 100), p(90, 40), p(180, 10)]);
    let b = aggregate(&vec![p(180, 10), p(0, 100), p(90, 40)]);
    assert_eq!(a, b);
}
