use swarmalators::{Field, SwarmError, Swarmalator};

fn bits(xs: &[f64]) -> Vec<u64> {
    xs.iter().map(|x| x.to_bits()).collect()
}

fn vals(xs: &Vec<u64>) -> Vec<f64> {
    xs.iter().map(|b| f64::from_bits(*b)).collect()
}

#[test]
fn new_accepts_valid_input() {
    let s = Swarmalator::new(
        2,
        bits(&[0.0, 0.0, 1.0, 0.0]),
        bits(&[0.0, 0.5]),
        bits(&[0.1, 0.2]),
        1.0f64.to_bits(),
        1.0f64.to_bits(),
        None,
        None,
    )
    .unwrap();
    assert_eq!(vals(s.positions()), vec![0.0, 0.0, 1.0, 0.0]);
    assert_eq!(vals(s.phases()), vec![0.0, 0.5]);
    assert_eq!(s.velocities(), &vec![0u64, 0, 0, 0]);
}

#[test]
fn new_rejects_bad_positions() {
    let r = Swarmalator::new(
        2,
        bits(&[0.0, 0.0, 1.0]),
        bits(&[0.0, 0.5]),
        bits(&[0.1, 0.2]),
        0,
        0,
        None,
        None,
    );
    assert_eq!(r.err(), Some(SwarmError::LengthMismatch(Field::Positions)));
}

#[test]
fn new_rejects_bad_phases() {
    let r = Swarmalator::new(
        2,
        bits(&[0.0, 0.0, 1.0, 0.0]),
        bits(&[0.0]),
        bits(&[0.1, 0.2]),
        0,
        0,
        None,
        None,
    );
    assert_eq!(r.err(), Some(SwarmError::LengthMismatch(Field::Phases)));
}

#[test]
fn new_rejects_bad_natural_frequencies() {
    let r = Swarmalator::new(
        2,
        bits(&[0.0, 0.0, 1.0, 0.0]),
        bits(&[0.0, 0.5]),
        bits(&[0.1]),
        0,
        0,
        None,
        None,
    );
    assert_eq!(r.err(), Some(SwarmError::LengthMismatch(Field::NaturalFrequencies)));
}

#[test]
fn new_rejects_bad_chirality() {
    let r = Swarmalator::new(
        2,
        bits(&[0.0, 0.0, 1.0, 0.0]),
        bits(&[0.0, 0.5]),
        bits(&[0.1, 0.2]),
        0,
        0,
        Some(bits(&[1.0])),
        None,
    );
    assert_eq!(r.err(), Some(SwarmError::LengthMismatch(Field::Chirality)));
}

#[test]
fn new_rejects_bad_target() {
    let r = Swarmalator::new(
        2,
        bits(&[0.0, 0.0, 1.0, 0.0]),
        bits(&[0.0, 0.5]),
        bits(&[0.1, 0.2]),
        0,
        0,
        None,
        Some(bits(&[1.0, 2.0, 3.0])),
    );
    assert_eq!(r.err(), Some(SwarmError::LengthMismatch(Field::Target)));
}

#[test]
fn error_precedence_names_first_violated_field() {
    // both positions and phases are wrong: positions is named
    let r = Swarmalator::new(2, bits(&[0.0]), bits(&[0.0]), bits(&[0.1, 0.2]), 0, 0, None, None);
    assert_eq!(r.err(), Some(SwarmError::LengthMismatch(Field::Positions)));
}

#[test]
fn set_target_checks_length() {
    let mut s = Swarmalator::new(
        1,
        bits(&[0.0, 0.0]),
        bits(&[0.0]),
        bits(&[0.0]),
        0,
        0,
        None,
        None,
    )
    .unwrap();
    assert_eq!(
        s.set_target(bits(&[1.0])).err(),
        Some(SwarmError::LengthMismatch(Field::Target))
    );
    assert!(s.set_target(bits(&[1.0, 2.0])).is_ok());
}

#[test]
fn set_chiral_checks_length() {
    let mut s = Swarmalator::new(
        2,
        bits(&[0.0, 0.0, 1.0, 0.0]),
        bits(&[0.0, 0.0]),
        bits(&[0.0, 0.0]),
        0,
        0,
        None,
        None,
    )
    .unwrap();
    assert_eq!(
        s.set_chiral(Some(bits(&[1.0]))).err(),
        Some(SwarmError::LengthMismatch(Field::Chirality))
    );
    assert!(s.set_chiral(Some(bits(&[1.0, -1.0]))).is_ok());
    assert!(s.set_chiral(None).is_ok());
}

#[test]
fn set_natural_frequencies_checks_length() {
    let mut s = Swarmalator::new(
        2,
        bits(&[0.0, 0.0, 1.0, 0.0]),
        bits(&[0.0, 0.0]),
        bits(&[0.0, 0.0]),
        0,
        0,
        None,
        None,
    )
    .unwrap();
    assert_eq!(
        s.set_natural_frequencies(bits(&[1.0, 2.0, 3.0])).err(),
        Some(SwarmError::LengthMismatch(Field::NaturalFrequencies))
    );
    assert!(s.set_natural_frequencies(bits(&[1.0, 2.0])).is_ok());
}

#[test]
fn set_phases_checks_length_and_replaces() {
    let mut s = Swarmalator::new(
        2,
        bits(&[0.0, 0.0, 1.0, 0.0]),
        bits(&[0.0, 0.0]),
        bits(&[0.0, 0.0]),
        0,
        0,
        None,
        None,
    )
    .unwrap();
    assert_eq!(
        s.set_phases(bits(&[1.0])).err(),
        Some(SwarmError::LengthMismatch(Field::Phases))
    );
    assert!(s.set_phases(bits(&[0.25, 0.75])).is_ok());
    assert_eq!(vals(s.phases()), vec![0.25, 0.75]);
}
