use std::f64::consts::PI;

use swarmalators::Swarmalator;

fn bits(xs: &[f64]) -> Vec<u64> {
    xs.iter().map(|x| x.to_bits()).collect()
}

fn vals(xs: &Vec<u64>) -> Vec<f64> {
    xs.iter().map(|b| f64::from_bits(*b)).collect()
}

#[test]
fn single_agent_rests_and_drifts_by_natural_frequency() {
    let mut s = Swarmalator::new(
        1,
        bits(&[0.0, 0.0]),
        bits(&[0.0]),
        bits(&[0.5]),
        1.0f64.to_bits(),
        1.0f64.to_bits(),
        None,
        None,
    )
    .unwrap();
    s.update(0.25f64.to_bits());
    assert_eq!(s.velocities(), &vec![0u64, 0]);
    // the phase advances by exactly natural_frequency * dt
    assert_eq!(vals(s.phases()), vec![0.125]);
    assert_eq!(vals(s.positions()), vec![0.0, 0.0]);
}

#[test]
fn single_chiral_agent_orbits_at_fixed_speed() {
    let mut s = Swarmalator::new(
        1,
        bits(&[0.0, 0.0]),
        bits(&[0.3]),
        bits(&[0.5]),
        1.0f64.to_bits(),
        1.0f64.to_bits(),
        Some(bits(&[2.0])),
        None,
    )
    .unwrap();
    s.update(0.0f64.to_bits());
    let v = vals(s.velocities());
    assert!((v[0] - 2.0 * (0.3f64 + PI / 2.0).cos()).abs() < 1e-12);
    assert!((v[1] - 2.0 * (0.3f64 + PI / 2.0).sin()).abs() < 1e-12);
    assert!((v[0].hypot(v[1]) - 2.0).abs() < 1e-12);
}

#[test]
fn zero_dt_leaves_positions_and_phases_but_recomputes_velocities() {
    let mut s = Swarmalator::new(
        2,
        bits(&[0.0, 0.0, 1.0, 0.0]),
        bits(&[0.5, 1.0]),
        bits(&[0.3, 0.4]),
        1.0f64.to_bits(),
        1.0f64.to_bits(),
        None,
        None,
    )
    .unwrap();
    let pos_before = s.positions().clone();
    let ph_before = s.phases().clone();
    assert_eq!(s.velocities(), &vec![0u64, 0, 0, 0]);
    s.update(0.0f64.to_bits());
    assert_eq!(s.positions(), &pos_before);
    assert_eq!(s.phases(), &ph_before);
    let v = vals(s.velocities());
    assert!(v.iter().all(|x| x.is_finite()));
    assert!(v.iter().any(|x| *x != 0.0));
}

#[test]
fn symmetric_pair_matches_analytic_step() {
    // dist = 1, phase difference 0: contribution_x = 1*(1 + cos 0) - 1 = 1,
    // weighted by 1/2; delta phases are sin(0) = 0.
    let mut s = Swarmalator::new(
        2,
        bits(&[0.0, 0.0, 1.0, 0.0]),
        bits(&[0.0, 0.0]),
        bits(&[0.0, 0.0]),
        1.0f64.to_bits(),
        1.0f64.to_bits(),
        None,
        None,
    )
    .unwrap();
    s.update(0.1f64.to_bits());
    let v = vals(s.velocities());
    assert!((v[0] - 0.5).abs() < 1e-9);
    assert!((v[1] - 0.0).abs() < 1e-9);
    assert!((v[2] + 0.5).abs() < 1e-9);
    assert!((v[3] - 0.0).abs() < 1e-9);
    // equal magnitude, opposite direction along x
    assert_eq!(v[0], -v[2]);
    assert_eq!(v[1], v[3]);
    // delta phases are zero: the phases do not move
    assert_eq!(vals(s.phases()), vec![0.0, 0.0]);
    let p = vals(s.positions());
    assert!((p[0] - 0.05).abs() < 1e-9);
    assert!((p[2] - 0.95).abs() < 1e-9);
    assert!((p[1] - 0.0).abs() < 1e-9 && (p[3] - 0.0).abs() < 1e-9);
}

#[test]
fn phase_coupling_follows_sine_of_phase_difference() {
    // J = 0 removes the net spatial term; K = 1 over two agents at dist 1
    // moves each phase by sin(difference)/2 per unit time.
    let mut s = Swarmalator::new(
        2,
        bits(&[0.0, 0.0, 1.0, 0.0]),
        bits(&[0.0, 1.0]),
        bits(&[0.0, 0.0]),
        1.0f64.to_bits(),
        0.0f64.to_bits(),
        None,
        None,
    )
    .unwrap();
    s.update(1.0f64.to_bits());
    let ph = vals(s.phases());
    assert!((ph[0] - 1.0f64.sin() / 2.0).abs() < 1e-12);
    assert!((ph[1] - (1.0 - 1.0f64.sin() / 2.0)).abs() < 1e-12);
}

#[test]
fn coupling_strengths_ramp_linearly_from_target() {
    let mut s = Swarmalator::new(
        3,
        bits(&[0.0, 0.0, 1.0, 0.0, 2.0, 0.0]),
        bits(&[0.0, 0.0, 0.0]),
        bits(&[0.0, 0.0, 0.0]),
        1.0f64.to_bits(),
        0.25f64.to_bits(),
        None,
        Some(bits(&[0.0, 0.0])),
    )
    .unwrap();
    // nearest agent couples at 0, farthest at A = 1, middle midway
    assert_eq!(vals(&s.coupling_strengths()), vec![0.0, 0.5, 1.0]);
    // without a target every agent gets the global gain J
    let mut t = Swarmalator::new(
        3,
        bits(&[0.0, 0.0, 1.0, 0.0, 2.0, 0.0]),
        bits(&[0.0, 0.0, 0.0]),
        bits(&[0.0, 0.0, 0.0]),
        1.0f64.to_bits(),
        0.25f64.to_bits(),
        None,
        None,
    )
    .unwrap();
    assert_eq!(vals(&t.coupling_strengths()), vec![0.25, 0.25, 0.25]);
    // a live target replaces the global gain
    t.set_target(bits(&[2.0, 0.0])).unwrap();
    assert_eq!(vals(&t.coupling_strengths()), vec![1.0, 0.5, 0.0]);
    s.set_J(0.75f64.to_bits());
    s.set_K(2.0f64.to_bits());
    assert_eq!(vals(&s.coupling_strengths()), vec![0.0, 0.5, 1.0]);
}

#[test]
fn phases_stay_wrapped_inside_two_pi() {
    let mut s = Swarmalator::new(
        2,
        bits(&[0.0, 0.0, 1.0, 1.0]),
        bits(&[0.0, 2.0]),
        bits(&[3.0, -4.0]),
        2.0f64.to_bits(),
        0.5f64.to_bits(),
        None,
        None,
    )
    .unwrap();
    for _ in 0..100 {
        s.update(0.1f64.to_bits());
        for ph in vals(s.phases()) {
            assert!(ph.is_finite());
            assert!(ph > -2.0 * PI && ph < 2.0 * PI);
        }
    }
}

#[test]
fn wrap_uses_signed_floating_remainder() {
    let mut s = Swarmalator::new(
        1,
        bits(&[0.0, 0.0]),
        bits(&[0.0]),
        bits(&[10.0]),
        0,
        0,
        None,
        None,
    )
    .unwrap();
    s.update(1.0f64.to_bits());
    assert_eq!(vals(s.phases()), vec![10.0 % (2.0 * PI)]);
    // a negative drift wraps to a negative remainder
    let mut t = Swarmalator::new(
        1,
        bits(&[0.0, 0.0]),
        bits(&[0.0]),
        bits(&[-10.0]),
        0,
        0,
        None,
        None,
    )
    .unwrap();
    t.update(1.0f64.to_bits());
    assert_eq!(vals(t.phases()), vec![-10.0 % (2.0 * PI)]);
    assert!(vals(t.phases())[0] < 0.0);
}

#[test]
fn chiral_pair_applies_frequency_offsets() {
    // opposite-sign natural frequencies shift the spatial cosine by pi and
    // the phase sine by pi/2
    let mut s = Swarmalator::new(
        2,
        bits(&[0.0, 0.0, 1.0, 0.0]),
        bits(&[0.2, 0.7]),
        bits(&[1.0, -1.0]),
        1.0f64.to_bits(),
        1.0f64.to_bits(),
        Some(bits(&[0.5, 0.25])),
        None,
    )
    .unwrap();
    s.update(0.0f64.to_bits());
    let v = vals(s.velocities());
    let gain0 = 1.0 + 1.0 * (0.7f64 - 0.2 - PI).cos();
    let expect_v0x = 0.5 * (0.2f64 + PI / 2.0).cos() + 0.5 * (gain0 - 1.0);
    let expect_v0y = 0.5 * (0.2f64 + PI / 2.0).sin();
    assert!((v[0] - expect_v0x).abs() < 1e-12);
    assert!((v[1] - expect_v0y).abs() < 1e-12);
    let gain1 = 1.0 + 1.0 * (0.2f64 - 0.7 - PI).cos();
    let expect_v1x = 0.25 * (0.7f64 + PI / 2.0).cos() + 0.5 * (-gain1 + 1.0);
    assert!((v[2] - expect_v1x).abs() < 1e-12);
    // positions are still untouched (dt = 0): step again to see the phases
    s.update(0.5f64.to_bits());
    let ph = vals(s.phases());
    let expect_ph0 = (0.2 + (1.0 + 0.5 * (0.7f64 - 0.2 - PI / 2.0).sin()) * 0.5) % (2.0 * PI);
    let expect_ph1 = (0.7 + (-1.0 + 0.5 * (0.2f64 - 0.7 - PI / 2.0).sin()) * 0.5) % (2.0 * PI);
    assert!((ph[0] - expect_ph0).abs() < 1e-12);
    assert!((ph[1] - expect_ph1).abs() < 1e-12);
}

#[test]
fn coincident_agents_produce_non_finite_state() {
    let mut s = Swarmalator::new(
        2,
        bits(&[1.0, 1.0, 1.0, 1.0]),
        bits(&[0.5, 0.5]),
        bits(&[0.0, 0.0]),
        1.0f64.to_bits(),
        1.0f64.to_bits(),
        None,
        None,
    )
    .unwrap();
    s.update(0.1f64.to_bits());
    for v in vals(s.velocities()) {
        assert!(!v.is_finite());
    }
    for p in vals(s.positions()) {
        assert!(!p.is_finite());
    }
    for ph in vals(s.phases()) {
        assert!(!ph.is_finite());
    }
}
