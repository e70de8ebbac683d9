//! The ballistic scenario and the frame timer.

use kinetics::ballistic::{BallisticApp, ShotType};
use kinetics::precision::{Real, SCALE};
use kinetics::timing::TimingData;

fn r(x: f32) -> Real {
    Real::from_raw((x * SCALE as f32) as i64)
}

fn to_f32(x: Real) -> f32 {
    x.raw() as f32 / SCALE as f32
}

#[test]
fn fire_loads_the_pistol_round() {
    let mut app = BallisticApp::new();
    app.fire();
    let p = &app.shot.particle;
    assert_eq!(p.position.y.raw(), 1_500_000);
    assert_eq!(p.velocity.z.raw(), 35_000_000);
    assert_eq!(p.acceleration.y.raw(), -1_000_000);
    assert_eq!(p.damping.raw(), 990_000);
    assert_eq!(p.inverse_mass.raw(), 500_000);
    assert_eq!(p.force_accum.x.raw(), 0);
    assert!(matches!(app.shot.shot_type, ShotType::PISTOL));
    assert!(app.shot.start_time.is_some());
}

#[test]
fn one_sixtieth_of_a_second_after_firing() {
    let mut app = BallisticApp::new();
    app.fire();
    app.update(r(1.0 / 60.0));
    let p = &app.shot.particle;

    // Position moved along the previous velocity: z ≈ 35/60, x stays 0 and,
    // with no vertical velocity yet, so does the height.
    assert_eq!(p.position.x.raw(), 0);
    assert_eq!(p.position.y.raw(), 1_500_000);
    assert!((to_f32(p.position.z) - 0.5833).abs() < 1e-3);

    // The downward acceleration has started pulling the round down.
    assert!(p.velocity.y.raw() < 0);

    // Forward speed lost one frame of damping: 35 * 0.99^(1/60).
    let expected = 35.0 * 0.99f32.powf(1.0 / 60.0);
    assert!(
        (to_f32(p.velocity.z) - expected).abs() < 5e-3,
        "velocity.z = {}, expected {expected}",
        to_f32(p.velocity.z),
    );
    assert!(p.velocity.z.raw() < 35_000_000);
}

#[test]
fn timer_ticks_are_nonnegative() {
    let mut timing = TimingData::new();
    let dt = timing.tick();
    assert!(dt.raw() >= 0);
    let dt2 = timing.tick();
    assert!(dt2.raw() >= 0);
}
