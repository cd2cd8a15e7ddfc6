//! Tests of the scale driver: sample handling, stability, tare,
//! calibration, and the bus-level operations.

use spoolbuddy::bus::{BusReply, SimBus};
use spoolbuddy::calib::Calibration;
use spoolbuddy::scale::{
    apply_sample, calibrate, calibrate_state, check_stable, init, poll, tare, tare_state,
    ScaleError, ScaleState, STABILITY_WINDOW,
};

fn cal(zero: i32, factor_x1000: i32) -> Calibration {
    Calibration {
        zero_offset: zero,
        cal_factor_x1000: factor_x1000,
    }
}

/// A 4-byte sample reply: ready flag plus a 24-bit little-endian raw code.
fn sample_reply(raw: i32) -> BusReply {
    let u = (raw as u32) & 0x00FF_FFFF;
    BusReply::Data(vec![0x01, (u & 0xFF) as u8, ((u >> 8) & 0xFF) as u8, ((u >> 16) & 0xFF) as u8])
}

#[test]
fn weight_is_derived_in_milligrams() {
    let mut s = ScaleState::new(cal(500, 1000));
    apply_sample(&mut s, 1500);
    // (1500 - 500) raw counts at 1.000 counts per gram = 1000 g.
    assert_eq!(s.weight_mg, 1_000_000);
    assert_eq!(s.last_raw, 1500);
    assert!(s.has_sample);
}

#[test]
fn weight_negative_excursion() {
    let mut s = ScaleState::new(cal(1000, 2000));
    apply_sample(&mut s, 0);
    // (0 - 1000) counts at 2.000 counts per gram = -500 g.
    assert_eq!(s.weight_mg, -500_000);
}

#[test]
fn weight_negative_factor() {
    let mut s = ScaleState::new(cal(0, -1000));
    apply_sample(&mut s, 250);
    assert_eq!(s.weight_mg, -250_000);
}

#[test]
fn stability_requires_full_quiet_window() {
    let mut s = ScaleState::new(cal(0, 1000));
    for _ in 0..STABILITY_WINDOW - 1 {
        apply_sample(&mut s, 100);
        assert!(!s.stable);
    }
    apply_sample(&mut s, 100);
    assert!(s.stable);
}

#[test]
fn stability_rejects_noisy_window() {
    let mut s = ScaleState::new(cal(0, 1000));
    for _ in 0..STABILITY_WINDOW {
        apply_sample(&mut s, 100);
    }
    assert!(s.stable);
    // One sample far off the mean breaks stability.
    apply_sample(&mut s, 200);
    assert!(!s.stable);
}

#[test]
fn check_stable_tolerates_small_noise() {
    // All samples within the threshold of the mean.
    let w: Vec<i32> = vec![100, 101, 99, 100, 102, 98, 100, 100];
    assert!(check_stable(&w));
    let noisy: Vec<i32> = vec![100, 100, 100, 100, 100, 100, 100, 180];
    assert!(!check_stable(&noisy));
}

#[test]
fn tare_without_sample_fails() {
    let mut s = ScaleState::new(cal(0, 1000));
    assert_eq!(tare_state(&mut s), Err(ScaleError::NoSample));
    assert_eq!(s.calibration.zero_offset, 0);
}

#[test]
fn tare_then_poll_reads_zero() {
    let mut s = ScaleState::new(cal(0, 1000));
    apply_sample(&mut s, 4321);
    assert!(tare_state(&mut s).is_ok());
    assert_eq!(s.calibration.zero_offset, 4321);
    assert_eq!(s.calibration.cal_factor_x1000, 1000);
    // An immediate poll with the same raw sample weighs exactly zero.
    apply_sample(&mut s, 4321);
    assert_eq!(s.weight_mg, 0);
}

#[test]
fn calibrate_rejects_bad_weight() {
    let mut s = ScaleState::new(cal(0, 1000));
    apply_sample(&mut s, 1000);
    assert_eq!(calibrate_state(&mut s, 0), Err(ScaleError::InvalidWeight));
    assert_eq!(calibrate_state(&mut s, -5), Err(ScaleError::InvalidWeight));
    assert_eq!(s.calibration.cal_factor_x1000, 1000);
}

#[test]
fn calibrate_without_sample_fails() {
    let mut s = ScaleState::new(cal(0, 1000));
    assert_eq!(calibrate_state(&mut s, 1000), Err(ScaleError::NoSample));
}

#[test]
fn calibrate_rejects_zero_factor() {
    let mut s = ScaleState::new(cal(1000, 1000));
    // Raw equals the zero offset: the factor would be zero.
    apply_sample(&mut s, 1000);
    assert_eq!(
        calibrate_state(&mut s, 500_000),
        Err(ScaleError::CalibrationFailed)
    );
    assert_eq!(s.calibration.cal_factor_x1000, 1000);
}

#[test]
fn calibrate_then_poll_recovers_weight() {
    let mut s = ScaleState::new(cal(500, 1000));
    apply_sample(&mut s, 2500);
    // 2000 raw counts stand for 1000 g.
    assert!(calibrate_state(&mut s, 1_000_000).is_ok());
    assert_eq!(s.calibration.cal_factor_x1000, 2000);
    assert_eq!(s.calibration.zero_offset, 500);
    apply_sample(&mut s, 2500);
    assert_eq!(s.weight_mg, 1_000_000);
}

#[test]
fn init_succeeds_on_identity_and_ack() {
    let mut bus = SimBus::new(
        vec![BusReply::Data(vec![0x2A]), BusReply::Data(vec![0x01])],
        vec![],
    );
    let mut s = ScaleState::new(cal(0, 1000));
    assert!(init(&mut bus, &mut s).is_ok());
    assert!(s.initialized);
}

#[test]
fn init_fault_means_device_not_found() {
    let mut bus = SimBus::new(vec![BusReply::Fault], vec![]);
    let mut s = ScaleState::new(cal(0, 1000));
    assert_eq!(init(&mut bus, &mut s), Err(ScaleError::DeviceNotFound));
    assert!(!s.initialized);
}

#[test]
fn init_wrong_identity_means_device_not_found() {
    let mut bus = SimBus::new(vec![BusReply::Data(vec![0x55])], vec![]);
    let mut s = ScaleState::new(cal(0, 1000));
    assert_eq!(init(&mut bus, &mut s), Err(ScaleError::DeviceNotFound));
    assert!(!s.initialized);
}

#[test]
fn init_bad_ack_means_config_failed() {
    let mut bus = SimBus::new(
        vec![BusReply::Data(vec![0x2A]), BusReply::Fault],
        vec![],
    );
    let mut s = ScaleState::new(cal(0, 1000));
    assert_eq!(init(&mut bus, &mut s), Err(ScaleError::ConfigFailed));
    assert!(!s.initialized);
}

#[test]
fn poll_takes_ready_sample() {
    let mut bus = SimBus::new(vec![sample_reply(1500)], vec![]);
    let mut s = ScaleState::new(cal(500, 1000));
    poll(&mut bus, &mut s);
    assert_eq!(s.last_raw, 1500);
    assert_eq!(s.weight_mg, 1_000_000);
}

#[test]
fn poll_decodes_negative_raw() {
    let mut bus = SimBus::new(vec![sample_reply(-1000)], vec![]);
    let mut s = ScaleState::new(cal(0, 1000));
    poll(&mut bus, &mut s);
    assert_eq!(s.last_raw, -1000);
    assert_eq!(s.weight_mg, -1_000_000);
}

#[test]
fn poll_ignores_not_ready() {
    let mut bus = SimBus::new(vec![BusReply::Data(vec![0x00, 0x10, 0x00, 0x00])], vec![]);
    let mut s = ScaleState::new(cal(0, 1000));
    poll(&mut bus, &mut s);
    assert!(!s.has_sample);
    assert_eq!(s.last_raw, 0);
}

#[test]
fn poll_absorbs_transport_fault() {
    let mut bus = SimBus::new(vec![BusReply::Fault], vec![]);
    let mut s = ScaleState::new(cal(0, 1000));
    apply_sample(&mut s, 77);
    poll(&mut bus, &mut s);
    // The glitch changed nothing: state retained, no re-initialization.
    assert_eq!(s.last_raw, 77);
    assert!(s.has_sample);
}

#[test]
fn bus_tare_uses_fresh_sample() {
    let mut bus = SimBus::new(vec![sample_reply(900)], vec![]);
    let mut s = ScaleState::new(cal(0, 1000));
    assert!(tare(&mut bus, &mut s).is_ok());
    assert_eq!(s.calibration.zero_offset, 900);
}

#[test]
fn bus_tare_without_any_sample_fails() {
    let mut bus = SimBus::new(vec![BusReply::Fault], vec![]);
    let mut s = ScaleState::new(cal(0, 1000));
    assert_eq!(tare(&mut bus, &mut s), Err(ScaleError::NoSample));
}

#[test]
fn bus_calibrate_full_cycle() {
    let mut bus = SimBus::new(vec![sample_reply(3000), sample_reply(3000)], vec![]);
    let mut s = ScaleState::new(cal(1000, 1000));
    // 2000 raw counts stand for 500 g.
    assert!(calibrate(&mut bus, &mut s, 500_000).is_ok());
    assert_eq!(s.calibration.cal_factor_x1000, 4000);
    poll(&mut bus, &mut s);
    assert_eq!(s.weight_mg, 500_000);
}
