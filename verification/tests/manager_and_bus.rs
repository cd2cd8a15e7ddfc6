//! Tests of the device manager, the bus access layer, and the
//! serialization of the two devices' transactions on the shared bus.

use spoolbuddy::bus::{BusEvent, BusReply, SimBus};
use spoolbuddy::calib::{CalStore, Calibration};
use spoolbuddy::manager::{DeviceManager, ScaleStatus, SharedBus};
use spoolbuddy::nfc::{ReadyStrategy, ResetStrategy};
use spoolbuddy::scale::ScaleState;

fn sample_reply(raw: i32) -> BusReply {
    let u = (raw as u32) & 0x00FF_FFFF;
    BusReply::Data(vec![0x01, (u & 0xFF) as u8, ((u >> 8) & 0xFF) as u8, ((u >> 16) & 0xFF) as u8])
}

fn le32(v: u32) -> BusReply {
    BusReply::Data(v.to_le_bytes().to_vec())
}

fn fresh_scale() -> ScaleState {
    ScaleState::new(Calibration {
        zero_offset: 0,
        cal_factor_x1000: 1000,
    })
}

#[test]
fn with_bus_on_uninitialized_bus_returns_none() {
    let mut shared = SharedBus::new_uninitialized();
    for _ in 0..3 {
        let r = shared.with_bus(|b: SimBus| (b, 42u32));
        assert!(r.is_none());
    }
}

#[test]
fn with_bus_lends_and_restores() {
    let bus = SimBus::new(vec![], vec![]);
    let mut shared = SharedBus::new_with(bus);
    let r = shared.with_bus(|mut b: SimBus| {
        b.txn_pulse();
        let n = b.log.len();
        (b, n)
    });
    assert_eq!(r, Some(2));
    assert!(shared.inner.is_some());
}

#[test]
fn getters_default_when_no_hardware() {
    let m = DeviceManager::new(CalStore::new());
    let st: ScaleStatus = m.scale_get_status();
    assert!(!st.initialized);
    assert_eq!(st.weight_mg, 0);
    assert_eq!(st.raw_value, 0);
    assert!(!st.stable);
    assert_eq!(st.tare_offset, 0);
    assert_eq!(st.cal_factor_x1000, 1000);
    assert_eq!(m.scale_get_weight(), 0);
    assert_eq!(m.scale_get_raw(), 0);
    assert!(!m.scale_is_initialized());
    assert!(!m.scale_is_stable());
    assert_eq!(m.scale_get_tare_offset(), 0);
    assert!(!m.nfc_tag_present());
}

#[test]
fn operations_fail_cleanly_without_bus() {
    let mut m = DeviceManager::new(CalStore::new());
    m.init_scale_manager(fresh_scale());
    assert_eq!(m.scale_tare(), -1);
    assert_eq!(m.scale_calibrate(1_000_000), -1);
    m.poll_scale();
    assert_eq!(m.scale_get_raw(), 0);
}

#[test]
fn init_scale_manager_loads_persisted_calibration() {
    let mut store = CalStore::new();
    store.save(&Calibration {
        zero_offset: 777,
        cal_factor_x1000: 2500,
    });
    let mut m = DeviceManager::new(store);
    m.init_scale_manager(fresh_scale());
    assert_eq!(m.scale_get_tare_offset(), 777);
    let st = m.scale_get_status();
    assert_eq!(st.cal_factor_x1000, 2500);
}

#[test]
fn init_scale_manager_keeps_defaults_without_record() {
    let mut m = DeviceManager::new(CalStore::new());
    m.init_scale_manager(fresh_scale());
    assert_eq!(m.scale_get_tare_offset(), 0);
    assert_eq!(m.scale_get_status().cal_factor_x1000, 1000);
}

#[test]
fn tare_persists_calibration() {
    let mut m = DeviceManager::new(CalStore::new());
    let mut s = fresh_scale();
    s.initialized = true;
    m.init_scale_manager(s);
    m.attach_bus(SimBus::new(vec![sample_reply(1234)], vec![]));
    assert_eq!(m.scale_tare(), 0);
    assert_eq!(m.scale_get_tare_offset(), 1234);
    let stored = m.store.load().unwrap();
    assert_eq!(stored.zero_offset, 1234);
    assert_eq!(stored.cal_factor_x1000, 1000);
}

#[test]
fn tare_survives_persistence_failure() {
    let mut store = CalStore::new();
    store.accept_writes = false;
    let mut m = DeviceManager::new(store);
    m.init_scale_manager(fresh_scale());
    m.attach_bus(SimBus::new(vec![sample_reply(555)], vec![]));
    // The tare itself succeeds; the in-memory value stays authoritative.
    assert_eq!(m.scale_tare(), 0);
    assert_eq!(m.scale_get_tare_offset(), 555);
    assert!(m.store.load().is_none());
}

#[test]
fn calibrate_updates_factor_and_store() {
    let mut m = DeviceManager::new(CalStore::new());
    let mut s = fresh_scale();
    s.initialized = true;
    m.init_scale_manager(s);
    m.attach_bus(SimBus::new(
        vec![sample_reply(2000), sample_reply(2000)],
        vec![],
    ));
    // 2000 raw counts stand for 1000 g.
    assert_eq!(m.scale_calibrate(1_000_000), 0);
    assert_eq!(m.scale_get_status().cal_factor_x1000, 2000);
    assert_eq!(m.store.load().unwrap().cal_factor_x1000, 2000);
    m.poll_scale();
    assert_eq!(m.scale_get_weight(), 1_000_000);
}

#[test]
fn calibrate_bad_weight_fails() {
    let mut m = DeviceManager::new(CalStore::new());
    m.init_scale_manager(fresh_scale());
    m.attach_bus(SimBus::new(vec![sample_reply(2000)], vec![]));
    assert_eq!(m.scale_calibrate(0), -1);
    assert!(m.store.load().is_none());
}

#[test]
fn poll_scale_updates_status() {
    let mut m = DeviceManager::new(CalStore::new());
    let mut s = fresh_scale();
    s.initialized = true;
    m.init_scale_manager(s);
    m.attach_bus(SimBus::new(vec![sample_reply(4242)], vec![]));
    m.poll_scale();
    let st = m.scale_get_status();
    assert!(st.initialized);
    assert_eq!(st.raw_value, 4242);
    assert_eq!(st.weight_mg, 4_242_000);
}

#[test]
fn nfc_poll_replaces_last_card_on_activation() {
    let mut m = DeviceManager::new(CalStore::new());
    m.attach_bus(SimBus::new(
        vec![
            // NFC init: firmware record, product record, RF status.
            BusReply::Data(vec![0x05, 0x42]),
            BusReply::Data(vec![0x07, 0x03]),
            le32(0x0004_0000),
            // Activation: RF status, IRQ status, RX status, the answer.
            le32(0x0004_0000),
            le32(0x0000_0001),
            le32(2),
            BusReply::Data(vec![0x44, 0x00]),
        ],
        vec![],
    ));
    assert!(m.init_nfc(ReadyStrategy::FixedDelay, ResetStrategy::PowerOnSettle));
    assert!(!m.nfc_tag_present());
    m.nfc_poll();
    assert!(m.nfc_tag_present());
    assert_eq!(m.last_card.as_ref().unwrap().atqa, [0x44, 0x00]);
}

#[test]
fn nfc_init_failure_leaves_manager_quiet() {
    let mut m = DeviceManager::new(CalStore::new());
    m.attach_bus(SimBus::new(vec![BusReply::Fault], vec![]));
    assert!(!m.init_nfc(ReadyStrategy::FixedDelay, ResetStrategy::PowerOnSettle));
    m.nfc_poll();
    assert!(!m.nfc_tag_present());
}

/// Walk a log and check that it is a concatenation of complete
/// transactions: every step stands inside a select/deselect pair, selects
/// never nest, and nothing is left open at the end.
fn assert_serialized(log: &[BusEvent]) {
    let mut inside = false;
    for e in log {
        match e {
            BusEvent::Select => {
                assert!(!inside, "select inside an open transaction");
                inside = true;
            }
            BusEvent::Deselect => {
                assert!(inside, "deselect without a select");
                inside = false;
            }
            _ => assert!(inside, "traffic outside a transaction"),
        }
    }
    assert!(!inside, "transaction left open");
}

#[test]
fn scale_and_nfc_transactions_never_interleave() {
    let mut m = DeviceManager::new(CalStore::new());
    let mut s = fresh_scale();
    s.initialized = true;
    m.init_scale_manager(s);
    m.attach_bus(SimBus::new(
        vec![
            sample_reply(100),
            BusReply::Data(vec![0x05, 0x42]),
            BusReply::Data(vec![0x07, 0x03]),
            le32(0x0004_0000),
            sample_reply(200),
            le32(0x0004_0000),
            le32(0x0000_0001),
            le32(2),
            BusReply::Data(vec![0x44, 0x00]),
            sample_reply(300),
        ],
        vec![],
    ));
    // Interleave scheduling of the two devices' polls.
    m.poll_scale();
    assert!(m.init_nfc(ReadyStrategy::FixedDelay, ResetStrategy::PowerOnSettle));
    m.poll_scale();
    m.nfc_poll();
    m.poll_scale();
    assert_eq!(m.scale_get_raw(), 300);
    assert!(m.nfc_tag_present());
    let log = m.bus.inner.as_ref().unwrap().log.clone();
    assert_serialized(&log);
}
