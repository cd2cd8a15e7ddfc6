//! Tests of the NFC driver: EEPROM retry, register access, card
//! activation validation, and the initialization sequence.

use spoolbuddy::bus::{BusEvent, BusReply, SimBus};
use spoolbuddy::nfc::{
    init_pn5180, Iso14443aCard, Pn5180Driver, Pn5180Error, Pn5180State, ReadyStrategy,
    ResetStrategy, CMD_LOAD_RF_CONFIG,
};

fn driver() -> Pn5180Driver {
    Pn5180Driver {
        ready: ReadyStrategy::FixedDelay,
        reset_strategy: ResetStrategy::PowerOnSettle,
    }
}

fn le32(v: u32) -> BusReply {
    BusReply::Data(v.to_le_bytes().to_vec())
}

#[test]
fn read_eeprom_accepts_first_plausible_reply() {
    let mut bus = SimBus::new(vec![BusReply::Data(vec![0x12, 0x34])], vec![]);
    let d = driver();
    let r = d.read_eeprom(&mut bus, 0x10, 2).unwrap();
    assert_eq!(r, vec![0x12, 0x34]);
}

#[test]
fn read_eeprom_retries_through_garbage() {
    // All-0xFF for the first four attempts, a valid payload on the fifth.
    let mut bus = SimBus::new(
        vec![
            BusReply::Data(vec![0xFF, 0xFF]),
            BusReply::Data(vec![0xFF, 0xFF]),
            BusReply::Data(vec![0xFF, 0xFF]),
            BusReply::Data(vec![0xFF, 0xFF]),
            BusReply::Data(vec![0x12, 0x34]),
        ],
        vec![],
    );
    let d = driver();
    let r = d.read_eeprom(&mut bus, 0x10, 2).unwrap();
    assert_eq!(r, vec![0x12, 0x34]);
}

#[test]
fn read_eeprom_degrades_to_zeros_after_all_garbage() {
    let mut bus = SimBus::new(
        vec![
            BusReply::Data(vec![0xFF, 0xFF]),
            BusReply::Data(vec![0x00, 0x00]),
            BusReply::Data(vec![0xFF, 0xFF]),
            BusReply::Data(vec![0x00, 0x00]),
            BusReply::Data(vec![0xFF, 0xFF]),
        ],
        vec![],
    );
    let d = driver();
    // Not an error, and not the garbage: a zero-filled buffer.
    let r = d.read_eeprom(&mut bus, 0x10, 2).unwrap();
    assert_eq!(r, vec![0x00, 0x00]);
}

#[test]
fn read_eeprom_exhausted_script_degrades_to_zeros() {
    // A dead bus reads as floating 0xFF for every attempt.
    let mut bus = SimBus::new(vec![], vec![]);
    let d = driver();
    let r = d.read_eeprom(&mut bus, 0x10, 4).unwrap();
    assert_eq!(r, vec![0x00, 0x00, 0x00, 0x00]);
}

#[test]
fn read_eeprom_fault_is_an_error() {
    let mut bus = SimBus::new(
        vec![BusReply::Data(vec![0xFF, 0xFF]), BusReply::Fault],
        vec![],
    );
    let d = driver();
    assert_eq!(
        d.read_eeprom(&mut bus, 0x10, 2),
        Err(Pn5180Error::SpiError)
    );
}

#[test]
fn read_register_is_little_endian() {
    let mut bus = SimBus::new(vec![BusReply::Data(vec![0x78, 0x56, 0x34, 0x12])], vec![]);
    let d = driver();
    assert_eq!(d.read_register(&mut bus, 0x1D).unwrap(), 0x1234_5678);
}

#[test]
fn write_register_frames_the_value() {
    let mut bus = SimBus::new(vec![], vec![]);
    let d = driver();
    d.write_register(&mut bus, 0x03, 0xFFFF_FFFF).unwrap();
    // One transaction: select, the frame, deselect.
    assert_eq!(bus.log.len(), 3);
    match &bus.log[1] {
        BusEvent::Write(c) => {
            assert_eq!(c, &vec![0x00, 0x03, 0xFF, 0xFF, 0xFF, 0xFF]);
        }
        other => panic!("expected a write event, got {:?}", other),
    }
}

#[test]
fn firmware_version_decodes_nibbles() {
    // Patch byte first, then major nibble | minor nibble.
    let mut bus = SimBus::new(vec![BusReply::Data(vec![0x05, 0x42])], vec![]);
    let d = driver();
    assert_eq!(d.get_firmware_version(&mut bus).unwrap(), (4, 2, 5));
}

#[test]
fn product_version_swaps_bytes() {
    let mut bus = SimBus::new(vec![BusReply::Data(vec![0x07, 0x03])], vec![]);
    let d = driver();
    assert_eq!(d.get_product_version(&mut bus).unwrap(), (3, 7));
}

fn activation_script(rx_status: u32, atqa: Vec<u8>) -> Vec<BusReply> {
    vec![
        le32(0x0004_0000), // RF status before activation
        le32(0x0000_0001), // IRQ status after the wake command
        le32(rx_status),   // RX status
        BusReply::Data(atqa),
    ]
}

#[test]
fn activation_rejects_bus_error_sentinel() {
    let mut bus = SimBus::new(activation_script(0xFFFF_FFFF, vec![0x44, 0x00]), vec![]);
    let d = driver();
    assert_eq!(d.iso14443a_activate(&mut bus).unwrap(), None);
}

#[test]
fn activation_rejects_unreasonable_byte_count() {
    let mut bus = SimBus::new(activation_script(100, vec![0x44, 0x00]), vec![]);
    let d = driver();
    assert_eq!(d.iso14443a_activate(&mut bus).unwrap(), None);
}

#[test]
fn activation_rejects_short_answer() {
    let mut bus = SimBus::new(activation_script(1, vec![0x44, 0x00]), vec![]);
    let d = driver();
    assert_eq!(d.iso14443a_activate(&mut bus).unwrap(), None);
}

#[test]
fn activation_rejects_sentinel_answers() {
    for atqa in [vec![0x00, 0x00], vec![0xFF, 0xFF]] {
        let mut bus = SimBus::new(activation_script(2, atqa), vec![]);
        let d = driver();
        assert_eq!(d.iso14443a_activate(&mut bus).unwrap(), None);
    }
}

#[test]
fn activation_reports_plausible_card() {
    let mut bus = SimBus::new(activation_script(2, vec![0x44, 0x00]), vec![]);
    let d = driver();
    let card: Iso14443aCard = d.iso14443a_activate(&mut bus).unwrap().unwrap();
    assert_eq!(card.atqa, [0x44, 0x00]);
    // Anti-collision is an unimplemented extension: no UID yet.
    assert_eq!(card.uid_len, 0);
    assert_eq!(card.sak, 0);
}

#[test]
fn activation_fault_is_an_error() {
    let mut bus = SimBus::new(vec![BusReply::Fault], vec![]);
    let d = driver();
    assert_eq!(
        d.iso14443a_activate(&mut bus),
        Err(Pn5180Error::SpiError)
    );
}

#[test]
fn card_type_judgement_by_sak() {
    let mut card = Iso14443aCard {
        uid: [0; 10],
        uid_len: 0,
        atqa: [0x44, 0x00],
        sak: 0x00,
    };
    assert!(card.is_ntag());
    assert!(!card.is_mifare_classic_1k());
    card.sak = 0x08;
    assert!(card.is_mifare_classic_1k());
    card.sak = 0x18;
    assert!(card.is_mifare_classic_4k());
}

fn init_script_success() -> Vec<BusReply> {
    vec![
        BusReply::Data(vec![0x05, 0x42]), // firmware version record
        BusReply::Data(vec![0x07, 0x03]), // product version record
        le32(0x0004_0000),                // RF status after configuration load
    ]
}

#[test]
fn init_success_marks_initialized() {
    let mut bus = SimBus::new(init_script_success(), vec![]);
    let mut state = Pn5180State::new();
    let d = init_pn5180(
        &mut bus,
        ReadyStrategy::FixedDelay,
        ResetStrategy::PowerOnSettle,
        &mut state,
    )
    .unwrap();
    assert!(state.initialized);
    assert_eq!(state.firmware_version, (4, 2, 5));
    assert!(matches!(d.ready, ReadyStrategy::FixedDelay));
    // The RF configuration load reached the bus.
    let has_rf_cfg = bus.log.iter().any(|e| match e {
        BusEvent::Write(c) => c.first() == Some(&CMD_LOAD_RF_CONFIG),
        _ => false,
    });
    assert!(has_rf_cfg);
}

#[test]
fn init_firmware_fault_is_contained() {
    // The firmware-version read faults: initialization aborts.
    let mut bus = SimBus::new(vec![BusReply::Fault], vec![]);
    let mut state = Pn5180State::new();
    let r = init_pn5180(
        &mut bus,
        ReadyStrategy::FixedDelay,
        ResetStrategy::PowerOnSettle,
        &mut state,
    );
    assert!(r.is_err());
    assert!(!state.initialized);
    // And no RF configuration load was ever attempted.
    let has_rf_cfg = bus.log.iter().any(|e| match e {
        BusEvent::Write(c) => c.first() == Some(&CMD_LOAD_RF_CONFIG),
        _ => false,
    });
    assert!(!has_rf_cfg);
}

#[test]
fn init_product_version_fault_is_tolerated() {
    let mut bus = SimBus::new(
        vec![
            BusReply::Data(vec![0x05, 0x42]),
            BusReply::Fault,     // product version read faults
            le32(0x0004_0000),   // RF status still answers
        ],
        vec![],
    );
    let mut state = Pn5180State::new();
    let r = init_pn5180(
        &mut bus,
        ReadyStrategy::FixedDelay,
        ResetStrategy::PowerOnSettle,
        &mut state,
    );
    assert!(r.is_ok());
    assert!(state.initialized);
}

#[test]
fn init_rf_config_fault_aborts() {
    let mut bus = SimBus::new(
        vec![
            BusReply::Data(vec![0x05, 0x42]),
            BusReply::Data(vec![0x07, 0x03]),
            BusReply::Fault, // RF status read faults
        ],
        vec![],
    );
    let mut state = Pn5180State::new();
    let r = init_pn5180(
        &mut bus,
        ReadyStrategy::FixedDelay,
        ResetStrategy::PowerOnSettle,
        &mut state,
    );
    assert!(r.is_err());
    assert!(!state.initialized);
}

#[test]
fn busy_signal_strategy_consumes_samples() {
    // Busy stays high for two samples, then clears; the command proceeds.
    let mut bus = SimBus::new(
        vec![BusReply::Data(vec![0x12, 0x34])],
        vec![true, true, false],
    );
    let d = Pn5180Driver {
        ready: ReadyStrategy::BusySignal,
        reset_strategy: ResetStrategy::HardwarePin,
    };
    let r = d.read_eeprom(&mut bus, 0x10, 2).unwrap();
    assert_eq!(r, vec![0x12, 0x34]);
    assert_eq!(bus.busy_cursor, 3);
}

#[test]
fn read_register_runs_two_independent_cycles() {
    let mut bus = SimBus::new(vec![BusReply::Data(vec![0, 0, 4, 0])], vec![]);
    let d = driver();
    d.read_register(&mut bus, 0x1D).unwrap();
    // Two complete select..deselect cycles: the command frame first, then
    // the response clocked out in a second, independent transaction.
    assert_eq!(bus.log.len(), 6);
    assert!(matches!(bus.log[0], BusEvent::Select));
    match &bus.log[1] {
        BusEvent::Write(c) => assert_eq!(c, &vec![0x04, 0x1D]),
        other => panic!("expected the command write, got {:?}", other),
    }
    assert!(matches!(bus.log[2], BusEvent::Deselect));
    assert!(matches!(bus.log[3], BusEvent::Select));
    assert!(matches!(bus.log[4], BusEvent::Read(4)));
    assert!(matches!(bus.log[5], BusEvent::Deselect));
}

#[test]
fn load_rf_config_issues_clear_load_check_in_order() {
    let mut bus = SimBus::new(vec![le32(0x0004_0000)], vec![]);
    let d = driver();
    d.load_rf_config_14443a(&mut bus).unwrap();
    assert_eq!(bus.log.len(), 12);
    // Clear pending interrupts first...
    match &bus.log[1] {
        BusEvent::Write(c) => assert_eq!(c, &vec![0x00, 0x03, 0xFF, 0xFF, 0xFF, 0xFF]),
        other => panic!("expected the interrupt clear, got {:?}", other),
    }
    // ...then load the 106 kbps type-A configuration...
    match &bus.log[4] {
        BusEvent::Write(c) => assert_eq!(c, &vec![CMD_LOAD_RF_CONFIG, 0x00, 0x80]),
        other => panic!("expected the configuration load, got {:?}", other),
    }
    // ...then read back the RF status register.
    match &bus.log[7] {
        BusEvent::Write(c) => assert_eq!(c, &vec![0x04, 0x1D]),
        other => panic!("expected the status read command, got {:?}", other),
    }
    assert!(matches!(bus.log[10], BusEvent::Read(4)));
}

#[test]
fn activation_wakes_the_field_in_order() {
    let mut bus = SimBus::new(activation_script(2, vec![0x44, 0x00]), vec![]);
    let d = driver();
    d.iso14443a_activate(&mut bus).unwrap().unwrap();
    // RF status read, interrupt clear, short-frame transmit config, the
    // wake command — in that order, before any status is consulted.
    match &bus.log[1] {
        BusEvent::Write(c) => assert_eq!(c, &vec![0x04, 0x1D]),
        other => panic!("expected the field status read, got {:?}", other),
    }
    match &bus.log[7] {
        BusEvent::Write(c) => assert_eq!(c, &vec![0x00, 0x03, 0xFF, 0xFF, 0xFF, 0xFF]),
        other => panic!("expected the interrupt clear, got {:?}", other),
    }
    match &bus.log[10] {
        BusEvent::Write(c) => assert_eq!(c, &vec![0x00, 0x14, 0x01, 0x00, 0x07, 0x00]),
        other => panic!("expected the transmit config, got {:?}", other),
    }
    match &bus.log[13] {
        BusEvent::Write(c) => assert_eq!(c, &vec![0x09, 0x26]),
        other => panic!("expected the wake command, got {:?}", other),
    }
}

#[test]
fn activation_reports_empty_uid_padding() {
    let mut bus = SimBus::new(activation_script(2, vec![0x44, 0x00]), vec![]);
    let d = driver();
    let card = d.iso14443a_activate(&mut bus).unwrap().unwrap();
    assert_eq!(card.uid, [0u8; 10]);
}
