//! Tests of the calibration record codec and the calibration store.

use spoolbuddy::calib::{CalStore, Calibration};

#[test]
fn encode_layout_is_little_endian() {
    let c = Calibration {
        zero_offset: 0x0403_0201,
        cal_factor_x1000: 0x0807_0605,
    };
    let b = c.encode();
    assert_eq!(b, vec![0x01, 0x02, 0x03, 0x04, 0x05, 0x06, 0x07, 0x08]);
}

#[test]
fn encode_negative_offset_two_complement() {
    let c = Calibration {
        zero_offset: -1,
        cal_factor_x1000: 1000,
    };
    let b = c.encode();
    assert_eq!(b, vec![0xFF, 0xFF, 0xFF, 0xFF, 0xE8, 0x03, 0x00, 0x00]);
}

#[test]
fn decode_recovers_fields() {
    let b = vec![0xE8, 0x03, 0x00, 0x00, 0xD0, 0x07, 0x00, 0x00];
    let c = Calibration::decode(&b).unwrap();
    assert_eq!(c.zero_offset, 1000);
    assert_eq!(c.cal_factor_x1000, 2000);
}

#[test]
fn round_trip_exact() {
    let cases = [
        (0, 1000),
        (-123456, 1),
        (2147483647, -1000),
        (-2147483648, 2147483647),
        (42, -2147483648),
    ];
    for (z, f) in cases {
        let c = Calibration {
            zero_offset: z,
            cal_factor_x1000: f,
        };
        let back = Calibration::decode(&c.encode()).unwrap();
        assert_eq!(back.zero_offset, z);
        assert_eq!(back.cal_factor_x1000, f);
    }
}

#[test]
fn decode_rejects_zero_factor() {
    let b = vec![0xE8, 0x03, 0x00, 0x00, 0x00, 0x00, 0x00, 0x00];
    assert!(Calibration::decode(&b).is_none());
}

#[test]
fn decode_rejects_wrong_length() {
    assert!(Calibration::decode(&vec![]).is_none());
    assert!(Calibration::decode(&vec![1, 2, 3, 4, 5, 6, 7]).is_none());
    assert!(Calibration::decode(&vec![1, 2, 3, 4, 5, 6, 7, 8, 9]).is_none());
}

#[test]
fn store_round_trip() {
    let mut store = CalStore::new();
    assert!(store.load().is_none());
    let c = Calibration {
        zero_offset: -777,
        cal_factor_x1000: 1234,
    };
    assert!(store.save(&c));
    let back = store.load().unwrap();
    assert_eq!(back.zero_offset, -777);
    assert_eq!(back.cal_factor_x1000, 1234);
}

#[test]
fn store_save_failure_keeps_old_record() {
    let mut store = CalStore::new();
    let first = Calibration {
        zero_offset: 1,
        cal_factor_x1000: 1000,
    };
    assert!(store.save(&first));
    store.accept_writes = false;
    let second = Calibration {
        zero_offset: 2,
        cal_factor_x1000: 2000,
    };
    assert!(!store.save(&second));
    let back = store.load().unwrap();
    assert_eq!(back.zero_offset, 1);
    assert_eq!(back.cal_factor_x1000, 1000);
}
