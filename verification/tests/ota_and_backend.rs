//! Tests of the firmware validity check, the JSON field extractors, and
//! the backend color helpers.

use spoolbuddy::backend::{lighten_color, parse_rgba_color, rgb565_of, BackendState};
use spoolbuddy::manager::DisplaySettings;
use spoolbuddy::ota::{
    extract_json_number, extract_json_string, find_pattern, parse_update_info, validate_firmware,
    OtaError, OtaManager, OtaState,
};

fn image(first: u8, second: u8, len: usize) -> Vec<u8> {
    let mut v = vec![0u8; len];
    if len > 0 {
        v[0] = first;
    }
    if len > 1 {
        v[1] = second;
    }
    v
}

#[test]
fn firmware_too_small() {
    assert_eq!(
        validate_firmware(&image(0xE9, 1, 255)),
        Err(OtaError::TooSmall)
    );
    assert_eq!(validate_firmware(&vec![]), Err(OtaError::TooSmall));
}

#[test]
fn firmware_bad_magic() {
    assert_eq!(
        validate_firmware(&image(0x7F, 1, 256)),
        Err(OtaError::BadMagic(0x7F))
    );
}

#[test]
fn firmware_bad_segment_count() {
    assert_eq!(
        validate_firmware(&image(0xE9, 0, 256)),
        Err(OtaError::BadSegmentCount(0))
    );
    assert_eq!(
        validate_firmware(&image(0xE9, 17, 256)),
        Err(OtaError::BadSegmentCount(17))
    );
}

#[test]
fn firmware_plausible() {
    assert!(validate_firmware(&image(0xE9, 1, 256)).is_ok());
    assert!(validate_firmware(&image(0xE9, 16, 4096)).is_ok());
}

#[test]
fn ota_state_machine_holds_state() {
    let mut m = OtaManager::new();
    assert_eq!(m.get_state(), OtaState::Idle);
    m.set_state(OtaState::Downloading { progress: 40 });
    assert_eq!(m.get_state(), OtaState::Downloading { progress: 40 });
    m.set_state(OtaState::Error(OtaError::TooSmall));
    assert_eq!(m.get_state(), OtaState::Error(OtaError::TooSmall));
}

#[test]
fn find_pattern_reports_first_occurrence() {
    let s = b"abcabc".to_vec();
    let p = b"abc".to_vec();
    assert_eq!(find_pattern(&s, &p, 0), Some(0));
    assert_eq!(find_pattern(&s, &p, 1), Some(3));
    assert_eq!(find_pattern(&s, &p, 4), None);
    assert_eq!(find_pattern(&s, &b"xyz".to_vec(), 0), None);
}

#[test]
fn extract_string_reads_quoted_value() {
    let json = b"{\"latest_version\":\"1.4.2\",\"checksum\":\"abc123\"}".to_vec();
    assert_eq!(
        extract_json_string(&json, &b"latest_version".to_vec()),
        Some(b"1.4.2".to_vec())
    );
    assert_eq!(
        extract_json_string(&json, &b"checksum".to_vec()),
        Some(b"abc123".to_vec())
    );
    assert_eq!(extract_json_string(&json, &b"missing".to_vec()), None);
}

#[test]
fn extract_string_accepts_space_after_colon() {
    let json = b"{\"latest_version\": \"2.0.0\"}".to_vec();
    assert_eq!(
        extract_json_string(&json, &b"latest_version".to_vec()),
        Some(b"2.0.0".to_vec())
    );
}

#[test]
fn extract_number_reads_digits() {
    let json = b"{\"size\":123456,\"x\":1}".to_vec();
    assert_eq!(extract_json_number(&json, &b"size".to_vec()), Some(123456));
}

#[test]
fn extract_number_skips_whitespace() {
    let json = b"{\"size\":   42}".to_vec();
    assert_eq!(extract_json_number(&json, &b"size".to_vec()), Some(42));
}

#[test]
fn extract_number_rejects_missing_and_empty() {
    let json = b"{\"size\":\"big\"}".to_vec();
    assert_eq!(extract_json_number(&json, &b"size".to_vec()), None);
    assert_eq!(extract_json_number(&json, &b"other".to_vec()), None);
}

#[test]
fn extract_number_rejects_overflow() {
    let json = b"{\"size\":99999999999}".to_vec();
    assert_eq!(extract_json_number(&json, &b"size".to_vec()), None);
    let fits = b"{\"size\":4294967295}".to_vec();
    assert_eq!(
        extract_json_number(&fits, &b"size".to_vec()),
        Some(4294967295)
    );
}

#[test]
fn parse_update_info_reads_all_fields() {
    let body = b"{\"update_available\":true,\"latest_version\":\"1.2.3\",\"size\":1024,\"checksum\":\"deadbeef\"}"
        .to_vec();
    let u = parse_update_info(&body);
    assert!(u.available);
    assert_eq!(u.version, b"1.2.3".to_vec());
    assert_eq!(u.size, 1024);
    assert_eq!(u.checksum, b"deadbeef".to_vec());
}

#[test]
fn parse_update_info_defaults() {
    let body = b"{\"update_available\":false}".to_vec();
    let u = parse_update_info(&body);
    assert!(!u.available);
    assert_eq!(u.version, b"unknown".to_vec());
    assert_eq!(u.size, 0);
    assert_eq!(u.checksum, b"".to_vec());
}

#[test]
fn parse_update_info_accepts_spaced_flag() {
    let body = b"{\"update_available\": true}".to_vec();
    let u = parse_update_info(&body);
    assert!(u.available);
}

#[test]
fn rgba_color_parses_hex() {
    assert_eq!(parse_rgba_color(&b"FF0000FF".to_vec()), 0xFF0000FF);
    assert_eq!(parse_rgba_color(&b"00ff00ff".to_vec()), 0x00FF00FF);
    assert_eq!(parse_rgba_color(&b"12aB".to_vec()), 0x12AB);
}

#[test]
fn rgba_color_falls_back_to_zero() {
    assert_eq!(parse_rgba_color(&b"".to_vec()), 0);
    assert_eq!(parse_rgba_color(&b"red".to_vec()), 0);
    assert_eq!(parse_rgba_color(&b"FF00z0".to_vec()), 0);
    // Nine meaningful hex digits overflow 32 bits.
    assert_eq!(parse_rgba_color(&b"100000000".to_vec()), 0);
}

#[test]
fn lighten_color_saturates_channels() {
    assert_eq!(lighten_color(0x102030, 0x10), 0x203040);
    assert_eq!(lighten_color(0xF0F0F0, 0x20), 0xFFFFFF);
    assert_eq!(lighten_color(0x000000, 0xFF), 0xFFFFFF);
    // The top byte of the input is dropped.
    assert_eq!(lighten_color(0xAA102030, 0), 0x102030);
}

#[test]
fn backend_state_compares() {
    let a = BackendState::Connected {
        ip: [192, 168, 1, 10],
        port: 3000,
    };
    assert_eq!(
        a,
        BackendState::Connected {
            ip: [192, 168, 1, 10],
            port: 3000,
        }
    );
    assert_ne!(a, BackendState::Disconnected);
}

#[test]
fn rgb565_packs_channels() {
    assert_eq!(rgb565_of(0xFFFFFF), 0xFFFF);
    assert_eq!(rgb565_of(0x000000), 0x0000);
    assert_eq!(rgb565_of(0xFF0000), 0xF800);
    assert_eq!(rgb565_of(0x00FF00), 0x07E0);
    assert_eq!(rgb565_of(0x0000FF), 0x001F);
    assert_eq!(rgb565_of(0x2D2D2D), 0x2965);
}

#[test]
fn display_settings_clamp_and_hold() {
    let mut d = DisplaySettings::new();
    assert_eq!(d.display_get_brightness(), 80);
    assert_eq!(d.display_get_timeout(), 300);
    assert_eq!(d.display_set_brightness(150), 100);
    assert_eq!(d.display_get_brightness(), 100);
    assert_eq!(d.display_set_brightness(35), 35);
    d.display_set_timeout(60);
    assert_eq!(d.display_get_timeout(), 60);
    assert_eq!(d.display_get_brightness(), 35);
}
