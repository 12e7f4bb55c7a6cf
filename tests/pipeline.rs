use keyboard_pipeline::board::{
    caps_lock_level, BoardConfig, BOOT_FLAG_REGISTER, BOOT_FLAG_VALUE, DEBOUNCE_TICKS, TICK_HZ,
};
use keyboard_pipeline::report::{
    build_report, is_modifier_code, shown_mask, modifier_bit_of, retry_write, same_bytes, HidPipeline,
};

const LSHIFT: u8 = 0xE1;
const LCTRL: u8 = 0xE0;
const RALT: u8 = 0xE6;
const A: u8 = 0x04;
const B: u8 = 0x05;
const SPACE: u8 = 0x2C;

#[test]
fn report_modifier_and_key() {
    assert_eq!(build_report(&vec![LSHIFT, A]), vec![0x02, 0, A, 0, 0, 0, 0, 0]);
}

#[test]
fn report_empty_is_all_zero() {
    assert_eq!(build_report(&vec![]), vec![0u8; 8]);
}

#[test]
fn report_modifiers_combine() {
    assert_eq!(build_report(&vec![LCTRL, RALT, LSHIFT]), vec![0x43, 0, 0, 0, 0, 0, 0, 0]);
}

#[test]
fn report_caps_at_six_keys() {
    let codes: Vec<u8> = vec![4, 5, 6, 7, LCTRL, 8, 9, 10, 11, 12];
    let r = build_report(&codes);
    assert_eq!(r, vec![0x01, 0, 4, 5, 6, 7, 8, 9]);
    assert!(r[2..].iter().filter(|b| **b != 0).count() <= 6);
}

#[test]
fn report_skips_no_key() {
    assert_eq!(build_report(&vec![0, B, 0]), vec![0, 0, B, 0, 0, 0, 0, 0]);
}

#[test]
fn modifier_codes() {
    assert!(is_modifier_code(0xE0));
    assert!(is_modifier_code(0xE7));
    assert!(!is_modifier_code(0xE8));
    assert!(!is_modifier_code(A));
    assert_eq!(modifier_bit_of(0xE7), 0x80);
    assert_eq!(modifier_bit_of(A), 0);
}

#[test]
fn send_twice_writes_once() {
    let mut p = HidPipeline::new();
    let codes = vec![A, SPACE];
    let first = p.send(&codes);
    assert_eq!(first, Some(vec![0, 0, A, SPACE, 0, 0, 0, 0]));
    p.sent(&first.unwrap());
    assert_eq!(p.send(&codes), None);
    assert_eq!(p.last_report(), &vec![0, 0, A, SPACE, 0, 0, 0, 0]);
}

#[test]
fn send_after_failed_write_writes_again() {
    let p = HidPipeline::new();
    let codes = vec![B];
    assert_eq!(p.send(&codes), Some(vec![0, 0, B, 0, 0, 0, 0, 0]));
    // the write failed: nothing was recorded
    assert_eq!(p.send(&codes), Some(vec![0, 0, B, 0, 0, 0, 0, 0]));
    assert_eq!(p.last_report(), &vec![0u8; 8]);
}

#[test]
fn send_nothing_on_fresh_pipeline() {
    let p = HidPipeline::new();
    assert_eq!(p.last_report(), &vec![0u8; 8]);
    assert_eq!(p.send(&vec![]), None);
}

#[test]
fn send_release_writes_empty_report() {
    let mut p = HidPipeline::new();
    let r = p.send(&vec![B]).unwrap();
    p.sent(&r);
    assert_eq!(p.send(&vec![]), Some(vec![0u8; 8]));
}

#[test]
fn retry_only_on_zero_bytes() {
    assert!(retry_write(Some(0)));
    assert!(!retry_write(Some(8)));
    assert!(!retry_write(None));
}

#[test]
fn byte_comparison() {
    assert!(same_bytes(&vec![1, 2], &vec![1, 2]));
    assert!(!same_bytes(&vec![1, 2], &vec![1, 3]));
    assert!(!same_bytes(&vec![1], &vec![1, 0]));
}

#[test]
fn board_constants() {
    assert_eq!(BOOT_FLAG_REGISTER, 9);
    assert_eq!(BOOT_FLAG_VALUE, 0x424C);
    assert_eq!(DEBOUNCE_TICKS, 5);
    assert_eq!(TICK_HZ, 1000);
    let b = BoardConfig::sixty();
    assert_eq!(b.keys(), 60);
    assert!(b.contains(4, 11));
    assert!(!b.contains(5, 0));
    assert_eq!(BoardConfig::seventy_five().keys(), 75);
}

#[test]
fn caps_lock_led_active_low() {
    assert!(!caps_lock_level(true));
    assert!(caps_lock_level(false));
}


#[test]
fn shown_mask_keeps_modifiers_and_first_six_keys() {
    let codes: Vec<u8> = vec![4, 5, 0, 6, 7, LCTRL, 8, 9, 10, LSHIFT, 11];
    assert_eq!(
        shown_mask(&codes),
        vec![true, true, false, true, true, true, true, true, false, true, false]
    );
}
