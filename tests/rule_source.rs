use udger::{drop_final_blank, trim_device_name_source, trim_rule_source, version_major};

#[test]
fn rule_source_loses_trailing_whitespace_and_blank() {
    assert_eq!(trim_rule_source("/firefox\\/([0-9.]+)/si "), "/firefox\\/([0-9.]+)/si");
    assert_eq!(trim_rule_source("abc  "), "abc");
    assert_eq!(trim_rule_source("abc \t"), "abc");
    assert_eq!(trim_rule_source("abc"), "abc");
    assert_eq!(trim_rule_source(""), "");
}

#[test]
fn device_name_source_loses_one_trailing_whitespace() {
    assert_eq!(trim_device_name_source("abc  "), "abc ");
    assert_eq!(trim_device_name_source("x\t"), "x");
    assert_eq!(trim_device_name_source("x"), "x");
}

#[test]
fn final_blank_dropped_once() {
    assert_eq!(drop_final_blank("a  "), "a ");
    assert_eq!(drop_final_blank("a\t"), "a\t");
    assert_eq!(drop_final_blank(""), "");
}

#[test]
fn version_major_is_part_before_first_dot() {
    assert_eq!(version_major("79.0.3945.117"), "79");
    assert_eq!(version_major("40.0"), "40");
    assert_eq!(version_major("40"), "40");
    assert_eq!(version_major(".5"), "");
    assert_eq!(version_major(""), "");
}

#[test]
fn unicode_white_space_counts_as_trailing_space() {
    assert_eq!(trim_device_name_source("x\u{3000}"), "x");
    assert_eq!(trim_device_name_source("x\u{85}"), "x");
    assert_eq!(trim_device_name_source("x\u{200b}"), "x\u{200b}");
    assert_eq!(trim_rule_source("x \u{a0}"), "x");
}
