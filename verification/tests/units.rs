use ucgen::config::Config;
use ucgen::mappings::CaseMappings;
use ucgen::numerals::{dec_str, hex_str, parse_hex};
use ucgen::record::split_fields;

#[test]
fn parse_hex_simple_values() {
    assert_eq!(parse_hex("0"), Some(0));
    assert_eq!(parse_hex("0041"), Some(0x41));
    assert_eq!(parse_hex("10FFFF"), Some(0x10FFFF));
    assert_eq!(parse_hex("ffffffff"), Some(u32::MAX));
}

#[test]
fn parse_hex_accepts_both_letter_cases() {
    assert_eq!(parse_hex("AbC"), Some(0xABC));
    assert_eq!(parse_hex("DEADbeef"), Some(0xDEADBEEF));
}

#[test]
fn parse_hex_rejects_empty_and_non_digits() {
    assert_eq!(parse_hex(""), None);
    assert_eq!(parse_hex("12G4"), None);
    assert_eq!(parse_hex("0x41"), None);
    assert_eq!(parse_hex("-41"), None);
    assert_eq!(parse_hex(" 41"), None);
}

#[test]
fn parse_hex_rejects_overflow() {
    assert_eq!(parse_hex("100000000"), None);
    assert_eq!(parse_hex("ffffffff0"), None);
}

#[test]
fn hex_str_renders_lowercase_without_leading_zeros() {
    assert_eq!(hex_str(0), "0");
    assert_eq!(hex_str(0x41), "41");
    assert_eq!(hex_str(0x1C5), "1c5");
    assert_eq!(hex_str(u32::MAX), "ffffffff");
}

#[test]
fn dec_str_renders_indices() {
    assert_eq!(dec_str(0), "0");
    assert_eq!(dec_str(10), "10");
    assert_eq!(dec_str(12345), "12345");
}

#[test]
fn split_fields_on_semicolons() {
    assert_eq!(split_fields("a;;b"), vec!["a", "", "b"]);
    assert_eq!(split_fields(""), vec![""]);
    assert_eq!(split_fields(";"), vec!["", ""]);
    assert_eq!(split_fields("0041;X;"), vec!["0041", "X", ""]);
}

#[test]
fn read_mappings_treats_absent_fields_as_empty() {
    let mut m = CaseMappings::new();
    let record: Vec<String> = vec!["41".to_string()];
    assert!(m.read_mappings(&record).is_ok());
    assert_eq!(m.to_lower.len(), 0);
    assert_eq!(m.to_upper.len(), 0);
    assert_eq!(m.to_title.len(), 0);
}

#[test]
fn read_mappings_rejects_record_without_code_point() {
    let mut m = CaseMappings::new();
    let record: Vec<String> = Vec::new();
    assert!(m.read_mappings(&record).is_err());
    let record: Vec<String> = vec!["".to_string()];
    assert!(m.read_mappings(&record).is_err());
}

#[test]
fn read_mappings_appends_in_kind_order() {
    let mut m = CaseMappings::new();
    let record: Vec<String> =
        "01C5;N;Lt;0;L;;;;;N;;;01C4;01C6;01C5".split(';').map(|f| f.to_string()).collect();
    assert!(m.read_mappings(&record).is_ok());
    assert_eq!(m.to_upper[0].from, 0x1C5);
    assert_eq!(m.to_upper[0].to, 0x1C4);
    assert_eq!(m.to_lower[0].to, 0x1C6);
    assert_eq!(m.to_title[0].to, 0x1C5);
}

#[test]
fn config_defaults_when_arguments_absent() {
    let c = Config::new(vec!["prog".to_string()]);
    assert_eq!(c.unicode_data_path, "UnicodeData.txt");
    assert_eq!(c.template_path, "template.uc");
}

#[test]
fn config_takes_paths_from_arguments() {
    let c = Config::new(vec![
        "prog".to_string(),
        "data.txt".to_string(),
        "base.uc".to_string(),
    ]);
    assert_eq!(c.unicode_data_path, "data.txt");
    assert_eq!(c.template_path, "base.uc");
}

#[test]
fn config_template_defaults_with_one_argument() {
    let c = Config::new(vec!["prog".to_string(), "data.txt".to_string()]);
    assert_eq!(c.unicode_data_path, "data.txt");
    assert_eq!(c.template_path, "template.uc");
}
