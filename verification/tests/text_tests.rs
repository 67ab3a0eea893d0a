use caddy_manager::numerals::{index_width, parse_index, parse_u16, u64_to_dec, u64_to_dec_padded,
    IndexParse};
use caddy_manager::options::{get_conf_options, get_conf_sub_options, get_main_options,
    indexed_lines, map_options};

#[test]
fn decimal_rendering() {
    assert_eq!(u64_to_dec(0), "0".to_string());
    assert_eq!(u64_to_dec(7), "7".to_string());
    assert_eq!(u64_to_dec(10), "10".to_string());
    assert_eq!(u64_to_dec(8080), "8080".to_string());
    assert_eq!(u64_to_dec(u64::MAX), "18446744073709551615".to_string());
}

#[test]
fn decimal_padding() {
    assert_eq!(u64_to_dec_padded(7, 3), "007".to_string());
    assert_eq!(u64_to_dec_padded(42, 2), "42".to_string());
    assert_eq!(u64_to_dec_padded(42, 0), "42".to_string());
    assert_eq!(u64_to_dec_padded(0, 4), "0000".to_string());
}

#[test]
fn index_width_matches_digit_count() {
    assert_eq!(index_width(0), 0);
    assert_eq!(index_width(1), 1);
    assert_eq!(index_width(9), 1);
    assert_eq!(index_width(10), 2);
    assert_eq!(index_width(100), 3);
}

#[test]
fn parse_port_cases() {
    assert_eq!(parse_u16("8080"), Some(8080));
    assert_eq!(parse_u16("+80"), Some(80));
    assert_eq!(parse_u16("0"), Some(0));
    assert_eq!(parse_u16("65535"), Some(65535));
    assert_eq!(parse_u16("65536"), None);
    assert_eq!(parse_u16(""), None);
    assert_eq!(parse_u16("+"), None);
    assert_eq!(parse_u16("-1"), None);
    assert_eq!(parse_u16("80a"), None);
    assert_eq!(parse_u16(" 80"), None);
}

#[test]
fn parse_index_cases() {
    assert_eq!(parse_index("0", 3), IndexParse::Pick(0));
    assert_eq!(parse_index("2", 3), IndexParse::Pick(2));
    assert_eq!(parse_index("3", 3), IndexParse::OutOfRange);
    assert_eq!(parse_index("99", 3), IndexParse::OutOfRange);
    assert_eq!(parse_index("abort", 3), IndexParse::Invalid);
    assert_eq!(parse_index("", 3), IndexParse::Invalid);
    assert_eq!(parse_index("18446744073709551616", 3), IndexParse::Invalid);
}

#[test]
fn menu_lines_exact() {
    assert_eq!(
        get_main_options(),
        "Options: [A]dd [R]emove [S]how [E]nable [D]isable [C]onfigure [Q]uit".to_string()
    );
    assert_eq!(get_conf_options(), "Configure: [H]osts [T]argets [Q]uit".to_string());
    assert_eq!(get_conf_sub_options(), "Configure: [A]dd [R]emove [Q]uit".to_string());
}

#[test]
fn map_options_brackets_first_letters() {
    let line = map_options("Pick", vec!["One", "Two"]);
    assert_eq!(line, "Pick: [O]ne [T]wo".to_string());
    assert_eq!(map_options("Empty", Vec::new()), "Empty:".to_string());
}

#[test]
fn indexed_lines_padding() {
    let few: Vec<String> = vec!["alpha".to_string(), "beta".to_string()];
    assert_eq!(
        indexed_lines(&few),
        vec!["[0]: alpha".to_string(), "[1]: beta".to_string()]
    );

    let many: Vec<String> = (0..11).map(|i| format!("v{}", i)).collect();
    let lines = indexed_lines(&many);
    assert_eq!(lines[0], "[00]: v0".to_string());
    assert_eq!(lines[9], "[09]: v9".to_string());
    assert_eq!(lines[10], "[10]: v10".to_string());
}
