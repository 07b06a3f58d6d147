use falcon::ids::{uuid_canonical, uuid_v4_string};
use falcon::names::u64_to_string;
use falcon::sidecar::{
    err_file_name, out_file_name, parse_pid, parse_port, parse_u64, pid_file_name, port_file_name,
    sidecar_files, trim_end_str, uuid_file_name,
};

#[test]
fn decimal_round_trip() {
    // What launch writes into a sidecar file parses back to the value
    // that was written.
    assert_eq!(parse_u64(&u64_to_string(0)), Some(0));
    assert_eq!(parse_u64(&u64_to_string(4522)), Some(4522));
    assert_eq!(parse_u64(&u64_to_string(u64::MAX)), Some(u64::MAX));
    assert_eq!(parse_port(&u64_to_string(65535)), Some(65535));
    assert_eq!(parse_pid(&u64_to_string(12345)), Some(12345));
}

#[test]
fn trailing_whitespace_is_trimmed() {
    assert_eq!(trim_end_str("4522\n"), "4522");
    assert_eq!(trim_end_str("4522 \t\r\n"), "4522");
    assert_eq!(parse_u64("4522\n"), Some(4522));
    assert_eq!(parse_pid("812 \n"), Some(812));
}

#[test]
fn malformed_integers_are_rejected() {
    assert_eq!(parse_u64(""), None);
    assert_eq!(parse_u64("  \n"), None);
    assert_eq!(parse_u64("12a"), None);
    assert_eq!(parse_u64("-4"), None);
    assert_eq!(parse_u64("18446744073709551616"), None);
    assert_eq!(parse_port("65536"), None);
    assert_eq!(parse_pid("2147483648"), None);
    assert_eq!(parse_pid("2147483647"), Some(2147483647));
}

#[test]
fn file_names() {
    assert_eq!(pid_file_name("violin"), "violin.pid");
    assert_eq!(port_file_name("violin"), "violin.port");
    assert_eq!(uuid_file_name("violin"), "violin.uuid");
    assert_eq!(out_file_name("violin"), "violin.out");
    assert_eq!(err_file_name("violin"), "violin.err");
}

#[test]
fn launch_writes_three_files_that_parse() {
    let files = sidecar_files("violin", 812, 4522, "9e5c27cb-86a1-4d6e-9ddc-1a8f0a0d60bc");
    assert_eq!(files.len(), 3);
    assert_eq!(files[0].0, "violin.pid");
    assert_eq!(parse_pid(&files[0].1), Some(812));
    assert_eq!(files[1].0, "violin.port");
    assert_eq!(parse_port(&files[1].1), Some(4522));
    assert_eq!(files[2].0, "violin.uuid");
    assert!(uuid_canonical(&files[2].1));
}

#[test]
fn uuid_validation() {
    assert!(uuid_canonical("9e5c27cb-86a1-4d6e-9ddc-1a8f0a0d60bc"));
    assert!(!uuid_canonical("9E5C27CB-86A1-4D6E-9DDC-1A8F0A0D60BC"));
    assert!(!uuid_canonical("9e5c27cb86a14d6e9ddc1a8f0a0d60bc"));
    assert!(!uuid_canonical("9e5c27cb-86a1-4d6e-9ddc-1a8f0a0d60b"));
    assert!(!uuid_canonical(""));
}

#[test]
fn generated_ids_are_canonical_and_fresh() {
    let a = uuid_v4_string();
    let b = uuid_v4_string();
    assert!(uuid_canonical(&a));
    assert!(uuid_canonical(&b));
    assert_ne!(a, b);
}
