use anchorkit::timefmt::format_timestamp;
use anchorkit::version::{
    check_rust_version_output, parse_rustc_version, RustVersionCheck, MIN_RUST_MAJOR,
    MIN_RUST_MINOR,
};

#[test]
fn parses_rustc_banner() {
    assert_eq!(parse_rustc_version("rustc 1.75.0 (82e1608df 2023-12-21)\n"), Some((1, 75)));
    assert_eq!(parse_rustc_version("  rustc\t1.56.1"), Some((1, 56)));
    assert_eq!(parse_rustc_version("rustc 2.0"), Some((2, 0)));
}

#[test]
fn rejects_malformed_banners() {
    assert_eq!(parse_rustc_version(""), None);
    assert_eq!(parse_rustc_version("rustc"), None);
    assert_eq!(parse_rustc_version("rustc 1"), None);
    assert_eq!(parse_rustc_version("rustc 1.x.0"), None);
    assert_eq!(parse_rustc_version("rustc .75.0"), None);
    assert_eq!(parse_rustc_version("rustc 1.-2.0"), None);
    assert_eq!(parse_rustc_version("rustc 4294967296.1"), None);
}

#[test]
fn version_numbers_follow_u32_parsing() {
    assert_eq!(parse_rustc_version("rustc +1.+2"), Some((1, 2)));
    assert_eq!(parse_rustc_version("rustc 001.056"), Some((1, 56)));
    assert_eq!(parse_rustc_version("rustc 4294967295.0"), Some((4294967295, 0)));
    assert_eq!(parse_rustc_version("rustc +.1"), None);
}

#[test]
fn classifies_toolchains() {
    assert_eq!((MIN_RUST_MAJOR, MIN_RUST_MINOR), (1, 56));
    assert_eq!(
        check_rust_version_output("rustc 1.56.0 (abc 2021-10-20)"),
        RustVersionCheck::Supported { major: 1, minor: 56 }
    );
    assert_eq!(
        check_rust_version_output("rustc 1.55.0"),
        RustVersionCheck::TooOld { major: 1, minor: 55 }
    );
    assert_eq!(
        check_rust_version_output("rustc 2.0.0"),
        RustVersionCheck::Supported { major: 2, minor: 0 }
    );
    assert_eq!(
        check_rust_version_output("rustc 0.99.0"),
        RustVersionCheck::TooOld { major: 0, minor: 99 }
    );
    assert_eq!(check_rust_version_output("command not found"), RustVersionCheck::Unrecognized);
}

#[test]
fn formats_one_day() {
    assert_eq!(format_timestamp(86400), "1d 00h 00m 00s");
}

#[test]
fn formats_timestamps() {
    assert_eq!(format_timestamp(0), "0d 00h 00m 00s");
    assert_eq!(format_timestamp(1234567890), "14288d 23h 31m 30s");
    assert_eq!(format_timestamp(86399), "0d 23h 59m 59s");
    assert_eq!(format_timestamp(3661), "0d 01h 01m 01s");
    assert_eq!(format_timestamp(u64::MAX), "213503982334601d 07h 00m 15s");
}

#[test]
fn timestamp_fields_add_back_up() {
    let ts: u64 = 1234567890;
    let (d, h, m, s) = (ts / 86400, (ts % 86400) / 3600, (ts % 3600) / 60, ts % 60);
    assert_eq!(d * 86400 + h * 3600 + m * 60 + s, ts);
    assert_eq!(format_timestamp(ts), format!("{}d {:02}h {:02}m {:02}s", d, h, m, s));
}
