use cs2_radar::bytes::{c_string_end, c_string_to_string, decode_le};
use cs2_radar::text::{chars_of, contains_chars};
use cs2_radar::verbosity::{verbosity_for_count, LogVerbosity};

#[test]
fn little_endian_decoding() {
    assert_eq!(decode_le(&[]), 0);
    assert_eq!(decode_le(&[0x01, 0x02]), 0x0201);
    assert_eq!(decode_le(&0xdead_beef_0bad_f00du64.to_le_bytes()), 0xdead_beef_0bad_f00d);
    assert_eq!(decode_le(&[0xff; 8]), u64::MAX);
    assert_eq!(decode_le(&(-2i32).to_le_bytes()) as u32 as i32, -2);
}

#[test]
fn c_strings() {
    assert_eq!(c_string_end(b"abc\0def"), 3);
    assert_eq!(c_string_end(b"abc"), 3);
    assert_eq!(c_string_end(b"\0"), 0);
    assert_eq!(c_string_to_string(b"de_mirage\0\0\0"), "de_mirage");
    assert_eq!(c_string_to_string(b"caf\xc3\xa9\0x"), "caf\u{e9}");
    assert_eq!(c_string_to_string(b"\xc3"), "\u{FFFD}");
}

#[test]
fn substring_search() {
    let hay = chars_of("hello CONNECT world");
    assert!(contains_chars(&hay, &chars_of("CONNECT")));
    assert!(contains_chars(&hay, &chars_of("")));
    assert!(!contains_chars(&hay, &chars_of("connect")));
    assert!(!contains_chars(&chars_of("ab"), &chars_of("abc")));
    assert_eq!(chars_of("añb"), vec!['a', 'ñ', 'b']);
}

#[test]
fn verbosity_levels() {
    assert_eq!(verbosity_for_count(0), LogVerbosity::Error);
    assert_eq!(verbosity_for_count(1), LogVerbosity::Warn);
    assert_eq!(verbosity_for_count(2), LogVerbosity::Info);
    assert_eq!(verbosity_for_count(3), LogVerbosity::Debug);
    assert_eq!(verbosity_for_count(4), LogVerbosity::Trace);
    assert_eq!(verbosity_for_count(200), LogVerbosity::Trace);
}

#[test]
fn more_flags_are_never_less_verbose() {
    let rank = |v: LogVerbosity| match v {
        LogVerbosity::Error => 0,
        LogVerbosity::Warn => 1,
        LogVerbosity::Info => 2,
        LogVerbosity::Debug => 3,
        LogVerbosity::Trace => 4,
    };
    for a in 0..=255u8 {
        for b in a..=255u8 {
            assert!(rank(verbosity_for_count(a)) <= rank(verbosity_for_count(b)));
        }
    }
}
