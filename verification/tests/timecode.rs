use ssa_parser::error::Error;
use ssa_parser::format_duration;
use ssa_parser::num::IntErrorKind;
use ssa_parser::parser::Parser;
use ssa_parser::Duration;

#[test]
fn test_format_duration() {
    let z: Duration = Duration::from_millis(0);
    assert_eq!(format_duration(&z), "0:00:00.00");
}

#[test]
fn test_duration_parse() {
    let d = Duration::parse("0v0:00:00.00");
    assert!(d.is_err());
    let d = Duration::parse("00:00:0000");
    assert!(d.is_err());
    let d = Duration::parse("08:35:09.88");
    assert!(d.is_ok());
    let d = Duration::parse("7:35:09.88");
    assert!(d.is_ok());
    let d = Duration::parse("08:35:99.88");
    assert!(d.is_err());
    let d = Duration::parse("08:60:9.88");
    assert!(d.is_err());
    let d = Duration::parse("24:59:9.88");
    assert!(d.is_err());
    let d = Duration::parse("24:59:9.1188");
    assert!(d.is_err());
}

#[test]
fn duration_default_is_zero() {
    assert_eq!(Duration::default(), Duration::from_millis(0));
    assert_eq!(Duration::default().as_millis(), 0);
}

#[test]
fn duration_parse_gives_milliseconds() {
    assert_eq!(
        Duration::parse("08:35:09.88").unwrap().as_millis(),
        8 * 3_600_000 + 35 * 60_000 + 9 * 1_000 + 88
    );
    assert_eq!(Duration::parse("0:00:00.00").unwrap().as_millis(), 0);
    assert_eq!(Duration::parse("0:00:00.5").unwrap().as_millis(), 5);
    assert_eq!(Duration::parse("0:00:00.50").unwrap().as_millis(), 50);
    assert_eq!(Duration::parse("0:00:00.500").unwrap().as_millis(), 500);
    assert_eq!(
        Duration::parse("23:59:59.999").unwrap().as_millis(),
        86_399_999
    );
    assert_eq!(Duration::parse("+1:+2:+3.+4").unwrap().as_millis(), 3_723_004);
}

#[test]
fn duration_format_pads_to_two_digits() {
    assert_eq!(format_duration(&Duration::from_millis(5)), "0:00:00.05");
    assert_eq!(format_duration(&Duration::from_millis(50)), "0:00:00.50");
    assert_eq!(format_duration(&Duration::from_millis(500)), "0:00:00.500");
    assert_eq!(
        format_duration(&Duration::from_millis(30_909_088)),
        "8:35:09.88"
    );
    assert_eq!(
        format_duration(&Duration::from_millis(86_399_999)),
        "23:59:59.999"
    );
    assert_eq!(
        format_duration(&Duration::from_millis(100 * 3_600_000 + 61_001)),
        "100:01:01.01"
    );
    assert_eq!(
        format_duration(&Duration::from_millis(u64::MAX)),
        "5124095576030:25:51.615"
    );
}

#[test]
fn duration_written_is_read_back() {
    for ms in [0u64, 1, 9, 10, 99, 100, 999, 1_000, 59_999, 60_000, 3_599_999, 3_600_000, 86_399_999] {
        let d = Duration::from_millis(ms);
        assert_eq!(Duration::parse(&format_duration(&d)).unwrap(), d);
    }
    for text in ["08:35:09.88", "7:35:09.88", "0:0:0.0", "23:59:59.999"] {
        let d = Duration::parse(text).unwrap();
        let again = Duration::parse(&format_duration(&d)).unwrap();
        assert_eq!(again, d);
        assert_eq!(format_duration(&again), format_duration(&d));
    }
}

fn shape(src: &str) -> Error {
    Error::ParseError {
        ty: "Duration",
        msg: format!("invalid duration format {}", src),
    }
}

fn range(what: &str, src: &str) -> Error {
    Error::ParseError {
        ty: "Duration",
        msg: format!("{} {} out of range", what, src),
    }
}

#[test]
fn duration_errors() {
    assert_eq!(Duration::parse("00:00:0000").unwrap_err(), shape("00:00:0000"));
    assert_eq!(Duration::parse("").unwrap_err(), shape(""));
    assert_eq!(Duration::parse("1:2:3.4.5").unwrap_err(), shape("1:2:3.4.5"));
    assert_eq!(Duration::parse("1:2.3").unwrap_err(), shape("1:2.3"));
    assert_eq!(Duration::parse("1:2:3:4.5").unwrap_err(), shape("1:2:3:4.5"));
    assert_eq!(
        Duration::parse("0v0:00:00.00").unwrap_err(),
        Error::ParseIntError {
            error: IntErrorKind::InvalidDigit,
            msg: "0v0".to_string()
        }
    );
    assert_eq!(
        Duration::parse(":00:00.00").unwrap_err(),
        Error::ParseIntError {
            error: IntErrorKind::Empty,
            msg: "".to_string()
        }
    );
    assert_eq!(
        Duration::parse("0:00:00.").unwrap_err(),
        Error::ParseIntError {
            error: IntErrorKind::Empty,
            msg: "".to_string()
        }
    );
    assert_eq!(
        Duration::parse("0:-1:00.00").unwrap_err(),
        Error::ParseIntError {
            error: IntErrorKind::InvalidDigit,
            msg: "-1".to_string()
        }
    );
    assert_eq!(
        Duration::parse("99999999999999999999:00:00.00").unwrap_err(),
        Error::ParseIntError {
            error: IntErrorKind::PosOverflow,
            msg: "99999999999999999999".to_string()
        }
    );
    assert_eq!(
        Duration::parse("24:59:9.88").unwrap_err(),
        range("hour", "24:59:9.88")
    );
    assert_eq!(
        Duration::parse("08:60:9.88").unwrap_err(),
        range("minute", "08:60:9.88")
    );
    assert_eq!(
        Duration::parse("08:35:99.88").unwrap_err(),
        range("second", "08:35:99.88")
    );
    assert_eq!(
        Duration::parse("08:35:09.1000").unwrap_err(),
        range("millisecond", "08:35:09.1000")
    );
    assert_eq!(
        Duration::parse("24:60:60.1000").unwrap_err(),
        range("hour", "24:60:60.1000")
    );
}
