use ssa_parser::error::{Error, FloatErrorKind};
use ssa_parser::num::{parse_int, parse_u64, push_dec, push_dec_pad2, push_int, IntErrorKind};
use ssa_parser::parser::{parse_f64, parse_i64};
use ssa_parser::text::{
    concat_with, has_prefix, is_lower_of, is_space_char, is_text, is_text_ignore_case,
    lower_char, push_line, same_chars, slice, split_chars, splitn_chars, to_chars, to_lower,
    to_text, trimmed,
};
use ssa_parser::value::Value;

fn chars(s: &str) -> Vec<char> {
    s.chars().collect()
}

fn strings(v: Vec<Vec<char>>) -> Vec<String> {
    v.iter().map(|p| p.iter().collect()).collect()
}

#[test]
fn integers_are_read_as_rust_reads_them() {
    for s in [
        "0", "7", "-7", "+7", "007", "-0", "9223372036854775807", "-9223372036854775808",
    ] {
        assert_eq!(
            parse_int(&chars(s), i64::MIN, i64::MAX).unwrap(),
            s.parse::<i64>().unwrap()
        );
    }
    assert_eq!(parse_int(&chars(""), i64::MIN, i64::MAX), Err(IntErrorKind::Empty));
    for s in ["+", "-", "1a", "a", " 1", "1 ", "+-1", "1.0", "١"] {
        assert_eq!(
            parse_int(&chars(s), i64::MIN, i64::MAX),
            Err(IntErrorKind::InvalidDigit)
        );
        assert!(s.parse::<i64>().is_err());
    }
    assert_eq!(
        parse_int(&chars("9223372036854775808"), i64::MIN, i64::MAX),
        Err(IntErrorKind::PosOverflow)
    );
    assert_eq!(
        parse_int(&chars("-9223372036854775809"), i64::MIN, i64::MAX),
        Err(IntErrorKind::NegOverflow)
    );
    assert_eq!(
        parse_int(&chars("99999999999999999999999999"), i64::MIN, i64::MAX),
        Err(IntErrorKind::PosOverflow)
    );
    assert_eq!(
        parse_int(&chars("-99999999999999999999999999"), i64::MIN, i64::MAX),
        Err(IntErrorKind::NegOverflow)
    );
    assert_eq!(parse_int(&chars("2147483647"), -2147483648, 2147483647), Ok(2147483647));
    assert_eq!(
        parse_int(&chars("2147483648"), -2147483648, 2147483647),
        Err(IntErrorKind::PosOverflow)
    );
    assert_eq!(parse_int(&chars("-2147483648"), -2147483648, 2147483647), Ok(-2147483648));
    assert_eq!(
        parse_int(&chars("-2147483649"), -2147483648, 2147483647),
        Err(IntErrorKind::NegOverflow)
    );
}

fn kind_of(e: &std::num::ParseIntError) -> IntErrorKind {
    match e.kind() {
        std::num::IntErrorKind::Empty => IntErrorKind::Empty,
        std::num::IntErrorKind::InvalidDigit => IntErrorKind::InvalidDigit,
        std::num::IntErrorKind::PosOverflow => IntErrorKind::PosOverflow,
        std::num::IntErrorKind::NegOverflow => IntErrorKind::NegOverflow,
        other => panic!("no such kind here: {:?}", other),
    }
}

#[test]
fn what_goes_wrong_first_decides() {
    let texts = [
        "",
        "+",
        "-",
        "x",
        "12x",
        "99999999999999999999x",
        "x99999999999999999999",
        "-99999999999999999999x",
        "9223372036854775807x",
        "9223372036854775808x",
        "9223372036854775808",
        "-9223372036854775808x",
        "-9223372036854775809x",
        "92233720368547758070",
        "922337203685477580x0",
        "2147483648x",
        "2147483647x",
        "-2147483649 ",
        "18446744073709551615x",
        "18446744073709551616x",
        "184467440737095516150",
        "+-1",
        "-+1",
        "--1",
        "0000000000000000000000000000000000000001",
        "-0000000000000000000000000000000000000001",
        "00000000000000000000000000000000000000012345678901234567890",
    ];
    for t in texts {
        let mine = parse_int(&chars(t), i64::MIN, i64::MAX);
        match t.parse::<i64>() {
            Ok(n) => assert_eq!(mine, Ok(n)),
            Err(e) => assert_eq!(mine, Err(kind_of(&e))),
        }
        let mine = parse_int(&chars(t), i32::MIN as i64, i32::MAX as i64);
        match t.parse::<i32>() {
            Ok(n) => assert_eq!(mine, Ok(n as i64)),
            Err(e) => assert_eq!(mine, Err(kind_of(&e))),
        }
        let mine = parse_u64(&chars(t));
        match t.parse::<u64>() {
            Ok(n) => assert_eq!(mine, Ok(n)),
            Err(e) => assert_eq!(mine, Err(kind_of(&e))),
        }
    }
}

#[test]
fn unsigned_integers_take_no_minus() {
    assert_eq!(parse_u64(&chars("0")), Ok(0));
    assert_eq!(parse_u64(&chars("+12")), Ok(12));
    assert_eq!(parse_u64(&chars("18446744073709551615")), Ok(u64::MAX));
    assert_eq!(
        parse_u64(&chars("18446744073709551616")),
        Err(IntErrorKind::PosOverflow)
    );
    assert_eq!(parse_u64(&chars("-1")), Err(IntErrorKind::InvalidDigit));
    assert_eq!(parse_u64(&chars("-")), Err(IntErrorKind::InvalidDigit));
    assert_eq!(parse_u64(&chars("")), Err(IntErrorKind::Empty));
}

#[test]
fn integers_are_written_in_base_ten() {
    let mut out = chars("x");
    push_dec(&mut out, 0);
    push_dec(&mut out, 10);
    push_dec(&mut out, u64::MAX);
    assert_eq!(to_text(&out), "x01018446744073709551615");
    let mut out = Vec::new();
    push_dec_pad2(&mut out, 0);
    push_dec_pad2(&mut out, 9);
    push_dec_pad2(&mut out, 10);
    push_dec_pad2(&mut out, 123);
    assert_eq!(to_text(&out), "000910123");
    let mut out = Vec::new();
    push_int(&mut out, -1);
    push_int(&mut out, 0);
    push_int(&mut out, i64::MIN);
    assert_eq!(to_text(&out), "-10-9223372036854775808");
}

#[test]
fn integer_and_fraction_values() {
    assert_eq!(parse_i64("-12").unwrap(), Value::Int(-12));
    assert_eq!(
        parse_i64("1x").unwrap_err(),
        Error::ParseIntError {
            error: IntErrorKind::InvalidDigit,
            msg: "1x".to_string()
        }
    );
    assert_eq!(parse_f64("0.1").unwrap().to_string(), "0.1");
    assert_eq!(parse_f64("0.1").unwrap().as_float().unwrap().as_str(), "0.1");
    assert_eq!(
        parse_f64("x").unwrap_err(),
        Error::ParseFloatError {
            error: FloatErrorKind::Invalid,
            msg: "x".to_string()
        }
    );
}

#[test]
fn characters_and_texts() {
    assert_eq!(to_chars("a华b"), vec!['a', '华', 'b']);
    assert_eq!(to_text(&chars("a华b")), "a华b");
    assert_eq!(to_text(&Vec::new()), "");
    assert_eq!(slice(&chars("abcdef"), 2, 4), chars("cd"));
    assert_eq!(slice(&chars("abc"), 3, 3), chars(""));
    assert_eq!(lower_char('A'), 'a');
    assert_eq!(lower_char('Z'), 'z');
    assert_eq!(lower_char('a'), 'a');
    assert_eq!(lower_char('['), '[');
    assert_eq!(lower_char('@'), '@');
    assert_eq!(lower_char('É'), 'É');
    assert_eq!(to_lower(&chars("V4+ Styles É")), chars("v4+ styles É"));
    assert!(same_chars(&chars("ab"), &chars("ab")));
    assert!(!same_chars(&chars("ab"), &chars("abc")));
    assert!(!same_chars(&chars("ab"), &chars("aB")));
    assert!(is_text(&chars("Style:"), "Style:"));
    assert!(!is_text(&chars("style:"), "Style:"));
    assert!(is_text_ignore_case(&chars("fOrMaT"), "format"));
    assert!(!is_text_ignore_case(&chars("format "), "format"));
    assert!(is_lower_of(&chars("marginl"), "MarginL"));
    assert!(!is_lower_of(&chars("MarginL"), "MarginL"));
    assert!(has_prefix(&chars("Style: x"), "Style:"));
    assert!(has_prefix(&chars("Style:"), "Style:"));
    assert!(!has_prefix(&chars("Style"), "Style:"));
    assert!(!has_prefix(&chars("style: x"), "Style:"));
    assert!(has_prefix(&chars("x"), ""));
}

#[test]
fn white_space_is_what_unicode_says() {
    for c in ['\t', '\n', '\u{b}', '\u{c}', '\r', ' ', '\u{85}', '\u{a0}', '\u{1680}', '\u{2000}', '\u{200a}', '\u{2028}', '\u{2029}', '\u{202f}', '\u{205f}', '\u{3000}'] {
        assert!(is_space_char(c));
        assert!(c.is_whitespace());
    }
    for c in ['a', '0', '\u{8}', '\u{e}', '\u{200b}', '\u{feff}', '\u{180e}', '_'] {
        assert!(!is_space_char(c));
        assert!(!c.is_whitespace());
    }
    let mut n: u32 = 0;
    while n <= 0x3100 {
        if let Some(c) = char::from_u32(n) {
            assert_eq!(is_space_char(c), c.is_whitespace());
        }
        n += 1;
    }
}

#[test]
fn trimming() {
    for s in ["", " ", "  a  ", "a", "\ta b\r\n", "\u{3000}x\u{a0}", " \u{feff} "] {
        assert_eq!(to_text(&trimmed(&chars(s))), s.trim());
    }
}

#[test]
fn splitting() {
    for s in ["", "a", ",", "a,b", "a,,b", ",a,", ",,", "a,b,c,d"] {
        let want: Vec<String> = s.split(',').map(|p| p.to_string()).collect();
        assert_eq!(strings(split_chars(&chars(s), ',')), want);
        for n in 0..6usize {
            let want: Vec<String> = s.splitn(n, ',').map(|p| p.to_string()).collect();
            assert_eq!(strings(splitn_chars(&chars(s), n, ',')), want);
        }
    }
    assert_eq!(
        strings(splitn_chars(&chars("0,Hello, World!,,"), 2, ',')),
        vec!["0".to_string(), "Hello, World!,,".to_string()]
    );
}

#[test]
fn joining() {
    let items = vec!["a".to_string(), "".to_string(), "b,c".to_string()];
    assert_eq!(concat_with(&items, ","), "a,,b,c");
    assert_eq!(concat_with(&items, ", "), "a, , b,c");
    assert_eq!(concat_with(&Vec::new(), ","), "");
    assert_eq!(concat_with(&vec!["x".to_string()], ","), "x");
    let mut out = "a".to_string();
    push_line(&mut out, "b");
    push_line(&mut out, "");
    assert_eq!(out, "ab\n\n");
}

fn all_texts(alphabet: &[char], longest: usize) -> Vec<String> {
    let mut all = vec![String::new()];
    let mut last = vec![String::new()];
    for _ in 0..longest {
        let mut next = Vec::new();
        for t in &last {
            for c in alphabet {
                let mut u = t.clone();
                u.push(*c);
                next.push(u);
            }
        }
        all.extend(next.iter().cloned());
        last = next;
    }
    all
}

#[test]
fn short_texts_are_integers_where_rust_says_so() {
    for t in all_texts(&['0', '7', '9', '+', '-', 'x', ' '], 5) {
        let mine = parse_int(&chars(&t), i64::MIN, i64::MAX);
        match t.parse::<i64>() {
            Ok(n) => assert_eq!(mine, Ok(n)),
            Err(e) => assert_eq!(mine, Err(kind_of(&e))),
        }
        let small = parse_int(&chars(&t), -128, 127);
        match t.parse::<i8>() {
            Ok(n) => assert_eq!(small, Ok(n as i64)),
            Err(e) => assert_eq!(small, Err(kind_of(&e))),
        }
    }
}

#[test]
fn short_texts_are_numbers_where_rust_says_so() {
    for t in all_texts(&['0', '5', '.', 'e', 'E', '+', '-', 'i', 'n', 'f', 'a', 'N'], 4) {
        assert_eq!(
            parse_f64(&t).is_ok(),
            t.parse::<f64>().is_ok()
        );
    }
    for t in ["infinity", "-INFINITY", "+Infinity", "infinit", "infinityy", "1e-5.", "1.e-5", ".e5", "5.e", "١.٥"] {
        assert_eq!(
            parse_f64(t).is_ok(),
            t.parse::<f64>().is_ok()
        );
    }
}
