use ssa_parser::error::Error;
use ssa_parser::events::effect::Effect;
use ssa_parser::parser::Parser;

#[test]
fn test_parse_karaoke_effect() {
    let src = "Karaoke";
    let effect = Effect::parse(src).unwrap();
    assert_eq!(effect, Effect::Karaoke);
}

#[test]
fn test_parse_scroll_up_effect() {
    let src = "Scroll up;100;200;100";
    let effect = Effect::parse(src).unwrap();
    assert_eq!(
        effect,
        Effect::ScrollUp {
            y1: 100,
            y2: 200,
            delay: 100,
            fadeawayheight: None
        }
    );
}

#[test]
fn test_parse_scroll_down_effect() {
    let src = "Scroll down;200;300;100";
    let effect = Effect::parse(src).unwrap();
    assert_eq!(
        effect,
        Effect::ScrollDown {
            y1: 200,
            y2: 300,
            delay: 100,
            fadeawayheight: None
        }
    );
}

#[test]
fn test_parse_banner_effect() {
    let src = "Banner;100;1;50";
    let effect = Effect::parse(src).unwrap();
    assert_eq!(
        effect,
        Effect::Banner {
            delay: 100,
            lefttoright: true,
            fadeawayheight: Some(50)
        }
    );
}

#[test]
fn test_parse_unknown_effect() {
    let src = "UnknownEffect;data";
    let effect = Effect::parse(src).unwrap();
    assert_eq!(effect, Effect::Unknown(src.to_string()));
}

#[test]
fn effect_round_trips() {
    assert_eq!(Effect::Karaoke.to_string(), "Karaoke");
    assert_eq!(Effect::parse("Karaoke").unwrap(), Effect::Karaoke);
    let scroll = Effect::parse("Scroll up;100;200;100").unwrap();
    assert_eq!(scroll.to_string(), "Scroll up;100;200;100");
    let banner = Effect::parse("Banner;100;1;50").unwrap();
    assert_eq!(banner.to_string(), "Banner;100;1;50");
    let unknown = Effect::parse("Foo;bar").unwrap();
    assert_eq!(unknown, Effect::Unknown("Foo;bar".to_string()));
    assert_eq!(unknown.to_string(), "Foo;bar");
    assert_eq!(Effect::NoEffect.to_string(), "");
}

#[test]
fn effect_names_ignore_case() {
    assert_eq!(Effect::parse("KARAOKE").unwrap(), Effect::Karaoke);
    assert_eq!(
        Effect::parse("scroll DOWN;-1;+2;3;4").unwrap(),
        Effect::ScrollDown {
            y1: -1,
            y2: 2,
            delay: 3,
            fadeawayheight: Some(4)
        }
    );
    assert_eq!(
        Effect::parse("banner;7;0").unwrap(),
        Effect::Banner {
            delay: 7,
            lefttoright: false,
            fadeawayheight: None
        }
    );
    assert_eq!(
        Effect::parse("Banner;7;2").unwrap(),
        Effect::Banner {
            delay: 7,
            lefttoright: false,
            fadeawayheight: None
        }
    );
}

#[test]
fn effect_negative_fields_are_written_with_their_sign() {
    let e = Effect::ScrollDown {
        y1: -5,
        y2: i32::MIN,
        delay: i32::MAX,
        fadeawayheight: Some(0),
    };
    assert_eq!(e.to_string(), "Scroll down;-5;-2147483648;2147483647;0");
    assert_eq!(Effect::parse(&e.to_string()).unwrap(), e);
}

fn parse_error(msg: &str) -> Error {
    Error::ParseError {
        ty: "Effect",
        msg: msg.to_string(),
    }
}

#[test]
fn effect_errors() {
    assert_eq!(
        Effect::parse("Scroll up;1;2").unwrap_err(),
        parse_error("Invalid Scroll up effect")
    );
    assert_eq!(
        Effect::parse("scroll down;1;2").unwrap_err(),
        parse_error("Invalid Scroll down effect")
    );
    assert_eq!(
        Effect::parse("Scroll up;a;2;3").unwrap_err(),
        parse_error("Invalid y1")
    );
    assert_eq!(
        Effect::parse("Scroll up;1;b;3").unwrap_err(),
        parse_error("Invalid y2")
    );
    assert_eq!(
        Effect::parse("Scroll up;1;2;").unwrap_err(),
        parse_error("Invalid delay")
    );
    assert_eq!(
        Effect::parse("Scroll up;1;2;3;x").unwrap_err(),
        parse_error("Invalid fadeawayheight")
    );
    assert_eq!(
        Effect::parse("Scroll up;1;2;2147483648").unwrap_err(),
        parse_error("Invalid delay")
    );
    assert_eq!(
        Effect::parse("Banner;1").unwrap_err(),
        parse_error("Invalid Banner effect")
    );
    assert_eq!(
        Effect::parse("Banner;x;1").unwrap_err(),
        parse_error("Invalid delay")
    );
    assert_eq!(
        Effect::parse("Banner;1;yes").unwrap_err(),
        parse_error("Invalid lefttoright")
    );
    assert_eq!(
        Effect::parse("Banner;1;1;").unwrap_err(),
        parse_error("Invalid fadeawayheight")
    );
}

#[test]
fn scroll_direction_is_checked() {
    let parts: Vec<Vec<char>> = ["x", "1", "2", "3"]
        .iter()
        .map(|s| s.chars().collect())
        .collect();
    assert_eq!(
        Effect::parse_scroll_effect(&parts, "Scroll left").unwrap_err(),
        parse_error("Unknown scroll direction")
    );
    assert_eq!(
        Effect::parse_scroll_effect(&parts, "Scroll up").unwrap(),
        Effect::ScrollUp {
            y1: 1,
            y2: 2,
            delay: 3,
            fadeawayheight: None
        }
    );
    let banner: Vec<Vec<char>> = ["Banner", "9", "1"]
        .iter()
        .map(|s| s.chars().collect())
        .collect();
    assert_eq!(
        Effect::parse_banner_effect(&banner).unwrap(),
        Effect::Banner {
            delay: 9,
            lefttoright: true,
            fadeawayheight: None
        }
    );
}
