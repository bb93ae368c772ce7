use ssa_parser::error::{Error, FloatErrorKind};
use ssa_parser::events::effect::Effect;
use ssa_parser::events::text::Text;
use ssa_parser::events::{Event, EventFormat, EventType, Events};
use ssa_parser::num::IntErrorKind;
use ssa_parser::parser::SsaParser;
use ssa_parser::styles::{Style, StyleFormat, V4Styles};
use ssa_parser::value::Value;
use ssa_parser::Duration;
use std::str::FromStr;

fn text(s: &str) -> Value {
    Value::Str(s.to_string())
}

#[test]
fn styles_need_the_name_column() {
    assert_eq!(
        V4Styles::new(vec![StyleFormat::Fontname, StyleFormat::Fontsize]).unwrap_err(),
        Error::V4StyleNameNotFound
    );
    assert_eq!(V4Styles::new(vec![]).unwrap_err(), Error::V4StyleNameNotFound);
    let styles = V4Styles::new(vec![StyleFormat::Fontsize, StyleFormat::Name]).unwrap();
    assert_eq!(
        styles.order(),
        &vec![StyleFormat::Fontsize, StyleFormat::Name]
    );
    assert_eq!(styles.len(), 0);
}

#[test]
fn adding_a_style_wants_a_name() {
    let mut styles = V4Styles::new(vec![StyleFormat::Name, StyleFormat::Bold]).unwrap();
    let unnamed = Style::new(&styles);
    assert_eq!(styles.add(unnamed).unwrap_err(), Error::V4StyleNameNotFound);
    let mut numbered = Style::new(&styles);
    numbered.set(StyleFormat::Name, Value::Int(1));
    assert_eq!(
        styles.add(numbered).unwrap_err(),
        Error::InvalidType {
            expected: "str".to_string()
        }
    );
    assert_eq!(styles.len(), 0);
    let mut other = Style::new(&V4Styles::default());
    other.set(StyleFormat::TertiaryColour, text("x"));
    assert!(other.get(StyleFormat::TertiaryColour).is_none());
    let mut named = Style::new(&styles);
    named.set(StyleFormat::Name, text("Default"));
    named.set(StyleFormat::Bold, Value::Int(-1));
    styles.add(named.clone()).unwrap();
    assert_eq!(styles.len(), 1);
    assert_eq!(styles.get("Default"), Some(&named));
    assert_eq!(styles.get("default"), None);
}

#[test]
fn the_first_style_of_a_name_is_found() {
    let mut styles = V4Styles::new(vec![StyleFormat::Name, StyleFormat::Bold]).unwrap();
    for (name, bold) in [("a", 1), ("b", 2), ("a", 3), ("c", 4)] {
        let mut s = Style::new(&styles);
        s.set(StyleFormat::Name, text(name));
        s.set(StyleFormat::Bold, Value::Int(bold));
        styles.add(s).unwrap();
    }
    assert_eq!(styles.len(), 4);
    assert_eq!(
        styles.get("a").unwrap().get(StyleFormat::Bold),
        Some(&Value::Int(1))
    );
    styles
        .get_mut("a")
        .unwrap()
        .set(StyleFormat::Bold, Value::Int(10));
    let names: Vec<String> = styles.iter().iter().map(|(n, _)| n.to_string()).collect();
    assert_eq!(names, vec!["a", "b", "a", "c"]);
    assert_eq!(
        styles.to_string(),
        "Format: Name, Bold\nStyle: a,10\nStyle: b,2\nStyle: a,3\nStyle: c,4\n"
    );
    assert!(styles.get_mut("z").is_none());
    styles.remove("a");
    assert_eq!(styles.to_string(), "Format: Name, Bold\nStyle: b,2\nStyle: c,4\n");
    assert!(styles.get("a").is_none());
    styles.remove("zz");
    assert_eq!(styles.len(), 2);
    assert_eq!(styles.clone(), styles);
    styles.clear();
    assert_eq!(styles.len(), 0);
    assert_eq!(styles.to_string(), "Format: Name, Bold\n");
}

#[test]
fn style_slots() {
    let styles = V4Styles::new(vec![
        StyleFormat::Name,
        StyleFormat::Bold,
        StyleFormat::Name,
    ])
    .unwrap();
    let mut s = Style::new(&styles);
    assert_eq!(s.get(StyleFormat::Name), None);
    assert!(s.get_mut(StyleFormat::Name).is_none());
    s.set(StyleFormat::Name, text("n"));
    s.set(StyleFormat::Italic, Value::Int(1));
    assert_eq!(s.get(StyleFormat::Name), Some(&text("n")));
    assert_eq!(s.get(StyleFormat::Italic), None);
    assert_eq!(s.to_string(), "n,0,");
    *s.get_mut(StyleFormat::Name).unwrap() = text("m");
    assert_eq!(s.to_string(), "m,0,");
    s.remove(StyleFormat::Name);
    assert_eq!(s.get(StyleFormat::Name), None);
    s.remove(StyleFormat::Italic);
    assert_eq!(s.to_string(), ",0,");
}

#[test]
fn default_styles_and_their_text() {
    let styles = V4Styles::default();
    assert_eq!(styles.order().len(), 23);
    assert_eq!(
        styles.to_string(),
        "Format: Name, Fontname, Fontsize, PrimaryColour, SecondaryColour, OutlineColour, BackColour, Bold, Italic, Underline, StrikeOut, ScaleX, ScaleY, Spacing, Angle, BorderStyle, Outline, Shadow, Alignment, MarginL, MarginR, MarginV, Encoding\n"
    );
    let s = Style::new(&styles);
    assert_eq!(
        s.to_string(),
        ",,0,&H00000000,&H00000000,&H00000000,&H00000000,0,0,0,0,100,100,0,0,1,0,0,2,10,10,10,134"
    );
}

#[test]
fn style_column_defaults() {
    let want = [
        (StyleFormat::Name, ""),
        (StyleFormat::Fontname, ""),
        (StyleFormat::Fontsize, "0"),
        (StyleFormat::PrimaryColour, "&H00000000"),
        (StyleFormat::SecondaryColour, "&H00000000"),
        (StyleFormat::TertiaryColour, "&H00000000"),
        (StyleFormat::OutlineColour, "&H00000000"),
        (StyleFormat::BackColour, "&H00000000"),
        (StyleFormat::Bold, "0"),
        (StyleFormat::Italic, "0"),
        (StyleFormat::Underline, "0"),
        (StyleFormat::StrikeOut, "0"),
        (StyleFormat::ScaleX, "100"),
        (StyleFormat::ScaleY, "100"),
        (StyleFormat::Spacing, "0"),
        (StyleFormat::Angle, "0"),
        (StyleFormat::BorderStyle, "1"),
        (StyleFormat::Outline, "0"),
        (StyleFormat::Shadow, "0"),
        (StyleFormat::Alignment, "2"),
        (StyleFormat::MarginL, "10"),
        (StyleFormat::MarginR, "10"),
        (StyleFormat::MarginV, "10"),
        (StyleFormat::AlphaLevel, "10"),
        (StyleFormat::Encoding, "134"),
    ];
    for (f, t) in want {
        assert_eq!(f.default_value().to_string(), t);
    }
    assert_eq!(StyleFormat::MarginL.default_value(), Value::Int(10));
    assert_eq!(StyleFormat::BorderStyle.default_value(), Value::Int(1));
    assert_eq!(StyleFormat::Alignment.default_value(), Value::Int(2));
    assert_eq!(StyleFormat::BackColour.default_value(), text("&H00000000"));
    assert_eq!(
        StyleFormat::ScaleX
            .default_value()
            .as_float()
            .unwrap()
            .as_str()
            .parse::<f64>()
            .unwrap(),
        100.0
    );
}

#[test]
fn style_columns_read_their_fields() {
    for f in [
        StyleFormat::Name,
        StyleFormat::Fontname,
        StyleFormat::PrimaryColour,
        StyleFormat::SecondaryColour,
        StyleFormat::TertiaryColour,
        StyleFormat::OutlineColour,
        StyleFormat::BackColour,
    ] {
        assert_eq!(f.parse_value(" x ").unwrap(), text(" x "));
        assert_eq!(f.parse_value("").unwrap(), text(""));
    }
    for f in [
        StyleFormat::Fontsize,
        StyleFormat::Bold,
        StyleFormat::Italic,
        StyleFormat::Underline,
        StyleFormat::StrikeOut,
        StyleFormat::BorderStyle,
        StyleFormat::Alignment,
        StyleFormat::MarginL,
        StyleFormat::MarginR,
        StyleFormat::MarginV,
        StyleFormat::Encoding,
    ] {
        assert_eq!(f.parse_value("-1").unwrap(), Value::Int(-1));
        assert_eq!(
            f.parse_value("0.5").unwrap_err(),
            Error::ParseIntError {
                error: IntErrorKind::InvalidDigit,
                msg: "0.5".to_string()
            }
        );
    }
    for f in [
        StyleFormat::ScaleX,
        StyleFormat::ScaleY,
        StyleFormat::Spacing,
        StyleFormat::Angle,
        StyleFormat::Outline,
        StyleFormat::Shadow,
        StyleFormat::AlphaLevel,
    ] {
        let v = f.parse_value("0.5").unwrap();
        assert_eq!(v.as_float().unwrap().as_str(), "0.5");
        assert_eq!(f.parse_value("3").unwrap().to_string(), "3");
        assert_eq!(
            f.parse_value("").unwrap_err(),
            Error::ParseFloatError {
                error: FloatErrorKind::Empty,
                msg: "".to_string()
            }
        );
    }
}

#[test]
fn style_column_names() {
    for (alias, f) in [
        ("PrimaryColor", StyleFormat::PrimaryColour),
        ("secondarycolor", StyleFormat::SecondaryColour),
        ("TERTIARYCOLOR", StyleFormat::TertiaryColour),
        ("OutlineColor", StyleFormat::OutlineColour),
        ("OutlineColour", StyleFormat::OutlineColour),
        ("backcolor", StyleFormat::BackColour),
        ("alphalevel", StyleFormat::AlphaLevel),
        ("STRIKEOUT", StyleFormat::StrikeOut),
    ] {
        assert_eq!(StyleFormat::from_name(alias), Some(f));
        assert_eq!(StyleFormat::from_str(alias).unwrap(), f);
    }
    assert_eq!(StyleFormat::from_name("Colour"), None);
    assert_eq!(StyleFormat::from_name(" Name"), None);
    assert_eq!(StyleFormat::from_name(""), None);
    assert_eq!(
        StyleFormat::from_str("Nam").unwrap_err(),
        Error::ParseError {
            ty: "StyleFormat",
            msg: "Nam".to_string()
        }
    );
    assert_eq!(StyleFormat::OutlineColour.to_string(), "OutlineColour");
    assert_eq!(StyleFormat::OutlineColour.name(), "OutlineColour");
}

#[test]
fn event_column_names() {
    for f in [
        EventFormat::Layer,
        EventFormat::Marked,
        EventFormat::Start,
        EventFormat::End,
        EventFormat::Style,
        EventFormat::Name,
        EventFormat::MarginL,
        EventFormat::MarginR,
        EventFormat::MarginV,
        EventFormat::Effect,
        EventFormat::Text,
    ] {
        assert_eq!(EventFormat::from_name(f.name()), Some(f));
        assert_eq!(EventFormat::from_name(&f.name().to_uppercase()), Some(f));
        assert_eq!(EventFormat::from_str(&f.to_string()).unwrap(), f);
    }
    assert_eq!(EventFormat::from_name("Actor"), None);
    assert!(EventFormat::from_str("").is_err());
    for t in [
        EventType::Dialogue,
        EventType::Comment,
        EventType::Picture,
        EventType::Sound,
        EventType::Movie,
        EventType::Command,
    ] {
        assert_eq!(EventType::from_name(t.name()), Some(t));
        assert_eq!(EventType::from_name(&t.name().to_lowercase()), Some(t));
        assert_eq!(EventType::from_str(&t.to_string()).unwrap(), t);
    }
    assert_eq!(EventType::from_name("Dialog"), None);
}

#[test]
fn event_column_defaults() {
    assert_eq!(EventFormat::Layer.default_value(), Value::Int(0));
    assert_eq!(EventFormat::Marked.default_value(), text("Marked=0"));
    assert_eq!(
        EventFormat::Start.default_value(),
        Value::Duration(Duration::from_millis(0))
    );
    assert_eq!(
        EventFormat::End.default_value(),
        Value::Duration(Duration::from_millis(0))
    );
    assert_eq!(EventFormat::Style.default_value(), text(""));
    assert_eq!(EventFormat::Name.default_value(), text(""));
    assert_eq!(EventFormat::MarginL.default_value(), Value::Int(10));
    assert_eq!(EventFormat::MarginR.default_value(), Value::Int(10));
    assert_eq!(EventFormat::MarginV.default_value(), Value::Int(10));
    assert_eq!(
        EventFormat::Effect.default_value(),
        Value::Effect(Effect::NoEffect)
    );
    assert_eq!(EventFormat::Text.default_value(), text(""));
}

#[test]
fn event_columns_read_their_fields() {
    assert_eq!(EventFormat::Layer.parse_value("3").unwrap(), Value::Int(3));
    assert_eq!(
        EventFormat::Marked.parse_value("Marked=1").unwrap(),
        Value::Int(1)
    );
    assert_eq!(
        EventFormat::Marked.parse_value("mArKeD=-2").unwrap(),
        Value::Int(-2)
    );
    assert_eq!(
        EventFormat::Marked.parse_value("1").unwrap_err(),
        Error::ParseError {
            ty: "Marked",
            msg: "Invalid Marked value: 1".to_string()
        }
    );
    assert_eq!(
        EventFormat::Marked.parse_value("Mark=1").unwrap_err(),
        Error::ParseError {
            ty: "Marked",
            msg: "Invalid Marked key: Mark".to_string()
        }
    );
    assert_eq!(
        EventFormat::Marked.parse_value("Marked=1=2").unwrap_err(),
        Error::ParseIntError {
            error: IntErrorKind::InvalidDigit,
            msg: "1=2".to_string()
        }
    );
    assert_eq!(
        EventFormat::Start.parse_value("0:00:47.24").unwrap(),
        Value::Duration(Duration::from_millis(47_024))
    );
    assert!(EventFormat::End.parse_value("0:00:60.00").is_err());
    assert_eq!(EventFormat::Style.parse_value("OPJP").unwrap(), text("OPJP"));
    assert_eq!(EventFormat::Name.parse_value("").unwrap(), text(""));
    assert_eq!(EventFormat::MarginV.parse_value("25").unwrap(), Value::Int(25));
    assert!(EventFormat::MarginL.parse_value("").is_err());
    assert_eq!(
        EventFormat::Effect.parse_value("").unwrap(),
        Value::Effect(Effect::Unknown("".to_string()))
    );
    assert_eq!(
        EventFormat::Effect.parse_value("Karaoke").unwrap(),
        Value::Effect(Effect::Karaoke)
    );
    assert!(EventFormat::Effect.parse_value("Banner").is_err());
    assert_eq!(
        EventFormat::Text.parse_value("{\\b1}Hi, there").unwrap(),
        Value::Text(Text("{\\b1}Hi, there".to_string()))
    );
}

#[test]
fn what_is_more_than_the_columns_stays_in_the_last_field() -> Result<(), Error> {
    let mut p = SsaParser::new();
    p.events = Events::new(vec![EventFormat::Layer, EventFormat::Style, EventFormat::Text]);
    p.parse_events("Dialogue: 1,Default,Hello, World,, and more,")?;
    let e = p.events.get(0).unwrap();
    assert_eq!(e.event_type(), EventType::Dialogue);
    assert_eq!(e.get(EventFormat::Layer), Some(&Value::Int(1)));
    assert_eq!(e.get(EventFormat::Style), Some(&text("Default")));
    assert_eq!(
        e.get(EventFormat::Text),
        Some(&Value::Text(Text("Hello, World,, and more,".to_string())))
    );
    assert_eq!(e.to_string(), "Dialogue: 1,Default,Hello, World,, and more,");
    assert_eq!(
        p.events.to_string(),
        "Format: Layer, Style, Text\nDialogue: 1,Default,Hello, World,, and more,\n"
    );
    Ok(())
}

#[test]
fn event_lines() -> Result<(), Error> {
    let mut p = SsaParser::new();
    p.parse_events("no colon")?;
    assert_eq!(p.events.len(), 0);
    p.parse_events("comment: 5")?;
    assert_eq!(
        p.parse_events("MOVIE:").unwrap_err(),
        Error::ParseIntError {
            error: IntErrorKind::Empty,
            msg: "".to_string()
        }
    );
    p.parse_events("MOVIE: 7")?;
    p.parse_events("Dialogue: 0,0:00:47.24,0:00:50.24,OPJP,,0,0,0,Karaoke,World: Hello!  ")?;
    assert_eq!(p.events.len(), 3);
    let partial = p.events.get(0).unwrap();
    assert_eq!(partial.event_type(), EventType::Comment);
    assert_eq!(partial.get(EventFormat::Layer), Some(&Value::Int(5)));
    assert_eq!(partial.get(EventFormat::Start), None);
    assert_eq!(
        partial.to_string(),
        "Comment: 5,0:00:00.00,0:00:00.00,,,10,10,10,,"
    );
    assert_eq!(
        p.events.get(1).unwrap().get(EventFormat::Layer),
        Some(&Value::Int(7))
    );
    assert_eq!(p.events.get(1).unwrap().event_type(), EventType::Movie);
    let full = p.events.get(2).unwrap();
    assert_eq!(
        full.to_string(),
        "Dialogue: 0,0:00:47.24,0:00:50.24,OPJP,,0,0,0,Karaoke,World: Hello!"
    );
    assert!(p.events.get(3).is_none());
    assert_eq!(
        p.parse_events("Dialog: 0").unwrap_err(),
        Error::ParseError {
            ty: "EventType",
            msg: "invalid event type Dialog".to_string()
        }
    );
    assert_eq!(
        p.parse_events("Dialogue: x").unwrap_err(),
        Error::ParseIntError {
            error: IntErrorKind::InvalidDigit,
            msg: "x".to_string()
        }
    );
    assert_eq!(
        p.parse_events("Dialogue: 0,25:00:00.00").unwrap_err(),
        Error::ParseError {
            ty: "Duration",
            msg: "hour 25:00:00.00 out of range".to_string()
        }
    );
    assert_eq!(p.events.len(), 3);
    Ok(())
}

#[test]
fn event_slots() {
    let events = Events::new(vec![EventFormat::Layer, EventFormat::Text]);
    assert_eq!(events.order(), &vec![EventFormat::Layer, EventFormat::Text]);
    let mut e = Event::new(EventType::Sound, &events);
    assert_eq!(e.to_string(), "Sound: 0,");
    e.set(EventFormat::Text, text("t"));
    e.set(EventFormat::Style, text("ignored"));
    assert_eq!(e.get(EventFormat::Style), None);
    *e.get_mut(EventFormat::Text).unwrap() = text("u");
    assert!(e.get_mut(EventFormat::Layer).is_none());
    assert_eq!(e.to_string(), "Sound: 0,u");
    e.remove(EventFormat::Text);
    assert_eq!(e.to_string(), "Sound: 0,");
    assert_eq!(e.clone(), e);
    let mut all = Events::default();
    assert_eq!(all.order().len(), 10);
    all.push(Event::new(EventType::Command, &all));
    assert_eq!(all.len(), 1);
    assert_eq!(
        all.to_string(),
        "Format: Layer, Start, End, Style, Name, MarginL, MarginR, MarginV, Effect, Text\nCommand: 0,0:00:00.00,0:00:00.00,,,10,10,10,,\n"
    );
    assert_eq!(all.clone(), all);
}

#[test]
fn style_lines() -> Result<(), Error> {
    let mut p = SsaParser::new();
    p.parse_styles("style: lower case is no style")?;
    p.parse_styles("Dialogue: 1")?;
    assert_eq!(p.styles.len(), 0);
    p.parse_styles("Style:Tiny")?;
    p.parse_styles("Style:   Wide , Arial ,20")?;
    assert_eq!(p.styles.len(), 2);
    assert_eq!(
        p.styles.get("Tiny").unwrap().get(StyleFormat::Fontname),
        None
    );
    assert_eq!(
        p.styles.get("Wide ").unwrap().get(StyleFormat::Fontname),
        Some(&text(" Arial "))
    );
    assert_eq!(
        p.parse_styles("Style: a,b,c").unwrap_err(),
        Error::ParseIntError {
            error: IntErrorKind::InvalidDigit,
            msg: "c".to_string()
        }
    );
    assert_eq!(
        p.parse_styles("Style: a,b,1,c,d,e,f,1,1,1,1,x").unwrap_err(),
        Error::ParseFloatError {
            error: FloatErrorKind::Invalid,
            msg: "x".to_string()
        }
    );
    let many = "Style: n,f,1,c,c,c,c,1,1,1,1,1,1,1,1,1,1,1,1,1,1,1,1,extra,more";
    p.parse_styles(many)?;
    assert_eq!(p.styles.len(), 3);
    assert_eq!(
        p.styles.get("n").unwrap().to_string(),
        "n,f,1,c,c,c,c,1,1,1,1,1,1,1,1,1,1,1,1,1,1,1,1"
    );
    p.styles = V4Styles::new(vec![StyleFormat::Bold, StyleFormat::Name]).unwrap();
    assert_eq!(
        p.parse_styles("Style: 1").unwrap_err(),
        Error::V4StyleNameNotFound
    );
    Ok(())
}

#[test]
fn events_and_names_are_vectors_too() {
    let mut all = Events::default();
    all.push(Event::new(EventType::Dialogue, &all));
    all.push(Event::new(EventType::Comment, &all));
    assert_eq!(all.iter().count(), 2);
    assert_eq!(all[1].event_type(), EventType::Comment);
    assert_eq!(all.first().unwrap().event_type(), EventType::Dialogue);
    all.truncate(1);
    assert_eq!(all.len(), 1);
    assert_eq!(all.order().len(), 10);
    let mut p = SsaParser::default();
    p.parse_fonts("fontname: a.ttf").unwrap();
    p.parse_graphics("filename: b.png").unwrap();
    assert_eq!(p.fonts.join(","), "a.ttf");
    assert_eq!(p.graphics.iter().count(), 1);
    p.fonts.clear();
    p.graphics.pop();
    assert!(p.fonts.is_empty());
    assert!(p.graphics.is_empty());
}

#[test]
fn a_column_reads_again_what_it_wrote() {
    for (f, t) in [
        (EventFormat::Layer, "+007"),
        (EventFormat::Start, "1:02:03.4"),
        (EventFormat::End, "23:59:59.999"),
        (EventFormat::Style, " any, text "),
        (EventFormat::Name, ""),
        (EventFormat::MarginL, "-0"),
        (EventFormat::Effect, "scroll UP;+1;-2;03;4"),
        (EventFormat::Effect, "BANNER;5;7"),
        (EventFormat::Effect, "karaoke"),
        (EventFormat::Effect, "Fade;1"),
        (EventFormat::Text, "{\\an8}Hi; there, you"),
    ] {
        let v = f.parse_value(t).unwrap();
        assert_eq!(f.parse_value(&v.to_string()).unwrap(), v);
    }
    for (f, t) in [
        (StyleFormat::Name, "Default"),
        (StyleFormat::PrimaryColour, "&H00FFFFFF"),
        (StyleFormat::Fontsize, "+20"),
        (StyleFormat::ScaleX, "100.0"),
        (StyleFormat::Outline, "2.5e0"),
        (StyleFormat::AlphaLevel, ".5"),
        (StyleFormat::Encoding, "134"),
    ] {
        let v = f.parse_value(t).unwrap();
        assert_eq!(f.parse_value(&v.to_string()).unwrap(), v);
    }
    let marked = EventFormat::Marked.parse_value("Marked=1").unwrap();
    assert_eq!(marked.to_string(), "1");
    assert!(EventFormat::Marked.parse_value(&marked.to_string()).is_err());
}
