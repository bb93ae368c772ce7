use ssa_parser::error::{Error, FloatErrorKind};
use ssa_parser::num::IntErrorKind;
use ssa_parser::float_text::FloatText;
use ssa_parser::parser::{Parser, SsaParser};
use ssa_parser::script_info::{Collisions, Key, ScriptInfo, ScriptType};
use ssa_parser::value::Value;
use std::str::FromStr;

fn text(s: &str) -> Value {
    Value::Str(s.to_string())
}

fn keys(info: &ScriptInfo) -> Vec<String> {
    info.iter().iter().map(|(k, _)| k.to_string()).collect()
}

#[test]
fn comments_accumulate_in_order() {
    let mut info = ScriptInfo::default();
    assert!(info.get_comments().is_none());
    info.set_title("t");
    info.add_comment("one");
    info.set_play_res_x(1);
    info.add_comment("two");
    info.add_comment("three");
    assert_eq!(
        info.get_comments().unwrap(),
        &vec![text("one"), text("two"), text("three")]
    );
    assert_eq!(keys(&info), vec!["Title", ";", "PlayResX"]);
    assert_eq!(info.len(), 3);
    info.get_comments_mut().unwrap().remove(0);
    assert_eq!(info.get_comments().unwrap(), &vec![text("two"), text("three")]);
}

#[test]
fn a_comment_replaces_what_is_no_list() {
    let mut info = ScriptInfo::default();
    info.add_property(";", Value::Int(1));
    assert!(info.get_comments().is_none());
    info.add_comment("c");
    assert_eq!(info.get_comments().unwrap(), &vec![text("c")]);
    assert_eq!(info.len(), 1);
}

#[test]
fn setting_a_key_again_keeps_its_place() {
    let mut info = ScriptInfo::default();
    info.set_title("first");
    info.set_play_res_x(1920);
    info.set_title("second");
    assert_eq!(info.get_title(), Some("second"));
    assert_eq!(keys(&info), vec!["Title", "PlayResX"]);
    assert_eq!(info.len(), 2);
    assert_eq!(info.to_string(), "Title: second\nPlayResX: 1920\n");
}

#[test]
fn properties_are_found_by_their_key() {
    let mut info = ScriptInfo::default();
    info.add_property("a", Value::Int(1));
    info.add_property("b", Value::Int(2));
    info.add_property("a", Value::Int(3));
    assert_eq!(info.get_property("a"), Some(&Value::Int(3)));
    assert_eq!(info.get_property("b"), Some(&Value::Int(2)));
    assert_eq!(info.get_property("A"), None);
    *info.get_property_mut("b").unwrap() = Value::Boolean(true);
    assert_eq!(info.get_property("b"), Some(&Value::Boolean(true)));
    assert!(info.get_property_mut("c").is_none());
    info.remove_property("a");
    assert_eq!(keys(&info), vec!["b"]);
    info.remove_property("zz");
    assert_eq!(info.len(), 1);
    info.add_properties(vec![
        ("x".to_string(), Value::Int(1)),
        ("b".to_string(), Value::Int(2)),
        ("x".to_string(), Value::Int(3)),
    ]);
    assert_eq!(keys(&info), vec!["b", "x"]);
    assert_eq!(info.get_property("x"), Some(&Value::Int(3)));
    assert_eq!(info.get_property("b"), Some(&Value::Int(2)));
    info.clear();
    assert_eq!(info.len(), 0);
    assert_eq!(info, ScriptInfo::default());
}

#[test]
fn removing_keeps_the_order_of_the_rest() {
    let mut info = ScriptInfo::default();
    for k in ["a", "b", "c", "d"] {
        info.add_property(k, text(k));
    }
    info.remove_property("b");
    assert_eq!(keys(&info), vec!["a", "c", "d"]);
    assert_eq!(info.clone(), info);
}

#[test]
fn known_keys() {
    let mut info = ScriptInfo::default();
    info.set_title("t");
    info.set_original_script("os");
    info.set_original_translation("ot");
    info.set_original_editing("oe");
    info.set_original_timing("oti");
    info.set_synch_point("sp");
    info.set_script_updated_by("sub");
    info.set_update_details("ud");
    info.set_script_type(ScriptType::V4);
    info.set_collisions(Collisions::Reverse);
    info.set_play_res_y(1080);
    info.set_play_res_x(1920);
    info.set_play_depth(8);
    info.set_timer(FloatText::parse("100.0000").unwrap());
    info.set_wrap_style(2);
    info.set_scaled_border_and_shadow(true);
    assert_eq!(info.get_title(), Some("t"));
    assert_eq!(info.get_original_script(), Some("os"));
    assert_eq!(info.get_original_translation(), Some("ot"));
    assert_eq!(info.get_original_editing(), Some("oe"));
    assert_eq!(info.get_original_timing(), Some("oti"));
    assert_eq!(info.get_synch_point(), Some("sp"));
    assert_eq!(info.get_script_updated_by(), Some("sub"));
    assert_eq!(info.get_update_details(), Some("ud"));
    assert_eq!(info.get_script_type(), Some(ScriptType::V4));
    assert_eq!(info.get_collisions(), Some(Collisions::Reverse));
    assert_eq!(info.get_play_res_y(), Some(1080));
    assert_eq!(info.get_play_res_x(), Some(1920));
    assert_eq!(info.get_play_depth(), Some(8));
    assert_eq!(info.get_timer().unwrap().as_str(), "100.0000");
    assert_eq!(info.get_wrap_style(), Some(2));
    assert_eq!(info.get_scaled_border_and_shadow(), Some(true));
    assert_eq!(
        info.to_string(),
        "Title: t\nOriginalScript: os\nOriginal Translation: ot\nOriginal Editing: oe\nOriginal Timing: oti\nSynch Point: sp\nScript Updated By: sub\nUpdate Details: ud\nScriptType: v4.00\nCollisions: Reverse\nPlayResY: 1080\nPlayResX: 1920\nPlayDepth: 8\nTimer: 100.0000\nWrapStyle: 2\nScaledBorderAndShadow: yes\n"
    );
    info.get_title_mut().unwrap().push('!');
    info.get_original_script_mut().unwrap().push('!');
    info.get_original_translation_mut().unwrap().push('!');
    info.get_original_editing_mut().unwrap().push('!');
    info.get_original_timing_mut().unwrap().push('!');
    info.get_synch_point_mut().unwrap().push('!');
    info.get_script_updated_by_mut().unwrap().push('!');
    info.get_update_details_mut().unwrap().push('!');
    assert_eq!(info.get_title(), Some("t!"));
    assert_eq!(info.get_update_details(), Some("ud!"));
    assert_eq!(info.get_property("Synch Point"), Some(&text("sp!")));
}

#[test]
fn getters_want_the_right_kind_of_value() {
    let mut info = ScriptInfo::default();
    assert_eq!(info.get_title(), None);
    assert_eq!(info.get_play_res_x(), None);
    assert_eq!(info.get_script_type(), None);
    assert!(info.get_title_mut().is_none());
    info.add_property("Title", Value::Int(1));
    info.add_property("PlayResX", text("1920"));
    info.add_property("ScriptType", text("v5"));
    info.add_property("Collisions", text("REVERSE"));
    info.add_property("Timer", Value::Int(100));
    info.add_property("ScaledBorderAndShadow", text("yes"));
    assert_eq!(info.get_title(), None);
    assert!(info.get_title_mut().is_none());
    assert_eq!(info.get_play_res_x(), None);
    assert_eq!(info.get_script_type(), None);
    assert_eq!(info.get_collisions(), Some(Collisions::Reverse));
    assert!(info.get_timer().is_none());
    assert_eq!(info.get_scaled_border_and_shadow(), None);
    assert_eq!(
        info.to_string(),
        "Title: 1\nPlayResX: 1920\nScriptType: v5\nCollisions: REVERSE\nTimer: 100\nScaledBorderAndShadow: no\n"
    );
}

#[test]
fn script_info_text() {
    let mut info = ScriptInfo::default();
    assert_eq!(info.to_string(), "");
    info.add_comment("made by hand");
    info.add_comment("");
    info.set_scaled_border_and_shadow(false);
    info.add_property("YCbCr Matrix", text("TV.709"));
    assert_eq!(
        info.to_string(),
        "; made by hand\n; \nScaledBorderAndShadow: no\nYCbCr Matrix: TV.709\n"
    );
    let mut odd = ScriptInfo::default();
    odd.add_property(";", Value::Int(1));
    odd.add_property("k", Value::List(vec![text("a"), text("b")]));
    assert_eq!(odd.to_string(), "k: [a, b]\n");
}

#[test]
fn script_type_and_collisions_texts() {
    assert_eq!(ScriptType::parse("v4.00").unwrap(), ScriptType::V4);
    assert_eq!(ScriptType::parse("v4.00+").unwrap(), ScriptType::V4Plus);
    assert_eq!(ScriptType::V4.to_string(), "v4.00");
    assert_eq!(ScriptType::V4Plus.to_string(), "v4.00+");
    assert_eq!(
        ScriptType::parse("V4.00").unwrap_err(),
        Error::ParseError {
            ty: "ScriptType",
            msg: "V4.00".to_string()
        }
    );
    assert_eq!(Collisions::parse("Normal").unwrap(), Collisions::Normal);
    assert_eq!(Collisions::parse("rEVERSE").unwrap(), Collisions::Reverse);
    assert_eq!(Collisions::Normal.to_string(), "Normal");
    assert_eq!(Collisions::Reverse.to_string(), "Reverse");
    assert_eq!(
        Collisions::parse("sideways").unwrap_err(),
        Error::ParseError {
            ty: "Collisions",
            msg: "sideways".to_string()
        }
    );
}

#[test]
fn keys_are_matched_letter_for_letter() {
    assert_eq!(Key::from_str(";").unwrap(), Key::Comment);
    assert_eq!(Key::from_str("Title").unwrap(), Key::Title);
    assert_eq!(Key::from_str("OriginalScript").unwrap(), Key::OriginalScript);
    assert_eq!(
        Key::from_str("Original Translation").unwrap(),
        Key::OriginalTranslation
    );
    assert_eq!(Key::from_name("Script Updated By"), Some(Key::ScriptUpdatedBy));
    assert_eq!(Key::from_name("title"), None);
    assert_eq!(Key::from_name("Original Script"), None);
    assert_eq!(Key::from_name(""), None);
    assert!(Key::from_str("Title ").is_err());
    for k in [
        Key::Comment,
        Key::Title,
        Key::OriginalScript,
        Key::OriginalTranslation,
        Key::OriginalEditing,
        Key::OriginalTiming,
        Key::SynchPoint,
        Key::ScriptUpdatedBy,
        Key::UpdateDetails,
        Key::ScriptType,
        Key::Collisions,
        Key::PlayResY,
        Key::PlayResX,
        Key::PlayDepth,
        Key::Timer,
        Key::WrapStyle,
        Key::ScaledBorderAndShadow,
    ] {
        assert_eq!(Key::from_name(k.name()), Some(k));
        assert_eq!(k.to_string(), k.name());
    }
    assert_eq!(Key::SynchPoint.name(), "Synch Point");
    assert_eq!(Key::Comment.name(), ";");
}

#[test]
fn script_info_lines() -> Result<(), Error> {
    let mut p = SsaParser::new();
    p.parse_script_info("! old style comment ")?;
    p.parse_script_info(";")?;
    p.parse_script_info("no colon here")?;
    p.parse_script_info("Title:  spaced out  ")?;
    p.parse_script_info("Title : other key")?;
    p.parse_script_info("URL: http://example.org/a:b")?;
    p.parse_script_info("ScriptType: v4.00")?;
    p.parse_script_info("Collisions: REVERSE")?;
    p.parse_script_info("PlayResX: -5")?;
    p.parse_script_info("PlayDepth:0")?;
    p.parse_script_info("Timer: 100.0000")?;
    p.parse_script_info("ScaledBorderAndShadow: YES")?;
    p.parse_script_info("Empty:")?;
    let info = &p.script_info;
    assert_eq!(
        info.get_comments().unwrap(),
        &vec![text("old style comment"), text("")]
    );
    assert_eq!(info.get_title(), Some("spaced out"));
    assert_eq!(info.get_property("Title "), Some(&text("other key")));
    assert_eq!(info.get_property("URL"), Some(&text("http://example.org/a:b")));
    assert_eq!(info.get_script_type(), Some(ScriptType::V4));
    assert_eq!(info.get_property("Collisions"), Some(&text("Reverse")));
    assert_eq!(info.get_play_res_x(), Some(-5));
    assert_eq!(info.get_play_depth(), Some(0));
    assert_eq!(info.get_timer().unwrap().as_str(), "100.0000");
    assert_eq!(info.get_scaled_border_and_shadow(), Some(true));
    assert_eq!(info.get_property("Empty"), Some(&text("")));
    assert_eq!(
        keys(info),
        vec![
            ";", "Title", "Title ", "URL", "ScriptType", "Collisions", "PlayResX", "PlayDepth",
            "Timer", "ScaledBorderAndShadow", "Empty"
        ]
    );
    p.parse_script_info("ScaledBorderAndShadow: on")?;
    assert_eq!(p.script_info.get_scaled_border_and_shadow(), Some(false));
    Ok(())
}

#[test]
fn script_info_line_errors_change_nothing() {
    let mut p = SsaParser::new();
    p.parse_script_info("Title: t").unwrap();
    let before = p.script_info.clone();
    assert_eq!(
        p.parse_script_info("ScriptType: v5").unwrap_err(),
        Error::ParseError {
            ty: "ScriptType",
            msg: "v5".to_string()
        }
    );
    assert_eq!(
        p.parse_script_info("Collisions: x").unwrap_err(),
        Error::ParseError {
            ty: "Collisions",
            msg: "x".to_string()
        }
    );
    assert_eq!(
        p.parse_script_info("WrapStyle: two").unwrap_err(),
        Error::ParseIntError {
            error: IntErrorKind::InvalidDigit,
            msg: "two".to_string()
        }
    );
    assert_eq!(
        p.parse_script_info("PlayResY:").unwrap_err(),
        Error::ParseIntError {
            error: IntErrorKind::Empty,
            msg: "".to_string()
        }
    );
    assert_eq!(
        p.parse_script_info("Timer: fast").unwrap_err(),
        Error::ParseFloatError {
            error: FloatErrorKind::Invalid,
            msg: "fast".to_string()
        }
    );
    assert_eq!(p.script_info, before);
}
