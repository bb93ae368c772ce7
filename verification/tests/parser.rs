use ssa_parser::error::Error;
use ssa_parser::events::EventFormat;
use ssa_parser::file::File;
use ssa_parser::parser::SsaParser;
use ssa_parser::styles::StyleFormat;
use ssa_parser::value::Value;

#[test]
fn test_parse_script_info() -> Result<(), Error> {
    let mut parser = SsaParser::default();
    parser.parse_script_info("; comment1")?;
    parser.parse_script_info(";comment2")?;
    parser.parse_script_info("Title: Title1")?;
    parser.parse_script_info("Custom: xxxxx")?;
    assert_eq!(
        parser.script_info.get_comments().unwrap(),
        &[
            Value::Str("comment1".to_string()),
            Value::Str("comment2".to_string())
        ]
    );
    assert_eq!(parser.script_info.get_title().unwrap(), "Title1");
    assert_eq!(
        parser.script_info.get_property("Custom").unwrap(),
        &Value::Str("xxxxx".to_string())
    );
    Ok(())
}

#[test]
fn test_parse_styles() -> Result<(), Error> {
    let mut parser = SsaParser::default();
    parser.parse_styles("Style: Default,Arial,20,&H00FFFFFF,&H000000FF,&H00000000,&H00000000,0,0,0,0,100,100,0,0,1,2,2,2,10,10,10,1")?;
    parser.parse_styles("Style: OPCN,华康方圆体W7,50,&H00FFFFFF,&H00000000,&H00DDAB2F,&H00000000,-1,0,0,0,100,100,0.1,0,1,4,0,8,80,80,30,1")?;
    let style = parser.styles.get_mut("OPCN").unwrap();
    assert_eq!(
        style
            .get(StyleFormat::Name)
            .and_then(Value::as_str)
            .unwrap(),
        "OPCN"
    );
    assert_eq!(
        style
            .get(StyleFormat::Fontname)
            .and_then(Value::as_str)
            .unwrap(),
        "华康方圆体W7"
    );
    style.remove(StyleFormat::Fontname);
    assert!(style.get(StyleFormat::Fontname).is_none());
    style.set(StyleFormat::Fontname, Value::Str("Arial".to_string()));
    assert_eq!(
        style
            .get(StyleFormat::Fontname)
            .and_then(Value::as_str)
            .unwrap(),
        "Arial"
    );
    Ok(())
}

#[test]
fn test_parse_events() -> Result<(), Error> {
    let mut parser = SsaParser::default();
    parser.parse_events("Dialogue: 0,0:00:00.00,0:00:05.00,Default,,0,0,0,,Hello, World!")?;
    parser.parse_events("Dialogue: 0,0:00:05.00,0:00:10.00,Default,,0,0,0,,你好，世界！")?;
    let event = parser.events.get(0).unwrap();
    assert_eq!(
        event
            .get(EventFormat::Layer)
            .and_then(Value::as_int)
            .unwrap(),
        0
    );
    assert_eq!(
        event
            .get(EventFormat::Style)
            .and_then(Value::as_str)
            .unwrap(),
        "Default"
    );
    Ok(())
}

#[test]
fn test_parse_fonts() -> Result<(), Error> {
    let mut parser = SsaParser::default();
    parser.parse_fonts("fontname:Arial")?;
    parser.parse_fonts("fontname:华康方圆体W7")?;
    assert_eq!(parser.fonts.get(0).unwrap(), "Arial");
    assert_eq!(parser.fonts.get(1).unwrap(), "华康方圆体W7");
    Ok(())
}

#[test]
fn test_parse_graphics() -> Result<(), Error> {
    let mut parser = SsaParser::default();
    parser.parse_graphics("filename:logo.png")?;
    parser.parse_graphics("filename:background.jpg")?;
    assert_eq!(parser.graphics.get(0).unwrap(), "logo.png");
    assert_eq!(parser.graphics.get(1).unwrap(), "background.jpg");
    Ok(())
}

#[test]
fn test_parse_str() -> Result<(), Error> {
    let ass_str = r#"
[Script Info]
; Script generated by Aegisub 9530-cibuilds-79a0655eb
; http://www.aegisub.org/
Title: [SweetSub] Oniichan ha Oshimai! - 05
ScriptType: v4.00+
WrapStyle: 0
ScaledBorderAndShadow: yes
YCbCr Matrix: TV.709
PlayResX: 1920
LayoutResX: 1920
PlayResY: 1080
LayoutResY: 1080

[V4+ Styles]
Format: Name, Fontname, Fontsize, PrimaryColour, SecondaryColour, OutlineColour, BackColour, Bold, Italic, Underline, StrikeOut, ScaleX, ScaleY, Spacing, Angle, BorderStyle, Outline, Shadow, Alignment, MarginL, MarginR, MarginV, Encoding
Style: Default,Source Han Sans SC Medium,90,&H00FFFFFF,&H00000000,&H00000000,&H00000000,0,0,0,0,100,100,0.1,0,1,3,0,2,30,30,25,1
Style: Text - CN,Source Han Sans SC Medium,80,&H00F0F0F0,&H000000FF,&H00000000,&H00000000,0,0,0,0,100,100,0.1,0,1,3,0,2,20,20,50,1
Style: Text - JP,Source Han Sans Medium,50,&H00F0F0F0,&H000000FF,&H00000000,&H00000000,0,0,0,0,100,100,0.1,0,1,3,0,2,20,20,10,1
Style: Text - CN - top,Source Han Sans SC Medium,80,&H00F0F0F0,&H000000FF,&H00000000,&H00000000,0,0,0,0,100,100,0.1,0,1,3,0,8,20,20,10,1
Style: Text - JP - top,Source Han Sans Medium,50,&H00F0F0F0,&H000000FF,&H00000000,&H00000000,0,0,0,0,100,100,0.1,0,1,3,0,8,20,20,80,1
Style: RUBY,Source Han Sans SC Medium,45,&H00FFFFFF,&H00000000,&H00000000,&H00000000,0,0,0,0,100,100,0.1,0,1,2.5,0,2,30,30,25,1
Style: Sign,Source Han Sans SC Medium,90,&H00FFFFFF,&H00000000,&H00000000,&H00000000,0,0,0,0,100,100,0.1,0,1,3,0,8,30,30,25,1
Style: OPJP,FOT-PopJoy Std B,60,&H00FFFFFF,&H00000000,&H00DDAB2F,&H00000000,0,0,0,0,100,100,0.1,0,1,4,0,2,80,80,30,1
Style: OPCN,华康方圆体W7,50,&H00FFFFFF,&H00000000,&H00DDAB2F,&H00000000,-1,0,0,0,100,100,0.1,0,1,4,0,8,80,80,30,1
Style: EDJP,FOT-PopJoy Std B,50,&H00DDAB2F,&H00000000,&H00FFFFFF,&H00000000,0,0,0,0,100,100,0.1,0,1,4,0,2,80,80,40,1
Style: EDCN,华康方圆体W7,43,&H00A066FD,&H00000000,&H00FFFFFF,&H00000000,-1,0,0,0,100,100,0.1,0,1,4,0,2,80,80,90,1
Style: Note,Source Han Sans SC Medium,60,&H00000000,&H000000FF,&H00000000,&H00000000,0,0,0,0,100,100,1,0,1,0,0,7,30,30,30,1

[Events]
Format: Layer, Start, End, Style, Name, MarginL, MarginR, MarginV, Effect, Text
Comment: 0,0:00:00.00,0:00:00.00,Default,,0,0,0,,Hello, World!
Dialogue: 0,0:00:47.24,0:00:50.24,OPJP,,0,0,0,,World, Hello!
        "#;
    let file = File::from_str(ass_str)?;
    assert_eq!(
        file.script.get_comments().unwrap(),
        &vec![
            Value::Str("Script generated by Aegisub 9530-cibuilds-79a0655eb".to_string()),
            Value::Str("http://www.aegisub.org/".to_string())
        ]
    );
    assert_eq!(file.script.get_play_res_x().unwrap(), 1920);
    Ok(())
}
