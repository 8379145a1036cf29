use huidu_player::program::model::{
    default_align, default_alpha, default_clock_type, default_color, default_display,
    default_duration, default_fit, default_font_name, default_font_size, default_program_type,
    default_valign, parse_color, ContentItem, Effect, EffectType, FileRef, GifContent,
    VideoContent,
};

#[test]
fn colors_are_parsed() {
    assert_eq!(parse_color("#00FF80"), (0, 255, 128));
    assert_eq!(parse_color("#ffffff"), (255, 255, 255));
    assert_eq!(parse_color("#ff0000"), (255, 0, 0));
    assert_eq!(parse_color("#0a0B0c"), (10, 11, 12));
    assert_eq!(parse_color("123456"), (0x12, 0x34, 0x56));
    assert_eq!(parse_color("##123456"), (0x12, 0x34, 0x56));
    assert_eq!(parse_color("#123456ff"), (0x12, 0x34, 0x56));
}

#[test]
fn malformed_colors_are_red() {
    assert_eq!(parse_color("bogus"), (255, 0, 0));
    assert_eq!(parse_color(""), (255, 0, 0));
    assert_eq!(parse_color("#"), (255, 0, 0));
    assert_eq!(parse_color("#12345"), (255, 0, 0));
    assert_eq!(parse_color("#12345g"), (255, 0, 0));
    assert_eq!(parse_color("#zz1234"), (255, 0, 0));
    assert_eq!(parse_color("#+f+f+f"), (255, 0, 0));
    assert_eq!(parse_color("#\u{e9}12345"), (255, 0, 0));
    assert_eq!(parse_color("#12\u{20ac}456"), (255, 0, 0));
}

#[test]
fn defaults() {
    assert_eq!(default_program_type(), "normal");
    assert_eq!(default_alpha(), 255);
    assert_eq!(default_duration(), 50);
    assert_eq!(default_fit(), "stretch");
    assert_eq!(default_align(), "center");
    assert_eq!(default_valign(), "middle");
    assert_eq!(default_font_name(), "Arial");
    assert_eq!(default_font_size(), "12");
    assert_eq!(default_color(), "#ff0000");
    assert_eq!(default_clock_type(), "digital");
    assert!(default_display());
    assert_eq!(
        Effect::default(),
        Effect { effect_in: 0, effect_out: 0, in_speed: 0, out_speed: 0, duration: 0 }
    );
}

#[test]
fn effect_codes_go_both_ways() {
    for code in 0..=29u8 {
        let effect = EffectType::from_code(code).unwrap();
        assert_eq!(effect.code(), code);
    }
    assert_eq!(EffectType::from_code(0), Some(EffectType::ImmediateShow));
    assert_eq!(EffectType::from_code(17), Some(EffectType::Fade));
    assert_eq!(EffectType::from_code(25), Some(EffectType::Random));
    assert_eq!(EffectType::from_code(29), Some(EffectType::HtDownSeriesMove));
    assert_eq!(EffectType::from_code(30), None);
    assert_eq!(EffectType::from_code(255), None);
}

#[test]
fn only_some_kinds_carry_an_effect() {
    let e = Effect { effect_in: 1, effect_out: 2, in_speed: 3, out_speed: 4, duration: 5 };
    let gif = ContentItem::Gif(GifContent {
        guid: "g".to_string(),
        name: String::new(),
        effect: Some(e),
        file: FileRef { name: "a.gif".to_string() },
    });
    assert_eq!(gif.effect(), Some(e));
    let video = ContentItem::Video(VideoContent {
        guid: "v".to_string(),
        name: String::new(),
        aspect_ratio: true,
        file: FileRef { name: "a.mp4".to_string() },
    });
    assert_eq!(video.effect(), None);
}
