use huidu_player::program::model::{
    Area, ContentItem, Effect, FileRef, GifContent, Program, Rectangle, Resources,
};
use huidu_player::render::effects::{EffectDraw, EffectPhase};
use huidu_player::render::engine::{get_effect_for_item, RenderEngine};

fn gif(name: &str, effect: Option<Effect>) -> ContentItem {
    ContentItem::Gif(GifContent {
        guid: name.to_string(),
        name: name.to_string(),
        effect,
        file: FileRef { name: format!("{name}.gif") },
    })
}

fn program(areas: Vec<Vec<ContentItem>>) -> Program {
    Program {
        guid: "p".to_string(),
        name: String::new(),
        program_type: "normal".to_string(),
        flag: String::new(),
        border: None,
        background_music: None,
        play_control: None,
        areas: areas
            .into_iter()
            .enumerate()
            .map(|(i, items)| Area {
                guid: format!("a{i}"),
                name: String::new(),
                alpha: 255,
                rectangle: Rectangle { x: i as i32, y: 0, width: 16, height: 8 },
                border: None,
                resources: Resources { items },
            })
            .collect(),
    }
}

#[test]
fn item_effect_or_fallback() {
    let e = Effect { effect_in: 3, effect_out: 4, in_speed: 5, out_speed: 6, duration: 70 };
    let s = get_effect_for_item(&gif("a", Some(e)));
    assert_eq!((s.effect_in, s.effect_out, s.in_speed, s.out_speed), (3, 4, 5, 6));
    assert_eq!(s.display_duration_ms, 7000);
    assert_eq!(s.phase, EffectPhase::Entering);
    assert_eq!(s.phase_start_ms, 0);
    let s = get_effect_for_item(&gif("a", None));
    assert_eq!((s.effect_in, s.effect_out, s.in_speed, s.out_speed), (0, 0, 0, 0));
    assert_eq!(s.display_duration_ms, 5000);
    let s = get_effect_for_item(&gif("a", Some(Effect { duration: u32::MAX, ..e })));
    assert_eq!(s.display_duration_ms, u32::MAX as u64 * 100);
}

#[test]
fn frames_follow_the_frame_clock() {
    let mut engine = RenderEngine::new(128, 64, 30);
    assert_eq!((engine.width(), engine.height(), engine.ms_per_frame()), (128, 64, 33));
    let p = program(vec![vec![gif("a", None)]]);
    for frame in 0..5u64 {
        let plan = engine.render_frame(&p);
        assert_eq!(plan.elapsed_ms, frame * 33);
        assert_eq!(plan.brightness, 100);
    }
    let mut fast = RenderEngine::new(1, 1, 4000);
    assert_eq!(fast.ms_per_frame(), 0);
    fast.render_frame(&p);
    assert_eq!(fast.render_frame(&p).elapsed_ms, 0);
    let mut slow = RenderEngine::new(1, 1, 1);
    slow.render_frame(&p);
    assert_eq!(slow.render_frame(&p).elapsed_ms, 1000);
}

#[test]
fn states_that_do_not_fit_are_replaced() {
    let mut engine = RenderEngine::new(128, 64, 10);
    let short = Some(Effect { effect_in: 0, effect_out: 0, in_speed: 0, out_speed: 0, duration: 1 });
    let three = program(vec![vec![gif("a", short), gif("b", short), gif("c", short)]]);
    // play until the third item shows
    let mut item = 0;
    for _ in 0..20 {
        let plan = engine.render_frame(&three);
        item = plan.areas[0].item;
        if item == 2 {
            break;
        }
    }
    assert_eq!(item, 2);
    // the same number of areas, but fewer items: the playlist starts over
    let one = program(vec![vec![gif("z", None)]]);
    let plan = engine.render_frame(&one);
    assert_eq!(plan.areas[0].item, 0);
    // another number of areas
    let two = program(vec![vec![gif("x", None)], vec![gif("y", None)]]);
    let plan = engine.render_frame(&two);
    assert_eq!(plan.areas.len(), 2);
    assert_eq!((plan.areas[0].area, plan.areas[1].area), (0, 1));
    assert_eq!(plan.areas[1].rectangle.x, 1);
    // no areas at all
    let plan = engine.render_frame(&program(vec![]));
    assert!(plan.areas.is_empty());
}

#[test]
fn reset_starts_every_area_over() {
    let mut engine = RenderEngine::new(128, 64, 10);
    let slide = Some(Effect { effect_in: 1, effect_out: 1, in_speed: 8, out_speed: 8, duration: 50 });
    let p = program(vec![vec![gif("a", slide)], vec![]]);
    engine.reset_for_program(&p);
    engine.set_brightness(120);
    let plan = engine.render_frame(&p);
    assert_eq!(plan.brightness, 100);
    assert_eq!(plan.areas.len(), 1);
    assert!(matches!(plan.areas[0].draw, EffectDraw::Whole { dx: 16, dy: 0 }));
    for _ in 0..15 {
        engine.render_frame(&p);
    }
    let plan = engine.render_frame(&p);
    // 1600 ms of the 3000 ms entrance: 16 * 1400 / 3000 = 7
    assert!(matches!(plan.areas[0].draw, EffectDraw::Whole { dx: 7, dy: 0 }));
    engine.reset_for_program(&p);
    let plan = engine.render_frame(&p);
    // the playlist starts over, the frame clock goes on: the entrance is
    // measured from time 0 and is 1700 ms old
    assert!(matches!(plan.areas[0].draw, EffectDraw::Whole { dx: 6, dy: 0 }));
    let mut pixels = [200u8, 100, 50, 255];
    engine.set_brightness(10);
    engine.apply_brightness(&mut pixels);
    assert_eq!(pixels, [20, 10, 5, 255]);
}
