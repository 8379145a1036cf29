use huidu_player::config::{OutputMode, PlayerConfig};
use huidu_player::player::{parse_duration_secs, program_duration_secs, Player, PlayerCommand};
use huidu_player::program::model::{
    Area, ContentItem, Effect, FileRef, ImageContent, PlayControl, Program, Rectangle, Resources,
    Screen,
};
use huidu_player::render::effects::{EffectDraw, EffectPhase};

fn config(fps: u32) -> PlayerConfig {
    PlayerConfig {
        width: 128,
        height: 64,
        fps,
        program_dir: "programs".to_string(),
        port: 10001,
        output_mode: OutputMode::Png,
        output_path: "output.png".to_string(),
    }
}

fn image(name: &str, effect: Option<Effect>) -> ContentItem {
    ContentItem::Image(ImageContent {
        guid: name.to_string(),
        name: name.to_string(),
        fit: "fit".to_string(),
        effect,
        file: FileRef { name: format!("{name}.png") },
    })
}

fn area(items: Vec<ContentItem>, width: u32, height: u32) -> Area {
    Area {
        guid: "a".to_string(),
        name: String::new(),
        alpha: 200,
        rectangle: Rectangle { x: 3, y: 4, width, height },
        border: None,
        resources: Resources { items },
    }
}

fn program(guid: &str, duration: Option<&str>, areas: Vec<Area>) -> Program {
    Program {
        guid: guid.to_string(),
        name: guid.to_string(),
        program_type: "normal".to_string(),
        flag: String::new(),
        border: None,
        background_music: None,
        play_control: duration.map(|d| PlayControl {
            duration: d.to_string(),
            count: 1,
            disabled: false,
            date: None,
            time: None,
            week: None,
        }),
        areas,
    }
}

fn screen(programs: Vec<Program>) -> Screen {
    Screen { timestamps: String::new(), programs }
}

#[test]
fn durations_are_parsed() {
    assert_eq!(parse_duration_secs("00:00:02"), Some(2));
    assert_eq!(parse_duration_secs("01:02:03"), Some(3723));
    assert_eq!(parse_duration_secs("1:2:3"), Some(3723));
    assert_eq!(parse_duration_secs("+1:+2:+3"), Some(3723));
    assert_eq!(parse_duration_secs("0:0:4294967295"), Some(u32::MAX));
    assert_eq!(parse_duration_secs("0:0:4294967296"), None);
    assert_eq!(parse_duration_secs("1193046:28:16"), None);
    assert_eq!(parse_duration_secs("00:02"), None);
    assert_eq!(parse_duration_secs("0:0:0:0"), None);
    assert_eq!(parse_duration_secs(""), None);
    assert_eq!(parse_duration_secs("::"), None);
    assert_eq!(parse_duration_secs("a:b:c"), None);
    assert_eq!(parse_duration_secs("1:-2:3"), None);
    assert_eq!(parse_duration_secs(" 1:2:3"), None);
}

#[test]
fn program_without_readable_duration_plays_ten_seconds() {
    assert_eq!(program_duration_secs(&program("a", None, vec![])), 10);
    assert_eq!(program_duration_secs(&program("a", Some("soon"), vec![])), 10);
    assert_eq!(program_duration_secs(&program("a", Some("00:01:00"), vec![])), 60);
}

#[test]
fn rotation_of_two_programs() {
    let mut player = Player::new(config(30));
    let programs = vec![
        program("first", Some("00:00:02"), vec![]),
        program("second", Some("00:00:03"), vec![]),
    ];
    player.handle_command(PlayerCommand::LoadScreen(screen(programs)), 0);
    assert_eq!(player.current_program(), 0);
    for frame in 1..=59u64 {
        player.check_program_rotation(frame);
        assert_eq!(player.current_program(), 0, "frame {frame}");
    }
    player.check_program_rotation(60);
    assert_eq!(player.current_program(), 1);
    for frame in 61..=149u64 {
        player.check_program_rotation(frame);
        assert_eq!(player.current_program(), 1, "frame {frame}");
    }
    player.check_program_rotation(150);
    assert_eq!(player.current_program(), 0);
}

#[test]
fn single_program_never_rotates() {
    let mut player = Player::new(config(30));
    player.handle_command(
        PlayerCommand::LoadScreen(screen(vec![program("only", Some("00:00:01"), vec![])])),
        0,
    );
    player.check_program_rotation(1_000_000);
    assert_eq!(player.current_program(), 0);
    let mut empty = Player::new(config(30));
    empty.check_program_rotation(5);
    assert_eq!(empty.current_program(), 0);
}

#[test]
fn commands_change_the_player() {
    let mut player = Player::new(config(30));
    assert!(player.screen_on());
    assert!(!player.frame_due());
    assert!(player.render_frame().is_none());
    player.handle_command(
        PlayerCommand::LoadScreen(screen(vec![program("p", None, vec![area(vec![image("a", None)], 8, 8)])])),
        7,
    );
    assert_eq!(player.programs().len(), 1);
    assert!(player.frame_due());
    player.handle_command(PlayerCommand::ScreenPower(false), 8);
    assert!(!player.screen_on());
    assert!(!player.frame_due());
    assert!(player.render_frame().is_none());
    player.handle_command(PlayerCommand::ScreenPower(true), 9);
    player.handle_command(PlayerCommand::SetBrightness(200), 9);
    let plan = player.render_frame().unwrap();
    assert_eq!(plan.brightness, 100);
    player.handle_command(PlayerCommand::SetBrightness(40), 9);
    let plan = player.render_frame().unwrap();
    assert_eq!(plan.brightness, 40);
    assert_eq!(plan.elapsed_ms, 33);
}

#[test]
fn add_then_delete_leaves_no_program() {
    let mut player = Player::new(config(30));
    player.handle_command(PlayerCommand::SetBrightness(60), 0);
    player.handle_command(
        PlayerCommand::LoadScreen(screen(vec![program("p", None, vec![]), program("q", None, vec![])])),
        10,
    );
    player.check_program_rotation(400);
    assert_eq!(player.current_program(), 1);
    player.handle_command(PlayerCommand::LoadScreen(screen(vec![])), 500);
    assert!(player.programs().is_empty());
    assert_eq!(player.current_program(), 0);
    assert!(player.screen_on());
    assert_eq!(player.engine().width(), 128);
    assert!(!player.frame_due());
}

#[test]
fn screens_from_the_program_directory_are_added_in_order() {
    let mut player = Player::new(config(25));
    assert!(!player.load_screens(vec![]));
    assert!(player.programs().is_empty());
    let loaded = player.load_screens(vec![
        screen(vec![program("a", None, vec![]), program("b", None, vec![])]),
        screen(vec![]),
        screen(vec![program("c", None, vec![])]),
    ]);
    assert!(loaded);
    let guids: Vec<&str> = player.programs().iter().map(|p| p.guid.as_str()).collect();
    assert_eq!(guids, vec!["a", "b", "c"]);
    assert!(player.load_screens(vec![screen(vec![])]));
    assert_eq!(player.programs().len(), 3);
}

#[test]
fn snapshots_are_due_every_five_seconds() {
    let player = Player::new(config(30));
    assert!(player.snapshot_due(0));
    assert!(!player.snapshot_due(1));
    assert!(!player.snapshot_due(149));
    assert!(player.snapshot_due(150));
    assert!(player.snapshot_due(300));
}

#[test]
fn areas_cycle_through_their_items() {
    let quick = Some(Effect { effect_in: 0, effect_out: 0, in_speed: 0, out_speed: 0, duration: 1 });
    let slide = Some(Effect { effect_in: 1, effect_out: 17, in_speed: 1, out_speed: 1, duration: 2 });
    let areas = vec![
        area(vec![image("a", quick), image("b", slide)], 100, 50),
        area(vec![], 10, 10),
        area(vec![image("c", None)], 0, 10),
    ];
    let mut player = Player::new(config(10));
    player.handle_command(PlayerCommand::LoadScreen(screen(vec![program("p", None, areas)])), 0);
    // frame 0 at 0 ms: item 0 shows at once
    let plan = player.render_frame().unwrap();
    assert_eq!(plan.elapsed_ms, 0);
    assert_eq!(plan.areas.len(), 1);
    let a = &plan.areas[0];
    assert_eq!((a.area, a.item, a.alpha), (0, 0, 200));
    assert_eq!(a.rectangle, Rectangle { x: 3, y: 4, width: 100, height: 50 });
    assert!(matches!(a.draw, EffectDraw::Whole { dx: 0, dy: 0 }));
    // frame 1 at 100 ms: the display time of 100 ms is over, the item exits at once
    let plan = player.render_frame().unwrap();
    assert_eq!(plan.elapsed_ms, 100);
    assert_eq!(plan.areas[0].item, 0);
    // frame 2 at 200 ms: done, so item 1 starts to enter with nothing shown yet
    let plan = player.render_frame().unwrap();
    assert_eq!(plan.areas[0].item, 1);
    assert!(matches!(plan.areas[0].draw, EffectDraw::Whole { dx: 100, dy: 0 }));
    // frame 3 at 300 ms: half of the 200 ms entrance
    let plan = player.render_frame().unwrap();
    assert!(matches!(plan.areas[0].draw, EffectDraw::Whole { dx: 50, dy: 0 }));
    // frame 4 at 400 ms: entered
    let plan = player.render_frame().unwrap();
    assert!(matches!(plan.areas[0].draw, EffectDraw::Whole { dx: 0, dy: 0 }));
    // 200 ms on display, then the fade out begins
    player.render_frame().unwrap();
    let plan = player.render_frame().unwrap();
    assert_eq!(plan.elapsed_ms, 600);
    match &plan.areas[0].draw {
        EffectDraw::Faded { opacity } => assert_eq!((opacity.num, opacity.den), (1, 1)),
        other => panic!("unexpected drawing {:?}", other),
    }
    let plan = player.render_frame().unwrap();
    match &plan.areas[0].draw {
        EffectDraw::Faded { opacity } => assert_eq!((opacity.num, opacity.den), (100, 200)),
        other => panic!("unexpected drawing {:?}", other),
    }
    // faded out: item 0 follows at once
    let plan = player.render_frame().unwrap();
    assert_eq!(plan.elapsed_ms, 800);
    assert_eq!(plan.areas[0].item, 0);
    assert!(matches!(plan.areas[0].draw, EffectDraw::Whole { dx: 0, dy: 0 }));
}

#[test]
fn single_item_that_is_done_is_not_drawn() {
    let quick = Some(Effect { effect_in: 0, effect_out: 0, in_speed: 0, out_speed: 0, duration: 1 });
    let mut player = Player::new(config(10));
    let areas = vec![area(vec![image("a", quick)], 10, 10)];
    player.handle_command(PlayerCommand::LoadScreen(screen(vec![program("p", None, areas)])), 0);
    player.render_frame().unwrap();
    player.render_frame().unwrap();
    let plan = player.render_frame().unwrap();
    assert_eq!(player.engine().width(), 128);
    assert_eq!(plan.areas[0].item, 0);
    assert!(matches!(plan.areas[0].draw, EffectDraw::Nothing));
    let _ = EffectPhase::Done;
}

#[test]
fn brightness_command_halves_a_red_pixel() {
    use_brightness_scenario();
}

fn use_brightness_scenario() {
    let mut services = huidu_player::services::manager::ServicesState::new("p".to_string());
    let session = huidu_player::protocol::session::Session::with_guid("s".to_string());
    let context = huidu_player::protocol::command::SdkContext {
        now: huidu_player::services::clock::WallClock {
            year: 2024,
            month: 1,
            day: 1,
            hour: 0,
            minute: 0,
            second: 0,
        },
        local_ip: String::new(),
        files: Vec::new(),
        screen: Err(huidu_player::program::parser::ParseError::invalid_screen(
            huidu_player::program::parser::Framing::Bare,
        )),
        listen_port: 10001,
    };
    let xml = "<sdk guid=\"s\"><in method=\"SetLuminancePloy\"><luminance mode=\"manual\" value=\"50\"/></in></sdk>";
    let out = huidu_player::protocol::command::handle_sdk_command(
        xml,
        &session,
        &mut services,
        context,
        128,
        64,
    );
    assert_eq!(services.brightness.get_level(), 50);
    let mut player = Player::new(config(30));
    for effect in out.effects {
        match effect {
            huidu_player::protocol::command::DeviceEffect::Player(command) => {
                player.handle_command(command, 0)
            }
            other => panic!("unexpected effect {:?}", other),
        }
    }
    let mut pixel = [255u8, 0, 0, 255];
    player.engine().apply_brightness(&mut pixel);
    assert_eq!(pixel, [127, 0, 0, 255]);
}
