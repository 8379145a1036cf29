use huidu_player::render::effects::{
    apply_effect, check_picture, draw_effect, draw_region, draw_regions, draw_whole, fill,
    EffectDraw, EffectPhase, EffectState, Progress, Region,
};

fn p(num: u64, den: u64) -> Progress {
    Progress { num, den }
}

fn rank(phase: EffectPhase) -> u8 {
    match phase {
        EffectPhase::Entering => 0,
        EffectPhase::Displaying => 1,
        EffectPhase::Exiting => 2,
        EffectPhase::Done => 3,
    }
}

#[test]
fn transition_durations() {
    let expected = [0u64, 200, 400, 600, 800, 1000, 1500, 2000, 3000];
    for (speed, ms) in expected.iter().enumerate() {
        assert_eq!(EffectState::transition_duration_ms(speed as u8), *ms);
    }
    assert_eq!(EffectState::transition_duration_ms(9), 500);
    assert_eq!(EffectState::transition_duration_ms(255), 500);
}

#[test]
fn item_without_effect_is_displayed_at_once() {
    let mut s = EffectState::new(0, 0, 0, 0, 50);
    assert_eq!(s.phase, EffectPhase::Entering);
    assert_eq!(s.display_duration_ms, 5000);
    assert!(!s.update(0));
    assert_eq!(s.phase, EffectPhase::Displaying);
    assert_eq!(s.progress, p(1, 1));
    assert!(!s.update(4999));
    assert_eq!(s.phase, EffectPhase::Displaying);
    assert!(!s.update(5000));
    assert_eq!(s.phase, EffectPhase::Exiting);
    assert_eq!(s.progress, p(0, 1));
    assert!(s.update(5033));
    assert_eq!(s.phase, EffectPhase::Done);
    assert!(s.update(6000));
    assert_eq!(s.phase, EffectPhase::Done);
}

#[test]
fn fade_in_and_out_take_their_time() {
    let mut s = EffectState::new(17, 17, 3, 1, 10);
    assert!(!s.update(300));
    assert_eq!(s.phase, EffectPhase::Entering);
    assert_eq!(s.progress, p(300, 600));
    assert!(!s.update(600));
    assert_eq!(s.phase, EffectPhase::Displaying);
    assert_eq!(s.progress, p(600, 600));
    assert_eq!(s.phase_start_ms, 600);
    assert!(!s.update(1599));
    assert_eq!(s.phase, EffectPhase::Displaying);
    assert!(!s.update(1600));
    assert_eq!(s.phase, EffectPhase::Exiting);
    assert!(!s.update(1700));
    assert_eq!(s.progress, p(100, 200));
    assert!(s.update(1800));
    assert_eq!(s.phase, EffectPhase::Done);
}

#[test]
fn zero_duration_displays_forever() {
    let mut s = EffectState::new(1, 1, 1, 1, 0);
    s.update(0);
    s.update(200);
    assert_eq!(s.phase, EffectPhase::Displaying);
    for t in [1_000u64, 1_000_000, u64::MAX] {
        assert!(!s.update(t));
        assert_eq!(s.phase, EffectPhase::Displaying);
    }
}

#[test]
fn phase_never_goes_back() {
    let times = [0u64, 50, 10, 700, 650, 3000, 1, 9000, 9100, 9050, 20000, 3];
    let mut s = EffectState::new(5, 9, 2, 8, 20);
    let mut last = rank(s.phase);
    for t in times {
        s.update(t);
        assert!(rank(s.phase) >= last);
        last = rank(s.phase);
    }
    assert_eq!(s.phase, EffectPhase::Done);
}

#[test]
fn reset_starts_the_next_item() {
    let mut s = EffectState::new(1, 2, 3, 4, 5);
    s.current_index = 7;
    s.update(10_000);
    s.reset(17, 18, 1, 2, 30, 1234);
    assert_eq!(s.current_index, 7);
    assert_eq!(s.phase, EffectPhase::Entering);
    assert_eq!(s.progress, p(0, 1));
    assert_eq!(s.phase_start_ms, 1234);
    assert_eq!(s.display_duration_ms, 3000);
    assert_eq!((s.effect_in, s.effect_out, s.in_speed, s.out_speed), (17, 18, 1, 2));
}

fn whole(draw: EffectDraw) -> (i32, i32) {
    match draw {
        EffectDraw::Whole { dx, dy } => (dx, dy),
        other => panic!("unexpected drawing {:?}", other),
    }
}

fn regions(draw: EffectDraw) -> Vec<Region> {
    match draw {
        EffectDraw::Regions(r) => r,
        other => panic!("unexpected drawing {:?}", other),
    }
}

#[test]
fn slides_move_by_the_hidden_share() {
    let quarter = p(150, 600);
    assert_eq!(whole(apply_effect(1, quarter, EffectPhase::Entering, 128, 64)), (96, 0));
    assert_eq!(whole(apply_effect(2, quarter, EffectPhase::Entering, 128, 64)), (-96, 0));
    assert_eq!(whole(apply_effect(3, quarter, EffectPhase::Entering, 128, 64)), (0, 48));
    assert_eq!(whole(apply_effect(4, quarter, EffectPhase::Entering, 128, 64)), (0, -48));
    assert_eq!(whole(apply_effect(5, quarter, EffectPhase::Entering, 128, 64)), (-96, 0));
    assert_eq!(whole(apply_effect(6, quarter, EffectPhase::Entering, 128, 64)), (96, 0));
    assert_eq!(whole(apply_effect(7, quarter, EffectPhase::Entering, 128, 64)), (0, -48));
    assert_eq!(whole(apply_effect(8, quarter, EffectPhase::Entering, 128, 64)), (0, 48));
    assert_eq!(whole(apply_effect(9, quarter, EffectPhase::Entering, 128, 64)), (-96, -48));
    assert_eq!(whole(apply_effect(10, quarter, EffectPhase::Entering, 128, 64)), (96, -48));
    assert_eq!(whole(apply_effect(11, quarter, EffectPhase::Entering, 128, 64)), (-96, 48));
    assert_eq!(whole(apply_effect(12, quarter, EffectPhase::Entering, 128, 64)), (96, 48));
    // while exiting the shown share is what is left
    assert_eq!(whole(apply_effect(1, quarter, EffectPhase::Exiting, 128, 64)), (32, 0));
    // while displaying everything shows
    assert_eq!(whole(apply_effect(1, quarter, EffectPhase::Displaying, 128, 64)), (0, 0));
    // rounding is downwards
    assert_eq!(whole(apply_effect(1, p(1, 3), EffectPhase::Entering, 100, 10)), (66, 0));
}

#[test]
fn done_draws_nothing_and_plain_effects_draw_all() {
    assert!(matches!(apply_effect(1, p(1, 2), EffectPhase::Done, 10, 10), EffectDraw::Nothing));
    for code in [0u8, 20, 21, 22, 23, 24, 26, 27, 28, 29, 30, 200] {
        assert_eq!(whole(apply_effect(code, p(1, 2), EffectPhase::Entering, 10, 10)), (0, 0));
    }
}

#[test]
fn fade_hands_out_the_opacity() {
    match apply_effect(17, p(200, 800), EffectPhase::Entering, 10, 10) {
        EffectDraw::Faded { opacity } => assert_eq!(opacity, p(200, 800)),
        other => panic!("unexpected drawing {:?}", other),
    }
    match apply_effect(17, p(200, 800), EffectPhase::Exiting, 10, 10) {
        EffectDraw::Faded { opacity } => assert_eq!(opacity, p(600, 800)),
        other => panic!("unexpected drawing {:?}", other),
    }
    // a fraction that is none stands for the whole
    match apply_effect(17, p(5, 0), EffectPhase::Entering, 10, 10) {
        EffectDraw::Faded { opacity } => assert_eq!(opacity, p(1, 1)),
        other => panic!("unexpected drawing {:?}", other),
    }
}

#[test]
fn open_and_close_draw_regions() {
    let half = p(1, 2);
    assert_eq!(
        regions(apply_effect(13, half, EffectPhase::Entering, 128, 64)),
        vec![
            Region { dst_x: 32, dst_y: 0, src_x: 0, src_y: 0, width: 32, height: 64 },
            Region { dst_x: 64, dst_y: 0, src_x: 64, src_y: 0, width: 32, height: 64 },
        ]
    );
    assert_eq!(
        regions(apply_effect(14, half, EffectPhase::Entering, 128, 64)),
        vec![
            Region { dst_x: 0, dst_y: 16, src_x: 0, src_y: 0, width: 128, height: 16 },
            Region { dst_x: 0, dst_y: 32, src_x: 0, src_y: 32, width: 128, height: 16 },
        ]
    );
    assert_eq!(
        regions(apply_effect(15, p(1, 4), EffectPhase::Entering, 128, 64)),
        vec![Region { dst_x: 48, dst_y: 0, src_x: 48, src_y: 0, width: 32, height: 64 }]
    );
    assert_eq!(
        regions(apply_effect(16, p(1, 4), EffectPhase::Entering, 128, 64)),
        vec![Region { dst_x: 0, dst_y: 24, src_x: 0, src_y: 24, width: 128, height: 16 }]
    );
}

#[test]
fn shutters_draw_eight_blinds() {
    let blinds = regions(apply_effect(18, p(1, 2), EffectPhase::Entering, 128, 64));
    assert_eq!(blinds.len(), 8);
    for (i, b) in blinds.iter().enumerate() {
        let y = i as i32 * 8;
        assert_eq!(*b, Region { dst_x: 0, dst_y: y, src_x: 0, src_y: y, width: 128, height: 4 });
    }
    let blinds = regions(apply_effect(19, p(3, 4), EffectPhase::Entering, 128, 64));
    assert_eq!(blinds.len(), 8);
    for (i, b) in blinds.iter().enumerate() {
        let x = i as i32 * 16;
        assert_eq!(*b, Region { dst_x: x, dst_y: 0, src_x: x, src_y: 0, width: 12, height: 64 });
    }
}

#[test]
fn random_effect_picks_by_progress() {
    // 16 * 1/2 = 8, so the pick is effect 9 (a diagonal cover)
    assert_eq!(whole(apply_effect(25, p(1, 2), EffectPhase::Entering, 100, 100)), (-50, -50));
    // at the start the pick is effect 1
    assert_eq!(whole(apply_effect(25, p(0, 5), EffectPhase::Entering, 100, 100)), (100, 0));
    // at the end the pick is effect 1 again, with everything shown
    assert_eq!(whole(apply_effect(25, p(5, 5), EffectPhase::Entering, 100, 100)), (0, 0));
    // 16 * 15/16 = 15, so the pick is effect 16 (vertical close)
    assert_eq!(
        regions(apply_effect(25, p(15, 16), EffectPhase::Entering, 64, 64)),
        vec![Region { dst_x: 0, dst_y: 2, src_x: 0, src_y: 2, width: 64, height: 60 }]
    );
}

#[test]
fn large_areas_do_not_overflow() {
    assert_eq!(
        whole(apply_effect(1, p(0, 1), EffectPhase::Entering, u32::MAX, u32::MAX)),
        (i32::MAX, 0)
    );
    assert_eq!(
        whole(apply_effect(9, p(0, u64::MAX), EffectPhase::Entering, u32::MAX, u32::MAX)),
        (-i32::MAX, -i32::MAX)
    );
    let blinds = regions(apply_effect(18, p(u64::MAX, u64::MAX), EffectPhase::Entering, 1, u32::MAX));
    assert_eq!(blinds[7].dst_y, i32::MAX);
    assert_eq!(blinds[1].height, u32::MAX / 8);
}

fn picture(width: u32, height: u32, pixel: [u8; 4]) -> Vec<u8> {
    let mut data = Vec::new();
    for _ in 0..width * height {
        data.extend_from_slice(&pixel);
    }
    data
}

#[test]
fn fill_sets_every_pixel() {
    let mut data = vec![9u8; 10];
    fill(&mut data, 1, 2, 3, 4);
    assert_eq!(data, vec![1, 2, 3, 4, 1, 2, 3, 4, 1, 2]);
}

#[test]
fn region_is_laid_over_the_target() {
    // content 2x2: opaque red, half transparent green, transparent, opaque blue
    let content = vec![
        255, 0, 0, 255, 0, 100, 0, 128, //
        9, 9, 9, 0, 0, 0, 255, 255,
    ];
    let mut target = picture(3, 3, [50, 50, 50, 255]);
    let region = Region { dst_x: 1, dst_y: 1, src_x: 0, src_y: 0, width: 2, height: 2 };
    draw_region(&content, 2, 2, &mut target, 3, 3, region);
    let grey = [50u8, 50, 50, 255];
    let at = |x: usize, y: usize| -> [u8; 4] {
        let i = (y * 3 + x) * 4;
        [target[i], target[i + 1], target[i + 2], target[i + 3]]
    };
    for (x, y) in [(0, 0), (1, 0), (2, 0), (0, 1), (0, 2)] {
        assert_eq!(at(x, y), grey);
    }
    assert_eq!(at(1, 1), [255, 0, 0, 255]);
    // 50 * 127 / 255 = 24; alpha 128 + 255 * 127 / 255 = 255
    assert_eq!(at(2, 1), [24, 124, 24, 255]);
    assert_eq!(at(1, 2), grey);
    assert_eq!(at(2, 2), [0, 0, 255, 255]);
}

#[test]
fn region_outside_either_picture_is_left_out() {
    let content = picture(2, 2, [200, 200, 200, 255]);
    let before = picture(2, 2, [1, 2, 3, 4]);
    for region in [
        Region { dst_x: 2, dst_y: 0, src_x: 0, src_y: 0, width: 2, height: 2 },
        Region { dst_x: 0, dst_y: 0, src_x: 2, src_y: 0, width: 2, height: 2 },
        Region { dst_x: -5, dst_y: -5, src_x: 0, src_y: 0, width: 2, height: 2 },
        Region { dst_x: 0, dst_y: 0, src_x: -3, src_y: -3, width: 2, height: 2 },
        Region { dst_x: 0, dst_y: 0, src_x: 0, src_y: 0, width: 0, height: 5 },
        Region { dst_x: i32::MAX, dst_y: i32::MAX, src_x: i32::MAX, src_y: 0, width: 3, height: 3 },
    ] {
        let mut target = before.clone();
        draw_region(&content, 2, 2, &mut target, 2, 2, region);
        assert_eq!(target, before);
    }
    // a region that sticks out is cut off
    let mut target = before.clone();
    let region = Region { dst_x: 1, dst_y: -1, src_x: 0, src_y: 0, width: 9, height: 9 };
    draw_region(&content, 2, 2, &mut target, 2, 2, region);
    assert_eq!(target, vec![1, 2, 3, 4, 200, 200, 200, 255, 1, 2, 3, 4, 1, 2, 3, 4]);
}

#[test]
fn regions_are_drawn_in_order() {
    let content = vec![10, 0, 0, 255, 0, 20, 0, 255];
    let mut target = picture(2, 1, [0, 0, 0, 0]);
    let both = [
        Region { dst_x: 0, dst_y: 0, src_x: 0, src_y: 0, width: 2, height: 1 },
        Region { dst_x: 0, dst_y: 0, src_x: 1, src_y: 0, width: 1, height: 1 },
    ];
    draw_regions(&content, 2, 1, &mut target, 2, 1, &both);
    assert_eq!(target, vec![0, 20, 0, 255, 0, 20, 0, 255]);
}

#[test]
fn whole_content_is_drawn_at_an_offset() {
    let content = picture(2, 2, [0, 255, 0, 255]);
    let mut target = picture(4, 4, [255, 0, 0, 255]);
    draw_whole(&content, 2, 2, &mut target, 4, 4, 1, 2);
    for y in 0..4usize {
        for x in 0..4usize {
            let i = (y * 4 + x) * 4;
            let inside = (1..3).contains(&x) && (2..4).contains(&y);
            let want = if inside { [0, 255, 0, 255] } else { [255, 0, 0, 255] };
            assert_eq!(&target[i..i + 4], &want, "pixel {x},{y}");
        }
    }
}

#[test]
fn content_that_cannot_be_placed_is_not_drawn() {
    let content = picture(2, 2, [0, 255, 0, 255]);
    let before = picture(4, 4, [255, 0, 0, 255]);
    let mut target = before.clone();
    draw_whole(&content, 2, 2, &mut target, 4, 4, i32::MAX, 0);
    assert_eq!(target, before);
    draw_whole(&content, 2, 2, &mut target, 4, 4, 0, i32::MAX - 1);
    assert_eq!(target, before);
    // buffers that are no pictures of their sizes
    draw_whole(&content, 2, 3, &mut target, 4, 4, 0, 0);
    assert_eq!(target, before);
    draw_whole(&content, 2, 2, &mut target, 4, 5, 0, 0);
    assert_eq!(target, before);
    draw_whole(&[], 0, 0, &mut target, 4, 4, 0, 0);
    assert_eq!(target, before);
    assert!(check_picture(&content, 2, 2));
    assert!(!check_picture(&content, 1, 2));
    assert!(!check_picture(&[], 0, 0));
}

#[test]
fn effect_is_carried_out() {
    let content = picture(2, 1, [0, 0, 200, 255]);
    let mut target = picture(2, 1, [0, 0, 0, 0]);
    let blend = draw_effect(&EffectDraw::Whole { dx: 1, dy: 0 }, &content, &mut target, 2, 1);
    assert!(blend.is_none());
    assert_eq!(target, vec![0, 0, 0, 0, 0, 0, 200, 255]);
    let mut target = picture(2, 1, [0, 0, 0, 0]);
    let blend = draw_effect(&EffectDraw::Faded { opacity: p(1, 4) }, &content, &mut target, 2, 1);
    assert_eq!(blend, Some(p(1, 4)));
    assert_eq!(target, picture(2, 1, [0, 0, 0, 0]));
    let blend = draw_effect(&EffectDraw::Nothing, &content, &mut target, 2, 1);
    assert!(blend.is_none());
    assert_eq!(target, picture(2, 1, [0, 0, 0, 0]));
    let plan = apply_effect(15, p(1, 1), EffectPhase::Entering, 2, 1);
    let blend = draw_effect(&plan, &content, &mut target, 2, 1);
    assert!(blend.is_none());
    assert_eq!(target, content);
}

#[test]
fn wide_pictures_are_drawn_too() {
    let content = picture(10_000, 2, [1, 2, 3, 255]);
    let mut target = picture(10_000, 3, [9, 9, 9, 255]);
    draw_whole(&content, 10_000, 2, &mut target, 10_000, 3, 5_000, 1);
    let at = |x: usize, y: usize| -> [u8; 4] {
        let i = (y * 10_000 + x) * 4;
        [target[i], target[i + 1], target[i + 2], target[i + 3]]
    };
    assert_eq!(at(4_999, 1), [9, 9, 9, 255]);
    assert_eq!(at(5_000, 1), [1, 2, 3, 255]);
    assert_eq!(at(9_999, 2), [1, 2, 3, 255]);
    assert_eq!(at(9_999, 0), [9, 9, 9, 255]);
    // far off the target, but placeable
    let before = target.clone();
    draw_whole(&content, 10_000, 2, &mut target, 10_000, 3, i32::MAX - 10_000, i32::MAX - 2);
    assert_eq!(target, before);
    draw_whole(&content, 10_000, 2, &mut target, 10_000, 3, i32::MIN, i32::MIN);
    assert_eq!(target, before);
}

#[test]
fn half_transparent_content_is_blended_by_the_drawing_library() {
    let content = picture(1, 1, [100, 0, 0, 128]);
    let mut target = picture(1, 1, [0, 0, 200, 255]);
    draw_whole(&content, 1, 1, &mut target, 1, 1, 0, 0);
    assert_eq!(target[3], 255);
    assert!(target[0] >= 99 && target[0] <= 101);
    assert!(target[2] >= 98 && target[2] <= 101);
}

#[test]
fn placing_keeps_edges_within_coordinates() {
    use_can_place();
}

fn use_can_place() {
    let can_place = huidu_player::render::effects::can_place;
    assert!(can_place(10, 10, 0, 0));
    assert!(can_place(10, 10, i32::MAX - 10, i32::MAX - 10));
    assert!(!can_place(10, 10, i32::MAX - 9, 0));
    assert!(!can_place(10, 10, 0, i32::MAX - 9));
    assert!(can_place(i32::MAX as u32, 1, i32::MIN, 0));
    assert!(can_place(i32::MAX as u32, 1, 0, 0));
    assert!(!can_place(i32::MAX as u32, 1, 1, 0));
    assert!(!can_place(i32::MAX as u32 + 1, 1, i32::MIN, 0));
    assert!(!can_place(1, u32::MAX, 0, i32::MIN));
    assert!(can_place(0, 0, i32::MAX, i32::MAX));
}
