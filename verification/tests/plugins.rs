use huidu_player::program::model::{ClockContent, ClockField, FontSpec, TextContent, TextStyle};
use huidu_player::render::plugins::clock::render_clock;
use huidu_player::render::plugins::gif::{premultiply, GifData, GifTimeline, RawFrame};
use huidu_player::render::plugins::image::{fit_mode, place_image, FitMode, Placement};
use huidu_player::render::plugins::text::{render_text_content, text_color, text_to_show};
use huidu_player::render::plugins::video::{
    extract_first_frame, place_video, render_placeholder, thumbnail_file_name,
};
use huidu_player::services::clock::WallClock;

fn text(string: Option<&str>, align: Option<(&str, &str)>, single_line: bool) -> TextContent {
    TextContent {
        guid: "t".to_string(),
        name: String::new(),
        single_line,
        background: String::new(),
        effect: None,
        style: align.map(|(a, v)| TextStyle { align: a.to_string(), valign: v.to_string() }),
        string: string.map(|s| s.to_string()),
        font: None,
    }
}

#[test]
fn text_is_aligned() {
    let t = |a, v| text(Some("Hi"), Some((a, v)), false);
    assert_eq!(render_text_content(&t("left", "top"), 128, 64, 20, 14, 0), (0, 0));
    assert_eq!(render_text_content(&t("right", "bottom"), 128, 64, 20, 14, 0), (108, 50));
    assert_eq!(render_text_content(&t("center", "middle"), 128, 64, 20, 14, 0), (54, 25));
    assert_eq!(render_text_content(&t("nonsense", "nonsense"), 128, 64, 21, 15, 0), (53, 24));
    assert_eq!(render_text_content(&text(Some("Hi"), None, false), 128, 64, 20, 14, 999), (54, 25));
    // text that does not fit starts at the start
    assert_eq!(render_text_content(&t("right", "bottom"), 128, 64, 200, 70, 0), (0, 0));
    assert_eq!(render_text_content(&t("center", "middle"), 128, 64, 129, 65, 0), (0, 0));
}

#[test]
fn wide_single_line_scrolls() {
    let t = text(Some("a long line"), Some(("left", "top")), true);
    // 200 + 100 pixels at 50 px/s: one round takes 6 s
    assert_eq!(render_text_content(&t, 100, 20, 200, 10, 0).0, 100);
    assert_eq!(render_text_content(&t, 100, 20, 200, 10, 1000).0, 50);
    assert_eq!(render_text_content(&t, 100, 20, 200, 10, 2000).0, 0);
    assert_eq!(render_text_content(&t, 100, 20, 200, 10, 5999).0, -199);
    assert_eq!(render_text_content(&t, 100, 20, 200, 10, 6000).0, 100);
    assert_eq!(render_text_content(&t, 100, 20, 200, 10, 6019).0, 100);
    assert_eq!(render_text_content(&t, 100, 20, 200, 10, 6020).0, 99);
    // a line that fits does not scroll
    assert_eq!(render_text_content(&t, 100, 20, 100, 10, 3000).0, 0);
    // several lines do not scroll
    let several = text(Some("a long line"), Some(("left", "top")), false);
    assert_eq!(render_text_content(&several, 100, 20, 200, 10, 3000).0, 0);
}

#[test]
fn text_and_colour_of_an_item() {
    assert_eq!(text_to_show(&text(Some("Hi"), None, false)), Some("Hi"));
    assert_eq!(text_to_show(&text(Some(""), None, false)), None);
    assert_eq!(text_to_show(&text(None, None, false)), None);
    let mut t = text(Some("Hi"), None, false);
    assert_eq!(text_color(&t), (255, 0, 0));
    t.font = Some(FontSpec {
        name: "Arial".to_string(),
        size: "12".to_string(),
        color: "#ffffff".to_string(),
        bold: false,
        italic: false,
        underline: false,
    });
    assert_eq!(text_color(&t), (255, 255, 255));
}

fn field(format: &str, color: &str, display: bool) -> Option<ClockField> {
    Some(ClockField {
        value: String::new(),
        format: format.to_string(),
        color: color.to_string(),
        display,
    })
}

fn clock(date: Option<ClockField>, week: Option<ClockField>, time: Option<ClockField>) -> ClockContent {
    ClockContent {
        guid: "c".to_string(),
        name: String::new(),
        clock_type: "digital".to_string(),
        timezone: String::new(),
        adjust: String::new(),
        title: None,
        date,
        week,
        time,
        lunar_calendar: None,
    }
}

#[test]
fn clock_shows_the_lines_it_asks_for() {
    let now = WallClock { year: 2024, month: 7, day: 4, hour: 9, minute: 5, second: 7 };
    let lines = render_clock(
        &clock(field("1", "#00ff00", true), field("2", "#ffff00", true), field("1", "#ffffff", true)),
        &now,
    );
    let got: Vec<(&str, (u8, u8, u8))> = lines.iter().map(|l| (l.text.as_str(), l.color)).collect();
    assert_eq!(
        got,
        vec![
            ("2024/07/04", (0, 255, 0)),
            ("Thursday", (255, 255, 0)),
            ("09:05:07", (255, 255, 255)),
        ]
    );
    let lines = render_clock(
        &clock(field("4", "#000001", true), field("3", "bad", true), field("3", "#000002", true)),
        &now,
    );
    let got: Vec<(&str, (u8, u8, u8))> = lines.iter().map(|l| (l.text.as_str(), l.color)).collect();
    assert_eq!(
        got,
        vec![("Jul 04, 2024", (0, 0, 1)), ("Thu", (255, 0, 0)), ("09:05:07 AM", (0, 0, 2))]
    );
    let texts = |c: &ClockContent| -> Vec<String> {
        render_clock(c, &now).into_iter().map(|l| l.text).collect()
    };
    assert_eq!(texts(&clock(field("2", "", true), None, field("2", "", true))), vec!["07/04/2024", "09:05"]);
    assert_eq!(texts(&clock(field("3", "", true), None, field("4", "", true))), vec!["04/07/2024", "09:05 AM"]);
    assert_eq!(texts(&clock(field("5", "", true), None, None)), vec!["04 Jul, 2024"]);
}

#[test]
fn clock_without_lines_shows_the_time_in_white() {
    let now = WallClock { year: 2024, month: 7, day: 4, hour: 23, minute: 5, second: 7 };
    for c in [clock(None, None, None), clock(field("1", "#00ff00", false), None, field("1", "", false))] {
        let lines = render_clock(&c, &now);
        assert_eq!(lines.len(), 1);
        assert_eq!(lines[0].text, "23:05:07");
        assert_eq!(lines[0].color, (255, 255, 255));
    }
}

#[test]
fn gif_frame_on_display() {
    let t = GifTimeline::new(vec![10, 0, 5]);
    assert_eq!(t.frame_count(), 3);
    assert_eq!(t.total_duration_ms(), 250);
    assert_eq!(t.frame_delay_ms(0), 100);
    assert_eq!(t.frame_delay_ms(1), 100);
    assert_eq!(t.frame_delay_ms(2), 50);
    let at = |ms: u64| t.frame_at(ms).unwrap();
    assert_eq!(at(0), 0);
    assert_eq!(at(99), 0);
    assert_eq!(at(100), 1);
    assert_eq!(at(199), 1);
    assert_eq!(at(200), 2);
    assert_eq!(at(249), 2);
    assert_eq!(at(250), 0);
    assert_eq!(at(250 * 1000 + 100), 1);
    assert_eq!(at(u64::MAX), (u64::MAX % 250 >= 100) as usize + (u64::MAX % 250 >= 200) as usize);
    assert!(GifTimeline::new(vec![]).frame_at(5).is_none());
    assert_eq!(GifTimeline::new(vec![]).total_duration_ms(), 0);
    assert_eq!(GifTimeline::new(vec![65535]).total_duration_ms(), 655350);
}

#[test]
fn colours_are_multiplied_by_alpha() {
    let mut data = [255u8, 128, 0, 255, 255, 128, 1, 128, 200, 100, 50, 0, 7, 8];
    premultiply(&mut data);
    assert_eq!(data, [255, 128, 0, 255, 128, 64, 0, 128, 0, 0, 0, 0, 7, 8]);
}

fn frame(left: u16, top: u16, width: u16, height: u16, pixel: [u8; 4], delay_cs: u16) -> RawFrame {
    let mut rgba = Vec::new();
    for _ in 0..width as usize * height as usize {
        rgba.extend_from_slice(&pixel);
    }
    RawFrame { delay_cs, left, top, width, height, rgba }
}

#[test]
fn gif_frames_are_drawn_over_each_other() {
    let frames = vec![
        frame(0, 0, 2, 2, [255, 0, 0, 255], 10),
        frame(1, 1, 1, 1, [0, 255, 0, 255], 0),
        frame(0, 0, 1, 1, [0, 0, 255, 0], 20),
    ];
    let gif = GifData::load_gif(2, 2, &frames).unwrap();
    assert_eq!((gif.width(), gif.height(), gif.frame_count()), (2, 2, 3));
    let red = [255u8, 0, 0, 255];
    let green = [0u8, 255, 0, 255];
    assert_eq!(gif.frame(0), &[red, red, red, red].concat());
    assert_eq!(gif.frame(1), &[red, red, red, green].concat());
    // a transparent frame changes nothing
    assert_eq!(gif.frame(2), &[red, red, red, green].concat());
    assert_eq!(gif.timeline().total_duration_ms(), 400);
    assert_eq!(gif.timeline().frame_at(150), Some(1));
}

#[test]
fn gif_frame_with_short_buffer_is_transparent_where_it_ends() {
    let mut f = frame(0, 0, 2, 1, [10, 20, 30, 255], 1);
    f.rgba.truncate(6);
    let gif = GifData::load_gif(2, 1, &[f].to_vec()).unwrap();
    assert_eq!(gif.frame(0), &vec![10, 20, 30, 255, 0, 0, 0, 0]);
    // a frame without pixels leaves the canvas transparent
    let gif = GifData::load_gif(1, 1, &vec![frame(0, 0, 0, 0, [0; 4], 1)]).unwrap();
    assert_eq!(gif.frame(0), &vec![0, 0, 0, 0]);
}

#[test]
fn no_frames_or_no_canvas_is_no_animation() {
    assert!(GifData::load_gif(2, 2, &vec![]).is_none());
    assert!(GifData::load_gif(0, 2, &vec![frame(0, 0, 1, 1, [1, 2, 3, 255], 1)]).is_none());
    assert!(GifData::load_gif(2, 0, &vec![frame(0, 0, 1, 1, [1, 2, 3, 255], 1)]).is_none());
}

#[test]
fn fit_modes_are_named() {
    assert_eq!(fit_mode("stretch"), FitMode::Stretch);
    assert_eq!(fit_mode("fill"), FitMode::Fill);
    assert_eq!(fit_mode("center"), FitMode::Center);
    assert_eq!(fit_mode("fit"), FitMode::Fit);
    assert_eq!(fit_mode("tile"), FitMode::Fit);
    assert_eq!(fit_mode(""), FitMode::Fit);
}

fn value(num: i128, den: i128) -> (i128, i128) {
    // the fraction in lowest terms, for comparing
    fn gcd(a: i128, b: i128) -> i128 {
        if b == 0 { a.abs() } else { gcd(b, a % b) }
    }
    let g = gcd(num, den).max(1);
    (num / g, den / g)
}

fn scales(p: &Placement) -> ((i128, i128), (i128, i128)) {
    (
        value(p.scale_x_num as i128, p.scale_x_den as i128),
        value(p.scale_y_num as i128, p.scale_y_den as i128),
    )
}

fn shifts(p: &Placement) -> ((i128, i128), (i128, i128)) {
    (value(p.shift_x_num, p.shift_den as i128), value(p.shift_y_num, p.shift_den as i128))
}

#[test]
fn pictures_are_placed() {
    // a picture of 200 x 100 in an area of 100 x 100
    let p = place_image(FitMode::Stretch, 200, 100, 100, 100);
    assert_eq!(scales(&p), ((1, 2), (1, 1)));
    assert_eq!(shifts(&p), ((0, 1), (0, 1)));
    let p = place_image(FitMode::Fit, 200, 100, 100, 100);
    assert_eq!(scales(&p), ((1, 2), (1, 2)));
    assert_eq!(shifts(&p), ((0, 1), (25, 1)));
    let p = place_image(FitMode::Fill, 200, 100, 100, 100);
    assert_eq!(scales(&p), ((1, 1), (1, 1)));
    assert_eq!(shifts(&p), ((-50, 1), (0, 1)));
    let p = place_image(FitMode::Center, 200, 100, 100, 100);
    assert_eq!(scales(&p), ((1, 1), (1, 1)));
    assert_eq!(shifts(&p), ((-50, 1), (0, 1)));
    let p = place_image(FitMode::Center, 3, 4, 10, 11);
    assert_eq!(shifts(&p), ((7, 2), (7, 2)));
    // a tall picture of 100 x 400 in an area of 128 x 64
    let p = place_image(FitMode::Fit, 100, 400, 128, 64);
    assert_eq!(scales(&p), ((4, 25), (4, 25)));
    assert_eq!(shifts(&p), ((56, 1), (0, 1)));
    let p = place_image(FitMode::Fill, 100, 400, 128, 64);
    assert_eq!(scales(&p), ((32, 25), (32, 25)));
    assert_eq!(shifts(&p), ((0, 1), (-224, 1)));
    // the largest sizes do not overflow
    let p = place_image(FitMode::Fit, u32::MAX, 1, 1, u32::MAX);
    assert_eq!(scales(&p), ((1, u32::MAX as i128), (1, u32::MAX as i128)));
    assert_eq!(place_video(true, 200, 100, 100, 100), place_image(FitMode::Fit, 200, 100, 100, 100));
    assert_eq!(place_video(false, 200, 100, 100, 100), place_image(FitMode::Stretch, 200, 100, 100, 100));
}

#[test]
fn video_stills_are_named_by_the_digest() {
    assert_eq!(thumbnail_file_name("a"), "huidu_thumb_0cc175b9c0f1b6a831c399e269772661.png");
    assert_eq!(thumbnail_file_name(""), "huidu_thumb_d41d8cd98f00b204e9800998ecf8427e.png");
    assert_eq!(
        extract_first_frame("/p/a.mp4", "/tmp/t.png"),
        vec!["-y", "-i", "/p/a.mp4", "-vframes", "1", "-f", "image2", "/tmp/t.png"]
    );
}

#[test]
fn placeholder_shows_a_play_triangle() {
    let data = render_placeholder();
    assert_eq!(data.len(), 320 * 240 * 4);
    let at = |x: usize, y: usize| -> [u8; 4] {
        let i = (y * 320 + x) * 4;
        [data[i], data[i + 1], data[i + 2], data[i + 3]]
    };
    let dark = [30u8, 30, 30, 255];
    let light = [200u8, 200, 200, 255];
    assert_eq!(at(0, 0), dark);
    assert_eq!(at(319, 239), dark);
    // the middle row is 30 pixels long, from column 150
    assert_eq!(at(149, 120), dark);
    assert_eq!(at(150, 120), light);
    assert_eq!(at(179, 120), light);
    assert_eq!(at(180, 120), dark);
    // the rows get shorter towards top and bottom
    assert_eq!(at(150, 91), light);
    assert_eq!(at(151, 91), dark);
    assert_eq!(at(150, 149), light);
    assert_eq!(at(151, 149), dark);
    assert_eq!(at(150, 90), dark);
    assert_eq!(at(150, 150), dark);
    assert_eq!(at(164, 105), light);
    assert_eq!(at(165, 105), dark);
    let lit = (0..240).flat_map(|y| (0..320).map(move |x| (x, y))).filter(|&(x, y)| at(x, y) == light).count();
    assert_eq!(lit, 900);
}

#[test]
fn clock_lines_share_the_height() {
    use_clock_layout();
}

fn use_clock_layout() {
    let size = |h, n| {
        let s = huidu_player::render::plugins::clock::clock_line_size(h, n);
        (s.num, s.den)
    };
    assert_eq!(size(64, 1), (256, 5));
    assert_eq!(size(64, 0), (256, 5));
    assert_eq!(size(64, 2), (64, 2));
    assert_eq!(size(64, 3), (64, 3));
    assert_eq!(size(u32::MAX, 1), (4 * u32::MAX as u64, 5));
    let start = huidu_player::render::plugins::clock::clock_line_start;
    assert_eq!(start(128, 28), 50);
    assert_eq!(start(128, 129), 0);
    assert_eq!(start(128, 127), 0);
    assert_eq!(start(0, -4), 2);
}
