//! Video content: the still that stands for a video.

use crate::render::plugins::image::FitMode;
use crate::render::plugins::image::place_image;
use crate::render::plugins::image::placement;
use crate::render::plugins::image::Placement;
use vstd::prelude::*;
use vstd::string::*;

verus! {

/// The width of the placeholder picture.
pub const PLACEHOLDER_WIDTH: u32 = 320;

/// The height of the placeholder picture.
pub const PLACEHOLDER_HEIGHT: u32 = 240;

/// What the `md5` crate computes for bytes, in lower-case hexadecimal.
pub uninterp spec fn md5_hex(bytes: Seq<u8>) -> Seq<char>;

/// `md5::compute` on the bytes of a text, written out by the digest's
/// `LowerHex`. The result is named, not stated.
#[verifier::external_body]
fn md5_hash(s: &str) -> (r: String)
    ensures
        r@ == md5_hex(s.spec_bytes()),
{
    format!("{:x}", md5::compute(s.as_bytes()))
}

/// The name of the temporary file that holds the still of a video.
pub open spec fn thumbnail_name(filename: Seq<u8>) -> Seq<char> {
    "huidu_thumb_"@ + md5_hex(filename) + ".png"@
}

/// The name of the temporary file that holds the still of a video.
pub fn thumbnail_file_name(filename: &str) -> (r: String)
    ensures
        r@ == thumbnail_name(filename.spec_bytes()),
{
    let mut r = "huidu_thumb_".to_owned();
    let hash = md5_hash(filename);
    r.append(hash.as_str());
    r.append(".png");
    r
}

/// The arguments with which the external tool extracts the first frame of
/// a video into a picture file.
pub fn extract_first_frame(video_path: &str, still_path: &str) -> (args: Vec<String>)
    ensures
        args.deep_view() == seq![
            "-y"@,
            "-i"@,
            video_path@,
            "-vframes"@,
            "1"@,
            "-f"@,
            "image2"@,
            still_path@,
        ],
{
    let mut args: Vec<String> = Vec::new();
    args.push("-y".to_owned());
    args.push("-i".to_owned());
    args.push(video_path.to_owned());
    args.push("-vframes".to_owned());
    args.push("1".to_owned());
    args.push("-f".to_owned());
    args.push("image2".to_owned());
    args.push(still_path.to_owned());
    assert(args.deep_view() =~= seq![
        "-y"@,
        "-i"@,
        video_path@,
        "-vframes"@,
        "1"@,
        "-f"@,
        "image2"@,
        still_path@,
    ]);
    args
}

/// Whether a pixel of the placeholder belongs to the play triangle: a
/// triangle of 61 rows around the middle row, whose left edge is upright
/// and whose rows get shorter towards the top and the bottom.
pub open spec fn in_triangle(x: int, y: int) -> bool {
    let away = if y >= 120 {
        y - 120
    } else {
        120 - y
    };
    90 <= y <= 150 && 150 <= x < 150 + (30 - away)
}

/// A byte of the placeholder picture, in RGBA order: the triangle is light
/// grey on dark grey, all of it opaque.
pub open spec fn placeholder_byte(i: int) -> u8 {
    if i % 4 == 3 {
        255
    } else if in_triangle((i / 4) % 320, (i / 4) / 320) {
        200
    } else {
        30
    }
}

/// The placeholder picture.
pub open spec fn placeholder() -> Seq<u8> {
    Seq::new(307200, |i: int| placeholder_byte(i))
}

/// Draws the placeholder for a video without a still: 320 by 240 pixels in
/// RGBA order.
pub fn render_placeholder() -> (data: Vec<u8>)
    ensures
        data@ == placeholder(),
{
    let mut data: Vec<u8> = Vec::new();
    let mut y: u32 = 0;
    while y < 240
        invariant
            y <= 240,
            data@.len() == y * 1280,
            forall|i: int| 0 <= i < data@.len() ==> data@[i] == placeholder_byte(i),
        decreases 240 - y,
    {
        let away: u32 = if y >= 120 {
            y - 120
        } else {
            120 - y
        };
        let mut x: u32 = 0;
        while x < 320
            invariant
                x <= 320,
                y < 240,
                away == (if y >= 120 {
                    y - 120
                } else {
                    120 - y
                }),
                data@.len() == y * 1280 + x * 4,
                forall|i: int| 0 <= i < data@.len() ==> data@[i] == placeholder_byte(i),
            decreases 320 - x,
        {
            let lit: bool = 90 <= y && y <= 150 && 150 <= x && x < 180 - away;
            let shade: u8 = if lit {
                200
            } else {
                30
            };
            let ghost at = data@.len() as int;
            proof {
                assert(at == (y * 320 + x) * 4);
                assert(at / 4 == y * 320 + x);
                assert((y * 320 + x) % 320 == x && (y * 320 + x) / 320 == y) by (nonlinear_arith)
                    requires
                        0 <= x < 320,
                        0 <= y,
                ;
                assert((at + 1) / 4 == at / 4 && (at + 2) / 4 == at / 4 && (at + 3) / 4 == at / 4);
                assert(lit == in_triangle(x as int, y as int));
            }
            data.push(shade);
            data.push(shade);
            data.push(shade);
            data.push(255);
            x += 1;
        }
        y += 1;
    }
    assert(data@ =~= placeholder());
    data
}

/// Where the still of a video goes in its area: fitted where the video
/// keeps its aspect ratio, stretched otherwise.
pub fn place_video(aspect_ratio: bool, still_w: u32, still_h: u32, width: u32, height: u32) -> (r:
    Placement)
    requires
        still_w > 0,
        still_h > 0,
    ensures
        r == placement(
            if aspect_ratio {
                FitMode::Fit
            } else {
                FitMode::Stretch
            },
            still_w,
            still_h,
            width,
            height,
        ),
{
    if aspect_ratio {
        place_image(FitMode::Fit, still_w, still_h, width, height)
    } else {
        place_image(FitMode::Stretch, still_w, still_h, width, height)
    }
}

} // verus!
