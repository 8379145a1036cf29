//! Animated pictures: frame timing and the preparation of pixel data.

use crate::render::effects::draw_whole;
use crate::render::effects::whole_drawn;
use vstd::prelude::*;

verus! {

/// The delay of a frame that states none, in milliseconds.
pub const DEFAULT_DELAY_MS: u64 = 100;

/// The most frames that a timeline holds.
pub const MAX_FRAMES: usize = 0xffff_ffff;

/// The delay of a frame in milliseconds, from its delay in hundredths of a
/// second; a frame without delay takes 100 ms.
pub open spec fn delay_ms(delay_cs: u16) -> int {
    if delay_cs == 0 {
        100
    } else {
        delay_cs * 10
    }
}

/// When frame `i` starts within one round of the animation, in
/// milliseconds: the delays of the frames before it, added up.
pub open spec fn start_of(delays: Seq<u16>, i: int) -> int
    decreases i,
{
    if i <= 0 {
        0
    } else {
        start_of(delays, i - 1) + delay_ms(delays[i - 1])
    }
}

/// How long one round of the animation takes, in milliseconds.
pub open spec fn round_ms(delays: Seq<u16>) -> int {
    start_of(delays, delays.len() as int)
}

/// Whether frame `i` is the one on display at a time: the time within the
/// round lies between the frame's start and the start of the next.
pub open spec fn on_display(delays: Seq<u16>, i: int, elapsed_ms: u64) -> bool {
    &&& 0 <= i < delays.len()
    &&& start_of(delays, i) <= elapsed_ms as int % round_ms(delays) < start_of(delays, i)
        + delay_ms(delays[i])
}

/// Frames start one after another.
pub proof fn lemma_starts_grow(delays: Seq<u16>, i: int, j: int)
    requires
        0 <= i <= j,
    ensures
        start_of(delays, i) + 10 * (j - i) <= start_of(delays, j),
        0 <= start_of(delays, i),
        start_of(delays, j) <= 655350 * j,
    decreases j,
{
    if i < j {
        lemma_starts_grow(delays, i, j - 1);
    } else if j > 0 {
        lemma_starts_grow(delays, i - 1, j - 1);
    }
}

/// At any time at most one frame is on display.
pub proof fn lemma_one_frame_on_display(delays: Seq<u16>, i: int, j: int, elapsed_ms: u64)
    requires
        on_display(delays, i, elapsed_ms),
        on_display(delays, j, elapsed_ms),
    ensures
        i == j,
{
    if i < j {
        lemma_starts_grow(delays, i + 1, j);
    } else if j < i {
        lemma_starts_grow(delays, j + 1, i);
    }
}

/// The frame timing of an animation.
pub struct GifTimeline {
    delays: Vec<u16>,
    starts: Vec<u64>,
    total_ms: u64,
}

impl GifTimeline {
    #[verifier::type_invariant]
    closed spec fn consistent(&self) -> bool {
        &&& self.delays@.len() <= MAX_FRAMES
        &&& self.starts@.len() == self.delays@.len()
        &&& forall|i: int|
            0 <= i < self.starts@.len() ==> #[trigger] self.starts@[i] == start_of(self.delays@, i)
        &&& self.total_ms == round_ms(self.delays@)
    }

    /// The delays of the frames, in hundredths of a second.
    pub closed spec fn delays(&self) -> Seq<u16> {
        self.delays@
    }

    /// The timing of frames with the given delays, in hundredths of a
    /// second.
    pub fn new(delays_cs: Vec<u16>) -> (t: GifTimeline)
        requires
            delays_cs@.len() <= MAX_FRAMES,
        ensures
            t.delays() == delays_cs@,
    {
        let n: usize = delays_cs.len();
        let mut starts: Vec<u64> = Vec::new();
        let mut total: u64 = 0;
        let mut i: usize = 0;
        while i < n
            invariant
                i <= n,
                n == delays_cs@.len(),
                n <= MAX_FRAMES,
                starts@.len() == i,
                forall|j: int| 0 <= j < i ==> #[trigger] starts@[j] == start_of(delays_cs@, j),
                total == start_of(delays_cs@, i as int),
            decreases n - i,
        {
            proof {
                lemma_starts_grow(delays_cs@, 0, i + 1);
            }
            starts.push(total);
            let cs: u16 = delays_cs[i];
            let delay: u64 = if cs == 0 {
                DEFAULT_DELAY_MS
            } else {
                cs as u64 * 10
            };
            total = total + delay;
            i += 1;
        }
        GifTimeline { delays: delays_cs, starts, total_ms: total }
    }

    /// The number of frames.
    pub fn frame_count(&self) -> (r: usize)
        ensures
            r == self.delays().len(),
    {
        self.delays.len()
    }

    /// How long one round takes, in milliseconds.
    pub fn total_duration_ms(&self) -> (r: u64)
        ensures
            r == round_ms(self.delays()),
    {
        proof {
            use_type_invariant(self);
        }
        self.total_ms
    }

    /// The delay of a frame, in milliseconds.
    pub fn frame_delay_ms(&self, i: usize) -> (r: u64)
        requires
            i < self.delays().len(),
        ensures
            r == delay_ms(self.delays()[i as int]),
    {
        let cs: u16 = self.delays[i];
        if cs == 0 {
            DEFAULT_DELAY_MS
        } else {
            cs as u64 * 10
        }
    }

    /// The frame on display at a time; none where there are no frames.
    pub fn frame_at(&self, elapsed_ms: u64) -> (r: Option<usize>)
        ensures
            self.delays().len() == 0 ==> r is None,
            self.delays().len() > 0 ==> (r matches Some(i) && on_display(
                self.delays(),
                i as int,
                elapsed_ms,
            )),
    {
        proof {
            use_type_invariant(self);
        }
        let n: usize = self.starts.len();
        if n == 0 {
            return None;
        }
        proof {
            lemma_starts_grow(self.delays@, 0, n as int);
        }
        let t: u64 = elapsed_ms % self.total_ms;
        let mut i: usize = n - 1;
        while self.starts[i] > t
            invariant
                i < n,
                n == self.starts@.len(),
                n == self.delays@.len(),
                forall|j: int|
                    0 <= j < n ==> #[trigger] self.starts@[j] == start_of(self.delays@, j),
                t < start_of(self.delays@, i + 1),
                start_of(self.delays@, 0) == 0,
            decreases i,
        {
            i -= 1;
        }
        Some(i)
    }
}

/// Pixel data with the colours of every whole pixel multiplied by the
/// pixel's alpha.
pub open spec fn premultiplied(data: Seq<u8>) -> Seq<u8> {
    Seq::new(
        data.len(),
        |i: int|
            if i % 4 != 3 && i < data.len() - data.len() % 4 {
                ((data[i] as int * data[i - i % 4 + 3] as int) / 255) as u8
            } else {
                data[i]
            },
    )
}

/// Multiplies the colours of pixel data in RGBA order by their alpha.
pub fn premultiply(data: &mut [u8])
    ensures
        final(data)@ == premultiplied(old(data)@),
{
    let n: usize = data.len();
    let whole: usize = n - n % 4;
    let mut i: usize = 0;
    while i < whole
        invariant
            i <= whole,
            whole == n - n % 4,
            i % 4 == 0,
            data@.len() == n,
            old(data)@.len() == n,
            forall|j: int| 0 <= j < i ==> data@[j] == premultiplied(old(data)@)[j],
            forall|j: int| i <= j < n ==> data@[j] == old(data)@[j],
        decreases whole - i,
    {
        let a: u32 = data[i + 3] as u32;
        let mut k: usize = 0;
        while k < 3
            invariant
                k <= 3,
                i + 4 <= whole,
                whole == n - n % 4,
                i % 4 == 0,
                a == old(data)@[i + 3],
                data@.len() == n,
                old(data)@.len() == n,
                forall|j: int| 0 <= j < i + k ==> data@[j] == premultiplied(old(data)@)[j],
                forall|j: int| i + k <= j < n ==> data@[j] == old(data)@[j],
            decreases 3 - k,
        {
            let c: u32 = data[i + k] as u32;
            assert(c * a <= 65025 && (c * a) / 255 <= 255) by (nonlinear_arith)
                requires
                    c <= 255,
                    a <= 255,
            ;
            data[i + k] = (c * a / 255) as u8;
            k += 1;
        }
        i += 4;
    }
    assert(data@ =~= premultiplied(old(data)@));
}

/// One decoded frame of an animation: its delay in hundredths of a second,
/// where it lies on the canvas, its size and its pixels in RGBA order.
#[derive(Debug, Clone)]
pub struct RawFrame {
    pub delay_cs: u16,
    pub left: u16,
    pub top: u16,
    pub width: u16,
    pub height: u16,
    pub rgba: Vec<u8>,
}

/// An animation ready to be shown: one picture of the whole canvas for each
/// frame, and the timing of the frames.
pub struct GifData {
    frames: Vec<Vec<u8>>,
    timeline: GifTimeline,
    width: u16,
    height: u16,
}

/// The number of bytes of a picture of a given size.
pub open spec fn picture_len(width: u16, height: u16) -> int {
    4 * width * height
}

/// The picture of a frame: the whole pixels that its buffer holds, colours
/// multiplied by alpha, and transparent pixels where the buffer ends early.
pub open spec fn frame_pixels(f: RawFrame) -> Seq<u8> {
    Seq::new(
        picture_len(f.width, f.height) as nat,
        |i: int|
            if i - i % 4 + 3 < f.rgba@.len() {
                if i % 4 == 3 {
                    f.rgba@[i]
                } else {
                    ((f.rgba@[i] as int * f.rgba@[i - i % 4 + 3] as int) / 255) as u8
                }
            } else {
                0u8
            },
    )
}

/// The canvas after a frame was drawn on it at its place. A frame too large
/// to hold in memory is left out.
pub open spec fn canvas_after(canvas: Seq<u8>, width: u16, height: u16, f: RawFrame) -> Seq<u8> {
    if picture_len(f.width, f.height) <= usize::MAX {
        whole_drawn(
            frame_pixels(f),
            f.width as u32,
            f.height as u32,
            canvas,
            width as u32,
            height as u32,
            f.left as i32,
            f.top as i32,
        )
    } else {
        canvas
    }
}

/// The canvas after the first `n` frames: transparent at first, then each
/// frame drawn over what the frames before it left.
pub open spec fn canvas_at(width: u16, height: u16, frames: Seq<RawFrame>, n: int) -> Seq<u8>
    decreases n,
{
    if n <= 0 {
        Seq::new(picture_len(width, height) as nat, |i: int| 0u8)
    } else {
        canvas_after(canvas_at(width, height, frames, n - 1), width, height, frames[n - 1])
    }
}

/// The delays of frames.
pub open spec fn delays_of(frames: Seq<RawFrame>) -> Seq<u16> {
    Seq::new(frames.len(), |i: int| frames[i].delay_cs)
}

/// Whether frames on a canvas of a given size make an animation: there is
/// a frame, the canvas has pixels, and both fit the machine.
pub open spec fn animates(width: u16, height: u16, frames: Seq<RawFrame>) -> bool {
    &&& 0 < frames.len() <= MAX_FRAMES
    &&& 0 < width
    &&& 0 < height
    &&& picture_len(width, height) <= usize::MAX
}

/// The number of bytes of a picture of a given size, where it fits the
/// machine.
fn byte_len(width: u16, height: u16) -> (r: Option<usize>)
    ensures
        r matches Some(n) ==> n == picture_len(width, height),
        r is None ==> picture_len(width, height) > usize::MAX,
{
    assert(4 * width * height <= 4 * 0xffff * 0xffff) by (nonlinear_arith)
        requires
            width <= 0xffff,
            height <= 0xffff,
    ;
    let n: u64 = 4 * width as u64 * height as u64;
    if n <= usize::MAX as u64 {
        Some(n as usize)
    } else {
        None
    }
}

/// The picture of a frame.
fn frame_picture(f: &RawFrame, len: usize) -> (r: Vec<u8>)
    requires
        len == picture_len(f.width, f.height),
    ensures
        r@ == frame_pixels(*f),
{
    let mut r: Vec<u8> = vec![0u8; len];
    let have: usize = f.rgba.len();
    let mut at: usize = 0;
    while at < len && have >= 4 && at <= have - 4
        invariant
            at % 4 == 0,
            r@.len() == len,
            have == f.rgba@.len(),
            len == picture_len(f.width, f.height),
            forall|j: int| 0 <= j < at && j < len ==> r@[j] == frame_pixels(*f)[j],
            forall|j: int| at <= j < len ==> r@[j] == 0,
        decreases len - at,
    {
        assert(len == 4 * (f.width * f.height)) by (nonlinear_arith)
            requires
                len == 4 * f.width * f.height,
        ;
        let a: u32 = f.rgba[at + 3] as u32;
        let mut k: usize = 0;
        while k < 3
            invariant
                k <= 3,
                at % 4 == 0,
                at + 4 <= len,
                at + 4 <= have,
                a == f.rgba@[at + 3],
                r@.len() == len,
                have == f.rgba@.len(),
                len == picture_len(f.width, f.height),
                forall|j: int| 0 <= j < at + k ==> r@[j] == frame_pixels(*f)[j],
                forall|j: int| at + k <= j < len ==> r@[j] == 0,
            decreases 3 - k,
        {
            let c: u32 = f.rgba[at + k] as u32;
            assert(c * a <= 65025 && (c * a) / 255 <= 255) by (nonlinear_arith)
                requires
                    c <= 255,
                    a <= 255,
            ;
            r[at + k] = (c * a / 255) as u8;
            k += 1;
        }
        r[at + 3] = f.rgba[at + 3];
        at += 4;
    }
    assert(r@ =~= frame_pixels(*f));
    r
}

impl GifData {
    /// The pictures of the canvas, one for each frame.
    pub closed spec fn pictures(&self) -> Seq<Vec<u8>> {
        self.frames@
    }

    /// The timing of the frames.
    pub closed spec fn timing(&self) -> GifTimeline {
        self.timeline
    }

    /// The size of the canvas.
    pub closed spec fn size(&self) -> (u16, u16) {
        (self.width, self.height)
    }

    /// Puts the decoded frames of an animation together: each frame is
    /// drawn over what the frames before it left on the canvas, and the
    /// canvas is kept as the picture of that frame. Without frames or
    /// without canvas there is no animation.
    pub fn load_gif(width: u16, height: u16, frames: &Vec<RawFrame>) -> (r: Option<GifData>)
        ensures
            r is Some == animates(width, height, frames@),
            r matches Some(g) ==> {
                &&& g.size() == (width, height)
                &&& g.timing().delays() == delays_of(frames@)
                &&& g.pictures().len() == frames@.len()
                &&& forall|i: int|
                    0 <= i < frames@.len() ==> (#[trigger] g.pictures()[i])@ == canvas_at(
                        width,
                        height,
                        frames@,
                        i + 1,
                    )
            },
    {
        let n: usize = frames.len();
        if n == 0 || n > MAX_FRAMES || width == 0 || height == 0 {
            return None;
        }
        let len: usize = match byte_len(width, height) {
            Some(len) => len,
            None => { return None; },
        };
        let mut canvas: Vec<u8> = vec![0u8; len];
        assert(canvas@ =~= canvas_at(width, height, frames@, 0));
        let mut pictures: Vec<Vec<u8>> = Vec::new();
        let mut delays: Vec<u16> = Vec::new();
        let mut i: usize = 0;
        while i < n
            invariant
                i <= n,
                n == frames@.len(),
                len == picture_len(width, height),
                canvas@.len() == len,
                canvas@ == canvas_at(width, height, frames@, i as int),
                pictures@.len() == i,
                delays@.len() == i,
                forall|j: int| 0 <= j < i ==> delays@[j] == frames@[j].delay_cs,
                forall|j: int|
                    0 <= j < i ==> (#[trigger] pictures@[j])@ == canvas_at(
                        width,
                        height,
                        frames@,
                        j + 1,
                    ),
            decreases n - i,
        {
            let f = &frames[i];
            match byte_len(f.width, f.height) {
                Some(flen) => {
                    let picture = frame_picture(f, flen);
                    draw_whole(
                        picture.as_slice(),
                        f.width as u32,
                        f.height as u32,
                        canvas.as_mut_slice(),
                        width as u32,
                        height as u32,
                        f.left as i32,
                        f.top as i32,
                    );
                },
                None => {},
            }
            pictures.push(canvas.clone());
            delays.push(f.delay_cs);
            i += 1;
        }
        assert(delays@ =~= delays_of(frames@));
        let timeline = GifTimeline::new(delays);
        Some(GifData { frames: pictures, timeline, width, height })
    }

    /// The number of frames.
    pub fn frame_count(&self) -> (r: usize)
        ensures
            r == self.pictures().len(),
    {
        self.frames.len()
    }

    /// The picture of a frame.
    pub fn frame(&self, i: usize) -> (r: &Vec<u8>)
        requires
            i < self.pictures().len(),
        ensures
            *r == self.pictures()[i as int],
    {
        &self.frames[i]
    }

    /// The timing of the frames.
    pub fn timeline(&self) -> (r: &GifTimeline)
        ensures
            *r == self.timing(),
    {
        &self.timeline
    }

    pub fn width(&self) -> (r: u16)
        ensures
            r == self.size().0,
    {
        self.width
    }

    pub fn height(&self) -> (r: u16)
        ensures
            r == self.size().1,
    {
        self.height
    }
}

} // verus!
