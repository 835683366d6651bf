//! The frames of an animated GIF: the slides decoded from their PNG files,
//! each centred on a white canvas of the largest width and height, with its
//! delay in centiseconds.
use vstd::prelude::*;

use crate::text::{decimal, from_chars, push_decimal, push_str, to_chars};

verus! {

/// A decoded image: width and height in pixels, and its RGBA bytes row by
/// row, four per pixel.
pub struct RgbaFrame {
    pub width: u32,
    pub height: u32,
    pub pixels: Vec<u8>,
}

/// A decoded image as plain values.
pub struct FrameV {
    pub width: u32,
    pub height: u32,
    pub pixels: Seq<u8>,
}

impl View for RgbaFrame {
    type V = FrameV;

    open spec fn view(&self) -> FrameV {
        FrameV { width: self.width, height: self.height, pixels: self.pixels@ }
    }
}

/// The plain values of each frame.
pub open spec fn frame_views(fs: Seq<RgbaFrame>) -> Seq<FrameV> {
    fs.map_values(|f: RgbaFrame| f@)
}

/// The pixel bytes hold exactly the four channels of every pixel.
pub open spec fn frame_ok(f: FrameV) -> bool {
    f.pixels.len() == 4 * f.width * f.height
}

/// One frame of the GIF: canvas pixels and display time in centiseconds.
pub struct GifFrame {
    pub pixels: Vec<u8>,
    pub delay_cs: u16,
}

/// What the GIF holds: its size and its frames.
pub struct AnimatedGif {
    pub width: u32,
    pub height: u32,
    pub frames: Vec<GifFrame>,
}

/// Why no GIF could be made.
#[derive(Debug)]
pub enum GifError {
    NoFrames,
    DelayCount { frames: u64, delays: u64 },
}

/// The message of a GIF error.
pub open spec fn gif_error_text(e: GifError) -> Seq<char> {
    match e {
        GifError::NoFrames => "No PNG frames provided for GIF"@,
        GifError::DelayCount { frames, delays } => "build_animated_gif: "@ + decimal(frames as nat) + " paths but "@
            + decimal(delays as nat) + " delays"@,
    }
}

impl GifError {
    /// The error's message.
    pub fn message(&self) -> (m: String)
        ensures
            m@ == gif_error_text(*self),
    {
        let mut out: Vec<char> = Vec::new();
        match self {
            GifError::NoFrames => push_str(&mut out, "No PNG frames provided for GIF"),
            GifError::DelayCount { frames, delays } => {
                push_str(&mut out, "build_animated_gif: ");
                push_decimal(&mut out, *frames);
                push_str(&mut out, " paths but ");
                push_decimal(&mut out, *delays);
                push_str(&mut out, " delays");
            },
        }
        from_chars(&out)
    }
}

/// The largest width among the frames.
pub open spec fn max_width(fs: Seq<FrameV>) -> nat
    decreases fs.len(),
{
    if fs.len() == 0 {
        0
    } else {
        let m = max_width(fs.drop_last());
        if fs.last().width > m {
            fs.last().width as nat
        } else {
            m
        }
    }
}

/// The largest height among the frames.
pub open spec fn max_height(fs: Seq<FrameV>) -> nat
    decreases fs.len(),
{
    if fs.len() == 0 {
        0
    } else {
        let m = max_height(fs.drop_last());
        if fs.last().height > m {
            fs.last().height as nat
        } else {
            m
        }
    }
}

/// The four bytes of canvas pixel (x, y) when frame `f` is centred on a
/// white canvas `w` wide and `h` high.
pub open spec fn canvas_pixel(f: FrameV, w: int, h: int, x: int, y: int) -> Seq<u8> {
    let xo = (w - f.width) / 2;
    let yo = (h - f.height) / 2;
    if xo <= x < xo + f.width && yo <= y < yo + f.height {
        let k = ((y - yo) * f.width + (x - xo)) * 4;
        f.pixels.subrange(k, k + 4)
    } else {
        seq![255u8, 255u8, 255u8, 255u8]
    }
}

/// The first `n` pixels of canvas row `y`.
pub open spec fn canvas_row(f: FrameV, w: int, h: int, y: int, n: int) -> Seq<u8>
    decreases n,
{
    if n <= 0 {
        Seq::empty()
    } else {
        canvas_row(f, w, h, y, n - 1) + canvas_pixel(f, w, h, n - 1, y)
    }
}

/// The first `m` rows of the canvas.
pub open spec fn canvas_rows(f: FrameV, w: int, h: int, m: int) -> Seq<u8>
    decreases m,
{
    if m <= 0 {
        Seq::empty()
    } else {
        canvas_rows(f, w, h, m - 1) + canvas_row(f, w, h, m - 1, w)
    }
}

/// Frame `f` centred, not stretched, on a white canvas `w` by `h`.
pub open spec fn canvas(f: FrameV, w: int, h: int) -> Seq<u8> {
    canvas_rows(f, w, h, h)
}

proof fn lemma_canvas_row_len(f: FrameV, w: int, h: int, y: int, n: int)
    requires
        frame_ok(f),
        n >= 0,
    ensures
        canvas_row(f, w, h, y, n).len() == 4 * n,
    decreases n,
{
    if n > 0 {
        lemma_canvas_row_len(f, w, h, y, n - 1);
        let xo = (w - f.width) / 2;
        let yo = (h - f.height) / 2;
        let x = n - 1;
        if xo <= x < xo + f.width && yo <= y < yo + f.height {
            lemma_pixel_index(f.width as int, f.height as int, x - xo, y - yo);
        }
    }
}

proof fn lemma_pixel_index(iw: int, ih: int, xx: int, yy: int)
    requires
        0 <= xx < iw,
        0 <= yy < ih,
    ensures
        0 <= (yy * iw + xx) * 4,
        (yy * iw + xx) * 4 + 4 <= 4 * iw * ih,
{
    assert((yy * iw + xx) * 4 + 4 <= 4 * iw * ih) by (nonlinear_arith)
        requires
            0 <= xx < iw,
            0 <= yy < ih,
    ;
    assert(0 <= (yy * iw + xx) * 4) by (nonlinear_arith)
        requires
            0 <= xx < iw,
            0 <= yy < ih,
    ;
}

proof fn lemma_canvas_rows_len(f: FrameV, w: int, h: int, m: int)
    requires
        frame_ok(f),
        m >= 0,
        w >= 0,
    ensures
        canvas_rows(f, w, h, m).len() == 4 * w * m,
    decreases m,
{
    if m > 0 {
        lemma_canvas_rows_len(f, w, h, m - 1);
        lemma_canvas_row_len(f, w, h, m - 1, w);
        assert(canvas_rows(f, w, h, m) == canvas_rows(f, w, h, m - 1) + canvas_row(f, w, h, m - 1, w));
        assert(4 * w * (m - 1) + 4 * w == 4 * w * m) by (nonlinear_arith);
    } else {
        assert(4 * w * 0 == 0);
    }
}

/// Every canvas holds exactly the four channels of each of its pixels.
pub proof fn lemma_canvas_len(f: FrameV, w: int, h: int)
    requires
        frame_ok(f),
        w >= 0,
        h >= 0,
    ensures
        canvas(f, w, h).len() == 4 * w * h,
{
    lemma_canvas_rows_len(f, w, h, h);
}

proof fn lemma_full_row(f: FrameV, y: int, n: int)
    requires
        frame_ok(f),
        0 <= y < f.height,
        0 <= n <= f.width,
    ensures
        canvas_row(f, f.width as int, f.height as int, y, n) == f.pixels.subrange(
            4 * (y * f.width),
            4 * (y * f.width + n),
        ),
    decreases n,
{
    let w = f.width as int;
    let h = f.height as int;
    if n == 0 {
        assert(4 * (y * w) <= 4 * w * h) by (nonlinear_arith)
            requires
                0 <= y < h,
                w >= 0,
        ;
        assert(0 <= 4 * (y * w)) by (nonlinear_arith)
            requires
                0 <= y,
                w >= 0,
        ;
        assert(f.pixels.subrange(4 * (y * w), 4 * (y * w)) =~= Seq::<u8>::empty());
    } else {
        lemma_full_row(f, y, n - 1);
        lemma_pixel_index(w, h, n - 1, y);
        assert((y * w + (n - 1)) * 4 == 4 * (y * w + n - 1)) by (nonlinear_arith);
        assert(f.pixels.subrange(4 * (y * w), 4 * (y * w + n - 1)) + f.pixels.subrange(
            4 * (y * w + n - 1),
            4 * (y * w + n - 1) + 4,
        ) =~= f.pixels.subrange(4 * (y * w), 4 * (y * w + n)));
    }
}

proof fn lemma_full_rows(f: FrameV, m: int)
    requires
        frame_ok(f),
        0 <= m <= f.height,
    ensures
        canvas_rows(f, f.width as int, f.height as int, m) == f.pixels.take(4 * (m * f.width)),
    decreases m,
{
    let w = f.width as int;
    let h = f.height as int;
    if m == 0 {
        assert(4 * (0 * w) == 0);
        assert(f.pixels.take(0) =~= Seq::<u8>::empty());
    } else {
        lemma_full_rows(f, m - 1);
        lemma_full_row(f, m - 1, w);
        let a = 4 * ((m - 1) * w);
        let b = 4 * ((m - 1) * w + w);
        assert(4 * ((m - 1) * w + w) == 4 * (m * w)) by (nonlinear_arith);
        assert(4 * (m * w) <= 4 * w * h) by (nonlinear_arith)
            requires
                m <= h,
                w >= 0,
        ;
        assert(0 <= 4 * ((m - 1) * w)) by (nonlinear_arith)
            requires
                m >= 1,
                w >= 0,
        ;
        assert(a <= b);
        assert(canvas_rows(f, w, h, m) == canvas_rows(f, w, h, m - 1) + canvas_row(f, w, h, m - 1, w));
        assert(f.pixels.take(a) + f.pixels.subrange(a, b) =~= f.pixels.take(b));
    }
}

/// A frame as large as the canvas is left exactly as it is.
pub proof fn lemma_full_size_frame_unchanged(f: FrameV)
    requires
        frame_ok(f),
    ensures
        canvas(f, f.width as int, f.height as int) == f.pixels,
{
    lemma_full_rows(f, f.height as int);
    assert(4 * (f.height * f.width) == 4 * f.width * f.height) by (nonlinear_arith);
    assert(f.pixels.take(4 * (f.height * f.width)) =~= f.pixels);
}

/// Frame `f` centred on a white canvas `w` by `h`.
pub fn center_on_canvas(f: &RgbaFrame, w: u32, h: u32) -> (r: Vec<u8>)
    requires
        frame_ok(f@),
        f.width <= w,
        f.height <= h,
    ensures
        r@ == canvas(f@, w as int, h as int),
{
    let xo: u32 = (w - f.width) / 2;
    let yo: u32 = (h - f.height) / 2;
    let mut out: Vec<u8> = Vec::new();
    let mut y: u32 = 0;
    while y < h
        invariant
            frame_ok(f@),
            f.width <= w,
            f.height <= h,
            xo == (w - f.width) / 2,
            yo == (h - f.height) / 2,
            y <= h,
            out@ == canvas_rows(f@, w as int, h as int, y as int),
        decreases h - y,
    {
        let mut x: u32 = 0;
        while x < w
            invariant
                frame_ok(f@),
                f.width <= w,
                f.height <= h,
                xo == (w - f.width) / 2,
                yo == (h - f.height) / 2,
                y < h,
                x <= w,
                out@ == canvas_rows(f@, w as int, h as int, y as int) + canvas_row(f@, w as int, h as int, y as int, x as int),
            decreases w - x,
        {
            let ghost before = out@;
            if xo <= x && x - xo < f.width && yo <= y && y - yo < f.height {
                let xx = (x - xo) as usize;
                let yy = (y - yo) as usize;
                let iw = f.width as usize;
                let plen = f.pixels.len();
                proof {
                    lemma_pixel_index(f.width as int, f.height as int, xx as int, yy as int);
                    assert(0 <= yy * iw) by (nonlinear_arith);
                    assert((yy * iw + xx) * 4 + 4 <= plen);
                }
                let k: usize = (yy * iw + xx) * 4;
                out.push(f.pixels[k]);
                out.push(f.pixels[k + 1]);
                out.push(f.pixels[k + 2]);
                out.push(f.pixels[k + 3]);
                assert(out@ =~= before + f.pixels@.subrange(k as int, k + 4));
            } else {
                out.push(255u8);
                out.push(255u8);
                out.push(255u8);
                out.push(255u8);
                assert(out@ =~= before + seq![255u8, 255u8, 255u8, 255u8]);
            }
            x += 1;
        }
        y += 1;
    }
    out
}

/// The display time of a frame: its delay in milliseconds rounded to the
/// nearest centisecond (halves up), truncated to 16 bits as the GIF format
/// stores it.
pub open spec fn delay_centiseconds(ms: u32) -> u16 {
    ((ms + 5) / 10) as u16
}

/// The largest width and height among the frames.
fn canvas_size(frames: &Vec<RgbaFrame>) -> (r: (u32, u32))
    ensures
        r.0 == max_width(frame_views(frames@)),
        r.1 == max_height(frame_views(frames@)),
{
    let ghost fv = frame_views(frames@);
    let mut w: u32 = 0;
    let mut h: u32 = 0;
    let n = frames.len();
    for i in 0..n
        invariant
            n == frames@.len(),
            fv == frame_views(frames@),
            w == max_width(fv.take(i as int)),
            h == max_height(fv.take(i as int)),
    {
        assert(fv.take(i + 1).drop_last() =~= fv.take(i as int));
        if frames[i].width > w {
            w = frames[i].width;
        }
        if frames[i].height > h {
            h = frames[i].height;
        }
    }
    assert(fv.take(n as int) =~= fv);
    (w, h)
}

proof fn lemma_max_bounds(fs: Seq<FrameV>, i: int)
    requires
        0 <= i < fs.len(),
    ensures
        fs[i].width <= max_width(fs),
        fs[i].height <= max_height(fs),
    decreases fs.len(),
{
    if i < fs.len() - 1 {
        lemma_max_bounds(fs.drop_last(), i);
    }
}

/// Check the counts of frames and delays before any frame is loaded: there
/// is at least one frame, and one delay for each.
pub fn check_frame_count(frames: usize, delays: usize) -> (r: Result<(), GifError>)
    ensures
        frames == 0 ==> r matches Err(GifError::NoFrames),
        frames > 0 && delays != frames ==> (r matches Err(GifError::DelayCount { frames: nf, delays: nd }) && nf
            == frames && nd == delays),
        frames > 0 && delays == frames ==> r is Ok,
{
    if frames == 0 {
        return Err(GifError::NoFrames);
    }
    if delays != frames {
        return Err(GifError::DelayCount { frames: frames as u64, delays: delays as u64 });
    }
    Ok(())
}

/// The GIF laid out from the slides `fs` and their delays: the canvas has
/// the largest width and height, and each frame is its slide centred on it,
/// shown for its delay in whole centiseconds.
pub open spec fn laid_out(g: AnimatedGif, fs: Seq<FrameV>, delays_ms: Seq<u32>) -> bool {
    &&& g.width == max_width(fs)
    &&& g.height == max_height(fs)
    &&& g.frames@.len() == fs.len()
    &&& forall|i: int|
        0 <= i < fs.len() ==> (#[trigger] g.frames@[i]).pixels@ == canvas(fs[i], g.width as int, g.height as int)
            && g.frames@[i].delay_cs == delay_centiseconds(delays_ms[i])
}

/// Lay out the frames of an animated GIF from decoded images and per-frame
/// delays in milliseconds. All frames go on a white canvas of the largest
/// width and height; a smaller frame is centred rather than stretched, so
/// aspect ratios are kept. Each delay is rounded to whole centiseconds.
pub fn lay_out_gif(frames: &Vec<RgbaFrame>, delays_ms: &Vec<u32>) -> (r: Result<AnimatedGif, GifError>)
    requires
        forall|i: int| 0 <= i < frames@.len() ==> frame_ok(#[trigger] frames@[i]@),
    ensures
        frames@.len() == 0 ==> r matches Err(GifError::NoFrames),
        frames@.len() > 0 && delays_ms@.len() != frames@.len() ==> (r matches Err(
            GifError::DelayCount { frames: nf, delays: nd },
        ) && nf == frames@.len() && nd == delays_ms@.len()),
        frames@.len() > 0 && delays_ms@.len() == frames@.len() ==> (r matches Ok(g) && laid_out(
            g,
            frame_views(frames@),
            delays_ms@,
        )),
{
    let n = frames.len();
    if let Err(e) = check_frame_count(n, delays_ms.len()) {
        return Err(e);
    }
    let (w, h) = canvas_size(frames);
    let mut out: Vec<GifFrame> = Vec::new();
    for i in 0..n
        invariant
            n == frames@.len(),
            n == delays_ms@.len(),
            w == max_width(frame_views(frames@)),
            h == max_height(frame_views(frames@)),
            forall|j: int| 0 <= j < frames@.len() ==> frame_ok(#[trigger] frames@[j]@),
            out@.len() == i,
            forall|j: int|
                0 <= j < i ==> (#[trigger] out@[j]).pixels@ == canvas(frames@[j]@, w as int, h as int)
                    && out@[j].delay_cs == delay_centiseconds(delays_ms@[j]),
    {
        proof {
            lemma_max_bounds(frame_views(frames@), i as int);
            assert(frame_views(frames@)[i as int] == frames@[i as int]@);
        }
        let pixels = center_on_canvas(&frames[i], w, h);
        let delay_cs = ((delays_ms[i] as u64 + 5) / 10) as u16;
        out.push(GifFrame { pixels, delay_cs });
    }
    Ok(AnimatedGif { width: w, height: h, frames: out })
}

// ---------------------------------------------------------------------------
// Decoding the slides.

/// What the image crate's PNG decoder makes of the bytes of a file, as
/// `image::load_from_memory_with_format` with `ImageFormat::Png`, converted
/// to 8-bit RGBA: width, height and pixel bytes, or the decoder's error
/// message.
pub uninterp spec fn rgba_decoding(bytes: Seq<u8>) -> Result<(u32, u32, Seq<u8>), Seq<char>>;

/// A decoding result as plain values.
pub open spec fn decoding_view(r: Result<(u32, u32, Vec<u8>), String>) -> Result<(u32, u32, Seq<u8>), Seq<char>> {
    match r {
        Ok((w, h, p)) => Ok((w, h, p@)),
        Err(e) => Err(e@),
    }
}

/// Decodes a PNG file held in memory with
/// `image::load_from_memory_with_format(.., ImageFormat::Png)` and converts it
/// with `to_rgba8`. With the format given, no format-guessing or decoding
/// hook registered in the process is consulted, so the result, pixels or the
/// error's text, is named `rgba_decoding` of the bytes; nothing is stated of
/// its length.
#[verifier::external_body]
fn decode_rgba(bytes: &Vec<u8>) -> (r: Result<(u32, u32, Vec<u8>), String>)
    ensures
        decoding_view(r) == rgba_decoding(bytes@),
{
    match image::load_from_memory_with_format(bytes.as_slice(), image::ImageFormat::Png) {
        Ok(img) => {
            let rgba = img.to_rgba8();
            Ok((rgba.width(), rgba.height(), rgba.into_raw()))
        },
        Err(e) => Err(e.to_string()),
    }
}

/// The width and height of a PNG file held in memory, as the decoder reads
/// them, or the decoder's error message.
pub fn image_dimensions(bytes: &Vec<u8>) -> (r: Result<(u32, u32), String>)
    ensures
        match rgba_decoding(bytes@) {
            Ok((w, h, _)) => r == Ok::<(u32, u32), String>((w, h)),
            Err(e) => r matches Err(m) && m@ == e,
        },
{
    match decode_rgba(bytes) {
        Ok((w, h, _)) => Ok((w, h)),
        Err(e) => Err(e),
    }
}

/// One slide decoded for the GIF, or the message naming it: a decoder
/// error, or pixel bytes that are not four per pixel.
pub open spec fn frame_decoding(bytes: Seq<u8>, name: Seq<char>) -> Result<FrameV, Seq<char>> {
    match rgba_decoding(bytes) {
        Ok((w, h, p)) => if p.len() == 4 * w * h {
            Ok(FrameV { width: w, height: h, pixels: p })
        } else {
            Err("Failed to load "@ + name + ": decoded pixels do not match the image size"@)
        },
        Err(e) => Err("Failed to load "@ + name + ": "@ + e),
    }
}

/// The slides decoded in order, or the message of the first that fails.
pub open spec fn frames_decoding(files: Seq<Seq<u8>>, names: Seq<Seq<char>>) -> Result<Seq<FrameV>, Seq<char>>
    decreases files.len(),
{
    if files.len() == 0 {
        Ok(Seq::empty())
    } else {
        let n = files.len() - 1;
        match frames_decoding(files.take(n), names.take(n)) {
            Err(m) => Err(m),
            Ok(fs) => match frame_decoding(files[n], names[n]) {
                Err(m) => Err(m),
                Ok(f) => Ok(fs.push(f)),
            },
        }
    }
}

/// The bytes of each file.
pub open spec fn byte_seqs(files: Seq<Vec<u8>>) -> Seq<Seq<u8>> {
    files.map_values(|f: Vec<u8>| f@)
}

/// The text of each name.
pub open spec fn name_seqs(names: Seq<String>) -> Seq<Seq<char>> {
    names.map_values(|n: String| n@)
}

/// Decode the slides, given as the bytes of PNG files; `names` name them in
/// messages.
pub fn decode_frames(files: &Vec<Vec<u8>>, names: &Vec<String>) -> (r: Result<Vec<RgbaFrame>, String>)
    requires
        files@.len() == names@.len(),
    ensures
        match frames_decoding(byte_seqs(files@), name_seqs(names@)) {
            Ok(fs) => r matches Ok(v) && v@.len() == fs.len() && forall|i: int|
                0 <= i < fs.len() ==> (#[trigger] v@[i])@ == fs[i],
            Err(m) => r matches Err(e) && e@ == m,
        },
{
    let ghost fv = byte_seqs(files@);
    let ghost nv = name_seqs(names@);
    let n = files.len();
    let mut out: Vec<RgbaFrame> = Vec::new();
    for i in 0..n
        invariant
            n == files@.len(),
            n == names@.len(),
            fv == byte_seqs(files@),
            nv == name_seqs(names@),
            frames_decoding(fv.take(i as int), nv.take(i as int)) matches Ok(fs) && out@.len() == fs.len()
                && forall|j: int| 0 <= j < fs.len() ==> (#[trigger] out@[j])@ == fs[j],
    {
        assert(fv.take(i + 1).take(i as int) =~= fv.take(i as int));
        assert(nv.take(i + 1).take(i as int) =~= nv.take(i as int));
        assert(fv[i as int] == files@[i as int]@);
        assert(nv[i as int] == names@[i as int]@);
        assert(fv.take(i + 1)[i as int] == files@[i as int]@);
        assert(nv.take(i + 1)[i as int] == names@[i as int]@);
        let decoded = decode_rgba(&files[i]);
        match decoded {
            Err(e) => {
                let mut m = to_chars("Failed to load ");
                push_str(&mut m, names[i].as_str());
                push_str(&mut m, ": ");
                push_str(&mut m, e.as_str());
                proof {
                    lemma_frames_decoding_stops(fv, nv, i as int);
                }
                return Err(from_chars(&m));
            },
            Ok((w, h, pixels)) => {
                assert((w as int) * (h as int) < 0x1_0000_0000_0000_0000) by (nonlinear_arith)
                    requires
                        w <= u32::MAX,
                        h <= u32::MAX,
                ;
                let area: u128 = (w as u128) * (h as u128);
                assert(4 * w * h == 4 * area) by (nonlinear_arith)
                    requires
                        area == w * h,
                ;
                assert(rgba_decoding(fv[i as int]) == Ok::<(u32, u32, Seq<u8>), Seq<char>>((w, h, pixels@)));
                if pixels.len() as u128 != 4 * area {
                    let mut m = to_chars("Failed to load ");
                    push_str(&mut m, names[i].as_str());
                    push_str(&mut m, ": decoded pixels do not match the image size");
                    proof {
                        lemma_frames_decoding_stops(fv, nv, i as int);
                    }
                    return Err(from_chars(&m));
                }
                out.push(RgbaFrame { width: w, height: h, pixels });
            },
        }
    }
    assert(fv.take(n as int) =~= fv);
    assert(nv.take(n as int) =~= nv);
    Ok(out)
}

/// Once a slide fails to decode, the decoding of any longer prefix fails
/// with its message.
proof fn lemma_frames_decoding_stops(fv: Seq<Seq<u8>>, nv: Seq<Seq<char>>, i: int)
    requires
        0 <= i < fv.len(),
        fv.len() == nv.len(),
        frames_decoding(fv.take(i), nv.take(i)) is Ok,
        frame_decoding(fv[i], nv[i]) is Err,
    ensures
        match frame_decoding(fv[i], nv[i]) {
            Err(m) => frames_decoding(fv, nv) == Err::<Seq<FrameV>, Seq<char>>(m),
            Ok(_) => true,
        },
{
    assert(fv.take(i + 1).take(i) =~= fv.take(i));
    assert(nv.take(i + 1).take(i) =~= nv.take(i));
    if i + 1 < fv.len() {
        lemma_prefix_error(fv, nv, i + 1, fv.len() as int);
    } else {
        assert(fv.take(i + 1) =~= fv);
        assert(nv.take(i + 1) =~= nv);
    }
    assert(fv.take(fv.len() as int) =~= fv);
    assert(nv.take(nv.len() as int) =~= nv);
}

/// A failure of a prefix is the failure of every longer prefix.
proof fn lemma_prefix_error(fv: Seq<Seq<u8>>, nv: Seq<Seq<char>>, k: int, m: int)
    requires
        0 < k <= m <= fv.len(),
        fv.len() == nv.len(),
        frames_decoding(fv.take(k), nv.take(k)) is Err,
    ensures
        frames_decoding(fv.take(m), nv.take(m)) == frames_decoding(fv.take(k), nv.take(k)),
    decreases m - k,
{
    if m > k {
        lemma_prefix_error(fv, nv, k, m - 1);
        assert(fv.take(m).take(m - 1) =~= fv.take(m - 1));
        assert(nv.take(m).take(m - 1) =~= nv.take(m - 1));
    }
}

/// Every slide that decodes holds four bytes per pixel, and there is one
/// decoded slide per file.
proof fn lemma_decoded_frames_ok(fv: Seq<Seq<u8>>, nv: Seq<Seq<char>>)
    requires
        frames_decoding(fv, nv) is Ok,
    ensures
        frames_decoding(fv, nv)->Ok_0.len() == fv.len(),
        forall|i: int|
            0 <= i < fv.len() ==> frame_ok(#[trigger] frames_decoding(fv, nv)->Ok_0[i]),
    decreases fv.len(),
{
    if fv.len() > 0 {
        let n = fv.len() - 1;
        lemma_decoded_frames_ok(fv.take(n), nv.take(n));
    }
}

/// Build the frames of an animated GIF from PNG files, given as their bytes
/// with `names` to name them in messages, and one delay in milliseconds per
/// file. There must be at least one file and one delay for each (checked
/// before anything is decoded), and every file must decode; the slides are
/// then laid out on a common white canvas as `lay_out_gif` does.
pub fn build_animated_gif(files: &Vec<Vec<u8>>, names: &Vec<String>, delays_ms: &Vec<u32>) -> (r: Result<
    AnimatedGif,
    String,
>)
    requires
        files@.len() == names@.len(),
    ensures
        files@.len() == 0 ==> (r matches Err(m) && m@ == gif_error_text(GifError::NoFrames)),
        files@.len() > 0 && delays_ms@.len() != files@.len() ==> (r matches Err(m) && m@ == gif_error_text(
            GifError::DelayCount { frames: files@.len() as u64, delays: delays_ms@.len() as u64 },
        )),
        files@.len() > 0 && delays_ms@.len() == files@.len() ==> match frames_decoding(
            byte_seqs(files@),
            name_seqs(names@),
        ) {
            Err(m) => r matches Err(e) && e@ == m,
            Ok(fs) => r matches Ok(g) && laid_out(g, fs, delays_ms@),
        },
{
    if let Err(e) = check_frame_count(files.len(), delays_ms.len()) {
        return Err(e.message());
    }
    let frames = match decode_frames(files, names) {
        Ok(f) => f,
        Err(m) => return Err(m),
    };
    let ghost fs = frames_decoding(byte_seqs(files@), name_seqs(names@))->Ok_0;
    proof {
        lemma_decoded_frames_ok(byte_seqs(files@), name_seqs(names@));
        assert(frame_views(frames@) =~= fs);
        assert forall|i: int| 0 <= i < frames@.len() implies frame_ok(#[trigger] frames@[i]@) by {
            assert(frame_views(frames@)[i] == frames@[i]@);
        }
    }
    match lay_out_gif(&frames, delays_ms) {
        Ok(g) => Ok(g),
        Err(e) => Err(e.message()),
    }
}

} // verus!
