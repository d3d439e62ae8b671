use vstd::prelude::*;
use image::AnimationDecoder;
use crate::text::{chars_of, ends_with, matches_at_exec, to_string};

verus! {

/// One pixel: red, green, blue, alpha.
pub type Rgba = (u8, u8, u8, u8);

/// The bytes of pixels, four to a pixel.
pub open spec fn raw_of(p: Seq<Rgba>) -> Seq<u8>
    decreases p.len(),
{
    if p.len() == 0 {
        Seq::empty()
    } else {
        raw_of(p.drop_last()) + seq![p.last().0, p.last().1, p.last().2, p.last().3]
    }
}

/// Pixels out of their bytes, four to a pixel.
pub open spec fn pixels_of(raw: Seq<u8>) -> Seq<Rgba> {
    Seq::new(
        raw.len() / 4,
        |i: int| (raw[4 * i], raw[4 * i + 1], raw[4 * i + 2], raw[4 * i + 3]),
    )
}

proof fn lemma_raw_of_len(p: Seq<Rgba>)
    ensures
        raw_of(p).len() == 4 * p.len(),
    decreases p.len(),
{
    if p.len() > 0 {
        lemma_raw_of_len(p.drop_last());
    }
}

/// Only the green channel of each pixel, with its alpha.
pub open spec fn green_only(p: Seq<Rgba>) -> Seq<Rgba> {
    Seq::new(p.len(), |i: int| (0u8, p[i].1, 0u8, p[i].3))
}

/// Keeps only the green channel (and alpha) of each pixel.
pub fn get_green_channel(src: &Vec<Rgba>) -> (res: Vec<Rgba>)
    ensures
        res@ == green_only(src@),
{
    let mut out: Vec<Rgba> = Vec::new();
    let mut i: usize = 0;
    while i < src.len()
        invariant
            i <= src@.len(),
            out@ == green_only(src@.take(i as int)),
        decreases src@.len() - i,
    {
        let p = src[i];
        out.push((0u8, p.1, 0u8, p.3));
        assert(out@ =~= green_only(src@.take(i + 1)));
        i += 1;
    }
    assert(src@.take(i as int) =~= src@);
    out
}

fn to_raw(p: &Vec<Rgba>) -> (res: Vec<u8>)
    ensures
        res@ == raw_of(p@),
        res@.len() == 4 * p@.len(),
{
    let mut out: Vec<u8> = Vec::new();
    let mut i: usize = 0;
    while i < p.len()
        invariant
            i <= p@.len(),
            out@ == raw_of(p@.take(i as int)),
        decreases p@.len() - i,
    {
        let x = p[i];
        out.push(x.0);
        out.push(x.1);
        out.push(x.2);
        out.push(x.3);
        assert(p@.take(i + 1).drop_last() =~= p@.take(i as int));
        assert(out@ =~= raw_of(p@.take(i + 1)));
        i += 1;
    }
    assert(p@.take(i as int) =~= p@);
    proof {
        lemma_raw_of_len(p@);
    }
    out
}

fn from_raw(raw: &Vec<u8>) -> (res: Vec<Rgba>)
    ensures
        res@ == pixels_of(raw@),
{
    let mut out: Vec<Rgba> = Vec::new();
    let n = raw.len() / 4;
    let mut i: usize = 0;
    while i < n
        invariant
            raw@.len() <= usize::MAX,
            n == raw@.len() / 4,
            i <= n,
            out@.len() == i,
            forall|k: int| 0 <= k < i ==> #[trigger] out@[k] == pixels_of(raw@)[k],
        decreases n - i,
    {
        assert(4 * i + 3 < raw@.len()) by (nonlinear_arith)
            requires
                i < n,
                n == raw@.len() / 4,
        ;
        out.push((raw[4 * i], raw[4 * i + 1], raw[4 * i + 2], raw[4 * i + 3]));
        i += 1;
    }
    assert(out@ =~= pixels_of(raw@));
    out
}

/// Whether `out` is what the image crate's hue rotation may give for an RGBA
/// image of `width` by `height` pixels with bytes `raw`, turned by `degrees`.
/// It relates the bytes to what the rotation was given; it does not say that
/// two rotations of the same image agree.
pub uninterp spec fn hue_turned(width: u32, height: u32, raw: Seq<u8>, degrees: int, out: Seq<u8>) -> bool;

/// The bytes of an RGBA image with its hue turned by `degrees`.
///
/// Trusted: calls `image::DynamicImage::huerotate` on the RGBA image and
/// takes its RGBA bytes. The colours go through floating-point cosine and
/// sine, whose last bits may differ between machines, so the contract relates
/// the result to the image and the angle by `hue_turned` and states what the
/// source shows of every outcome: the size is kept, and so is every alpha
/// byte (the matrix turns only red, green and blue).
#[verifier::external_body]
fn huerotate(width: u32, height: u32, raw: &Vec<u8>, degrees: i32) -> (res: Vec<u8>)
    requires
        raw@.len() == 4 * width * height,
    ensures
        res@.len() == raw@.len(),
        hue_turned(width, height, raw@, degrees as int, res@),
        forall|i: int| 0 <= i < raw@.len() && i % 4 == 3 ==> #[trigger] res@[i] == raw@[i],
{
    let buf = image::RgbaImage::from_raw(width, height, raw.clone()).unwrap();
    image::DynamicImage::ImageRgba8(buf).huerotate(degrees).to_rgba8().into_raw()
}

pub open spec fn sat_add(a: u8, b: u8) -> u8 {
    if a + b > 255 {
        255
    } else {
        (a + b) as u8
    }
}

/// Each colour of `o` brightened by the matching colour of `g`, alpha from `o`.
pub open spec fn brighten(o: Seq<Rgba>, g: Seq<Rgba>) -> Seq<Rgba> {
    Seq::new(
        o.len(),
        |i: int| (sat_add(o[i].0, g[i].0), sat_add(o[i].1, g[i].1), sat_add(o[i].2, g[i].2), o[i].3),
    )
}

/// Whether `q` is `p` brightened by some image of its size: every pixel
/// keeps its alpha, and no colour gets darker.
pub open spec fn brightened(p: Seq<Rgba>, q: Seq<Rgba>) -> bool {
    &&& q.len() == p.len()
    &&& forall|i: int|
        0 <= i < p.len() ==> {
            &&& (#[trigger] q[i]).3 == p[i].3
            &&& q[i].0 >= p[i].0
            &&& q[i].1 >= p[i].1
            &&& q[i].2 >= p[i].2
        }
    &&& exists|g: Seq<Rgba>| g.len() == p.len() && q == #[trigger] brighten(p, g)
}

proof fn lemma_brighten_brightened(p: Seq<Rgba>, g: Seq<Rgba>)
    requires
        g.len() == p.len(),
    ensures
        brightened(p, brighten(p, g)),
{
    let q = brighten(p, g);
    assert forall|i: int| 0 <= i < p.len() implies {
        &&& (#[trigger] q[i]).3 == p[i].3
        &&& q[i].0 >= p[i].0
        &&& q[i].1 >= p[i].1
        &&& q[i].2 >= p[i].2
    } by {}
}

/// The "john" look given the image's green channel turned in hue: each
/// colour brightened by the turned image's.
pub fn john_from_hue(p: &Vec<Rgba>, hue_raw: &Vec<u8>) -> (res: Vec<Rgba>)
    requires
        hue_raw@.len() == 4 * p@.len(),
    ensures
        res@ == brighten(p@, pixels_of(hue_raw@)),
{
    let hue = from_raw(hue_raw);
    assert(hue@.len() == p@.len());
    let mut out: Vec<Rgba> = Vec::new();
    let mut i: usize = 0;
    while i < p.len()
        invariant
            i <= p@.len(),
            hue@.len() == p@.len(),
            hue@ == pixels_of(hue_raw@),
            out@ == brighten(p@.take(i as int), hue@.take(i as int)),
        decreases p@.len() - i,
    {
        let o = p[i];
        let g = hue[i];
        out.push((o.0.saturating_add(g.0), o.1.saturating_add(g.1), o.2.saturating_add(g.2), o.3));
        assert(out@ =~= brighten(p@.take(i + 1), hue@.take(i + 1)));
        i += 1;
    }
    assert(p@.take(i as int) =~= p@);
    assert(hue@.take(i as int) =~= hue@);
    assert(out@ =~= brighten(p@, pixels_of(hue_raw@)));
    out
}

/// The "john" look of a `width` by `height` image `p`: `q` is `p`
/// brightened by its own green channel as the hue rotation turned it 75
/// degrees back.
pub open spec fn john_look(width: u32, height: u32, p: Seq<Rgba>, q: Seq<Rgba>) -> bool {
    exists|h: Seq<u8>|
        #[trigger] hue_turned(width, height, raw_of(green_only(p)), -75, h) && h.len() == 4 * p.len()
            && q == brighten(p, pixels_of(h))
}

/// Gives an image of `width` by `height` pixels the "john" look: it is
/// brightened by its own green channel turned 75 degrees back in hue. Which
/// colours that adds depends on the machine's floating point (see
/// `huerotate`); every pixel keeps its alpha and gets no darker.
pub fn john_the_image(width: u32, height: u32, p: &Vec<Rgba>) -> (res: Vec<Rgba>)
    requires
        p@.len() == width * height,
    ensures
        john_look(width, height, p@, res@),
        brightened(p@, res@),
{
    let green = get_green_channel(p);
    let raw = to_raw(&green);
    proof {
        lemma_times_four(width, height, p@.len() as int);
    }
    let hue_raw = huerotate(width, height, &raw, -75);
    let out = john_from_hue(p, &hue_raw);
    proof {
        lemma_brighten_brightened(p@, pixels_of(hue_raw@));
        assert(hue_turned(width, height, raw_of(green_only(p@)), -75, hue_raw@));
    }
    out
}

/// Whether the image crate reads an image out of a file's bytes, and its
/// width and height.
pub uninterp spec fn decoded_size(bytes: Seq<u8>) -> Option<(u32, u32)>;

/// Reads an image out of a file's bytes: its width, height and RGBA bytes,
/// or the text of the error.
///
/// Trusted: calls `image::load_from_memory` and takes the image as RGBA
/// bytes. Whether that succeeds, and the size, depend on the bytes alone
/// (`decoded_size`). Which pixel bytes come out is left unsaid: the JPEG
/// decoder picks machine-specific code at run time, which rounds
/// differently. The bytes fill the size, four to a pixel, as `to_rgba8`
/// makes them.
#[verifier::external_body]
fn decode_image(bytes: &Vec<u8>) -> (res: Result<(u32, u32, Vec<u8>), String>)
    ensures
        match decoded_size(bytes@) {
            None => res is Err,
            Some(d) => res matches Ok(r) && r.0 == d.0 && r.1 == d.1 && r.2@.len() == 4 * r.0 * r.1,
        },
{
    match image::load_from_memory(bytes) {
        Ok(d) => {
            let b = d.to_rgba8();
            Ok((b.width(), b.height(), b.into_raw()))
        },
        Err(e) => Err(e.to_string()),
    }
}

/// What the image crate writes for an RGBA image as PNG, or its error's text.
pub uninterp spec fn png_bytes(width: u32, height: u32, raw: Seq<u8>) -> Result<Seq<u8>, Seq<char>>;

/// Writes an RGBA image as a PNG file.
///
/// Trusted: calls `image::DynamicImage::write_to` with `ImageFormat::Png`;
/// the contract names the result, which depends on the image alone.
#[verifier::external_body]
fn encode_png(width: u32, height: u32, raw: &Vec<u8>) -> (res: Result<Vec<u8>, String>)
    requires
        raw@.len() == 4 * width * height,
    ensures
        match png_bytes(width, height, raw@) {
            Ok(b) => res matches Ok(v) && v@ == b,
            Err(e) => res matches Err(t) && t@ == e,
        },
{
    let buf = image::RgbaImage::from_raw(width, height, raw.clone()).unwrap();
    let mut out = std::io::Cursor::new(Vec::new());
    match image::DynamicImage::ImageRgba8(buf).write_to(&mut out, image::ImageFormat::Png) {
        Ok(()) => Ok(out.into_inner()),
        Err(e) => Err(e.to_string()),
    }
}

/// One frame of an animation: left, top, delay in milliseconds as numerator
/// and denominator, width, height, RGBA bytes.
pub type RawFrame = (u32, u32, u32, u32, u32, u32, Vec<u8>);

pub type FrameView = (u32, u32, u32, u32, u32, u32, Seq<u8>);

pub open spec fn frame_view(f: RawFrame) -> FrameView {
    (f.0, f.1, f.2, f.3, f.4, f.5, f.6@)
}

/// What the image crate reads out of a GIF file: its frames, or its error's text.
pub uninterp spec fn gif_frames(bytes: Seq<u8>) -> Result<Seq<FrameView>, Seq<char>>;

/// Reads the frames of a GIF file.
///
/// Trusted: calls `GifDecoder::new` and `collect_frames` of the image crate;
/// the contract names the result, which depends on the bytes alone, and
/// states what the source shows of every delay: its denominator is not zero.
#[verifier::external_body]
fn decode_gif(bytes: &Vec<u8>) -> (res: Result<Vec<RawFrame>, String>)
    ensures
        match gif_frames(bytes@) {
            Ok(fs) => res matches Ok(v) && v@.map_values(|f: RawFrame| frame_view(f)) == fs
                && forall|i: int| 0 <= i < fs.len() ==> (#[trigger] fs[i]).3 > 0,
            Err(e) => res matches Err(t) && t@ == e,
        },
{
    let dec = image::codecs::gif::GifDecoder::new(std::io::Cursor::new(bytes.as_slice()));
    match dec.and_then(|d| d.into_frames().collect_frames()) {
        Ok(fs) => Ok(fs.into_iter().map(|f| {
            let (n, d) = f.delay().numer_denom_ms();
            (f.left(), f.top(), n, d, f.buffer().width(), f.buffer().height(), f.into_buffer().into_raw())
        }).collect()),
        Err(e) => Err(e.to_string()),
    }
}

/// What the image crate writes for frames as a GIF repeating forever, or its
/// error's text.
pub uninterp spec fn gif_bytes(frames: Seq<FrameView>) -> Result<Seq<u8>, Seq<char>>;

pub open spec fn frame_ok(f: FrameView) -> bool {
    f.6.len() == 4 * f.4 * f.5 && f.3 > 0
}

/// Writes frames as a GIF file that repeats forever.
///
/// Trusted: calls `GifEncoder::set_repeat(Repeat::Infinite)` and
/// `encode_frames` of the image crate; the contract names the result, which
/// depends on the frames alone.
#[verifier::external_body]
fn encode_gif(frames: &Vec<RawFrame>) -> (res: Result<Vec<u8>, String>)
    requires
        forall|i: int| 0 <= i < frames@.len() ==> frame_ok(#[trigger] frame_view(frames@[i])),
    ensures
        match gif_bytes(frames@.map_values(|f: RawFrame| frame_view(f))) {
            Ok(b) => res matches Ok(v) && v@ == b,
            Err(e) => res matches Err(t) && t@ == e,
        },
{
    let fs: Vec<image::Frame> = frames.iter().map(|f| image::Frame::from_parts(
        image::RgbaImage::from_raw(f.4, f.5, f.6.clone()).unwrap(), f.0, f.1,
        image::Delay::from_numer_denom_ms(f.2, f.3))).collect();
    let mut out = Vec::new();
    let mut enc = image::codecs::gif::GifEncoder::new(&mut out);
    let r = enc.set_repeat(image::codecs::gif::Repeat::Infinite).and_then(|_| enc.encode_frames(fs));
    drop(enc);
    r.map(|_| out).map_err(|e| e.to_string())
}

/// The pixels of a `width` by `height` image out of its bytes, where there
/// are enough of them (bytes beyond the image are not looked at).
pub open spec fn fitted(width: u32, height: u32, raw: Seq<u8>) -> Option<Seq<Rgba>> {
    if 4 * width * height <= raw.len() {
        Some(pixels_of(raw.take(4 * width * height)))
    } else {
        None
    }
}

/// The text of the error for an image whose bytes fall short of its size.
pub open spec fn too_short_text() -> Seq<char> {
    "Image data is shorter than its dimensions"@
}

fn fit(width: u32, height: u32, raw: &Vec<u8>) -> (res: Option<Vec<Rgba>>)
    ensures
        match fitted(width, height, raw@) {
            Some(p) => res matches Some(v) && v@ == p && v@.len() == width * height,
            None => res is None,
        },
{
    assert((width as u64) * (height as u64) <= u64::MAX) by (nonlinear_arith);
    let n: u64 = width as u64 * height as u64;
    if n > raw.len() as u64 / 4 {
        assert(4 * width * height > raw@.len()) by (nonlinear_arith)
            requires
                n == width * height,
                n > raw@.len() / 4,
        ;
        return None;
    }
    assert(4 * width * height <= raw@.len()) by (nonlinear_arith)
        requires
            n == width * height,
            n <= raw@.len() / 4,
    ;
    assert(n == width * height);
    assert(n * 4 <= raw@.len());
    assert(raw@.len() <= usize::MAX);
    let bytes: usize = (n * 4) as usize;
    assert(bytes == n * 4);
    assert(bytes == 4 * width * height) by (nonlinear_arith)
        requires
            bytes == n * 4,
            n == width * height,
    ;
    let mut t: Vec<u8> = Vec::new();
    let mut i: usize = 0;
    while i < bytes
        invariant
            bytes <= raw@.len(),
            i <= bytes,
            t@ == raw@.take(i as int),
        decreases bytes - i,
    {
        t.push(raw[i]);
        assert(t@ =~= raw@.take(i + 1));
        i += 1;
    }
    let p = from_raw(&t);
    assert(p@.len() == width * height) by (nonlinear_arith)
        requires
            p@.len() == t@.len() / 4,
            t@.len() == 4 * n,
            n == width * height,
    ;
    Some(p)
}

/// Whether `g` is frame `f` given the "john" look: same place, delay and
/// size, its pixels `f`'s brightened.
pub open spec fn frame_johned(f: FrameView, g: FrameView) -> bool {
    &&& g.0 == f.0 && g.1 == f.1 && g.2 == f.2 && g.3 == f.3 && g.4 == f.4 && g.5 == f.5
    &&& match fitted(f.4, f.5, f.6) {
        Some(p) => exists|q: Seq<Rgba>| john_look(f.4, f.5, p, q) && g.6 == #[trigger] raw_of(q),
        None => false,
    }
}

/// Whether `gs` are the frames `fs` each given the "john" look, in order.
pub open spec fn frames_johned(fs: Seq<FrameView>, gs: Seq<FrameView>) -> bool {
    &&& gs.len() == fs.len()
    &&& forall|k: int| 0 <= k < fs.len() ==> frame_johned(#[trigger] fs[k], gs[k])
}

/// Whether some frame's bytes fall short of its size.
pub open spec fn some_frame_short(fs: Seq<FrameView>) -> bool {
    exists|k: int| 0 <= k < fs.len() && #[trigger] fitted(fs[k].4, fs[k].5, fs[k].6) is None
}

/// What `/john` gives for a GIF (by its name's ending), whatever the hue
/// rotation adds: the decoder's error; the too-short error where a frame
/// falls short; else the frames, each given the "john" look, written as a
/// GIF, or the encoder's error.
pub open spec fn john_gif_outcome(bytes: Seq<u8>, res: Result<Seq<u8>, Seq<char>>) -> bool {
    match gif_frames(bytes) {
        Err(e) => res == Err::<Seq<u8>, Seq<char>>(e),
        Ok(fs) => if some_frame_short(fs) {
            res == Err::<Seq<u8>, Seq<char>>(too_short_text())
        } else {
            exists|gs: Seq<FrameView>|
                frames_johned(fs, gs) && res == #[trigger] gif_bytes(gs)
        },
    }
}

/// What `/john` gives for any other image once decoded: the image given the
/// "john" look and written as a PNG, or the encoder's error.
pub open spec fn john_png_outcome(width: u32, height: u32, p: Seq<Rgba>, res: Result<Seq<u8>, Seq<char>>) -> bool {
    exists|q: Seq<Rgba>| john_look(width, height, p, q) && res == #[trigger] png_bytes(width, height, raw_of(q))
}

pub open spec fn result_view(r: Result<Vec<u8>, String>) -> Result<Seq<u8>, Seq<char>> {
    match r {
        Ok(v) => Ok(v@),
        Err(e) => Err(e@),
    }
}

/// Gives a decoded `width` by `height` image the "john" look and writes it
/// as a PNG.
pub fn john_png(width: u32, height: u32, p: &Vec<Rgba>) -> (res: Result<Vec<u8>, String>)
    requires
        p@.len() == width * height,
    ensures
        john_png_outcome(width, height, p@, result_view(res)),
{
    let j = john_the_image(width, height, p);
    let out = to_raw(&j);
    proof {
        lemma_times_four(width, height, p@.len() as int);
    }
    let r = encode_png(width, height, &out);
    proof {
        assert(result_view(r) == png_bytes(width, height, raw_of(j@)));
    }
    r
}

/// Gives an uploaded image the "john" look: a GIF (by its name's ending)
/// frame by frame into a GIF, anything else into a PNG of the decoded size.
/// Where the file cannot be read, an error comes back (for a GIF, the
/// decoder's own).
pub fn john(bytes: &Vec<u8>, filename: &str) -> (res: Result<Vec<u8>, String>)
    ensures
        ends_with(filename@, "gif"@) ==> john_gif_outcome(bytes@, result_view(res)),
        !ends_with(filename@, "gif"@) ==> match decoded_size(bytes@) {
            None => res is Err,
            Some(d) => exists|p: Seq<Rgba>|
                p.len() == d.0 * d.1 && #[trigger] john_png_outcome(d.0, d.1, p, result_view(res)),
        },
{
    let name = chars_of(filename);
    let gif = chars_of("gif");
    let is_gif = name.len() >= gif.len() && matches_at_exec(&name, &gif, name.len() - gif.len());
    if is_gif {
        let frames = match decode_gif(bytes) {
            Err(e) => return Err(e),
            Ok(f) => f,
        };
        let ghost fv = frames@.map_values(|f: RawFrame| frame_view(f));
        assert(gif_frames(bytes@) == Ok::<Seq<FrameView>, Seq<char>>(fv));
        let mut out: Vec<RawFrame> = Vec::new();
        let mut i: usize = 0;
        while i < frames.len()
            invariant
                i <= frames@.len(),
                fv == frames@.map_values(|f: RawFrame| frame_view(f)),
                gif_frames(bytes@) == Ok::<Seq<FrameView>, Seq<char>>(fv),
                ends_with(filename@, "gif"@),
                forall|k: int| 0 <= k < fv.len() ==> (#[trigger] fv[k]).3 > 0,
                forall|k: int| 0 <= k < i ==> (#[trigger] fitted(fv[k].4, fv[k].5, fv[k].6)) is Some,
                frames_johned(fv.take(i as int), out@.map_values(|f: RawFrame| frame_view(f))),
                forall|k: int| 0 <= k < out@.len() ==> frame_ok(#[trigger] frame_view(out@[k])),
            decreases frames@.len() - i,
        {
            let f = &frames[i];
            assert(frame_view(*f) == fv[i as int]);
            match fit(f.4, f.5, &f.6) {
                None => {
                    proof {
                        assert(fitted(fv[i as int].4, fv[i as int].5, fv[i as int].6) is None);
                        assert(some_frame_short(fv));
                        reveal_strlit("Image data is shorter than its dimensions");
                    }
                    return Err(to_string(&chars_of("Image data is shorter than its dimensions")));
                },
                Some(p) => {
                    let j = john_the_image(f.4, f.5, &p);
                    let raw = to_raw(&j);
                    proof {
                        lemma_times_four(f.4, f.5, p@.len() as int);
                    }
                    let nf: RawFrame = (f.0, f.1, f.2, f.3, f.4, f.5, raw);
                    assert(frame_ok(frame_view(nf)));
                    let ghost before = out@.map_values(|f: RawFrame| frame_view(f));
                    proof {
                        assert(john_look(f.4, f.5, p@, j@) && frame_view(nf).6 == raw_of(j@));
                        assert(frame_johned(fv[i as int], frame_view(nf)));
                    }
                    out.push(nf);
                    proof {
                        let after = out@.map_values(|f: RawFrame| frame_view(f));
                        assert(after =~= before.push(frame_view(nf)));
                        let ft = fv.take(i + 1);
                        assert forall|k: int| 0 <= k < ft.len() implies frame_johned(
                            #[trigger] ft[k],
                            after[k],
                        ) by {
                            if k < i {
                                assert(ft[k] == fv.take(i as int)[k]);
                                assert(after[k] == before[k]);
                            }
                        }
                    }
                },
            }
            i += 1;
        }
        assert(fv.take(frames@.len() as int) =~= fv);
        proof {
            if some_frame_short(fv) {
                let k = choose|k: int| 0 <= k < fv.len() && #[trigger] fitted(fv[k].4, fv[k].5, fv[k].6) is None;
                assert(fitted(fv[k].4, fv[k].5, fv[k].6) is Some);
            }
        }
        let r = encode_gif(&out);
        proof {
            let gs = out@.map_values(|f: RawFrame| frame_view(f));
            assert(result_view(r) == gif_bytes(gs));
            assert(frames_johned(fv, gs));
        }
        r
    } else {
        let (w, h, raw) = match decode_image(bytes) {
            Err(e) => return Err(e),
            Ok(d) => d,
        };
        match fit(w, h, &raw) {
            None => Err(to_string(&chars_of("Image data is shorter than its dimensions"))),
            Some(p) => {
                let r = john_png(w, h, &p);
                proof {
                    assert(john_png_outcome(w, h, p@, result_view(r)));
                }
                r
            },
        }
    }
}

proof fn lemma_times_four(width: u32, height: u32, n: int)
    requires
        n == width * height,
    ensures
        4 * n == 4 * width * height,
{
    assert(4 * n == 4 * width * height) by (nonlinear_arith)
        requires
            n == width * height,
    ;
}

} // verus!
