//! Decoding assets into frame sequences: which decoder a format takes, and the
//! frame records that decoding produces.
use vstd::prelude::*;

use crate::models::{AssetFormat, Frame, frame_filename};
use crate::paths::{join_path, path_join};
use crate::text::{chars_end_with, chars_of, has_suffix, string_views};
use std::io::Cursor;
use vstd::string::*;

verus! {

/// Decodes assets into numbered PNG frames under a base directory.
pub struct DecoderService {
    frames_base_dir: String,
}

impl View for DecoderService {
    type V = Seq<char>;

    /// The base directory of the decoded frames.
    closed spec fn view(&self) -> Seq<char> {
        self.frames_base_dir@
    }
}

impl DecoderService {
    /// A decoder that writes under `frames_base_dir`.
    pub fn new(frames_base_dir: String) -> (d: Self)
        ensures
            d@ == frames_base_dir@,
    {
        DecoderService { frames_base_dir }
    }

    /// The base directory of the decoded frames.
    pub fn frames_base_dir(&self) -> (s: &str)
        ensures
            s@ == self@,
    {
        self.frames_base_dir.as_str()
    }
}

/// The decoder an asset format takes.
#[derive(Debug, Clone, Copy, PartialEq, Eq, Structural)]
pub enum DecodeMethod {
    /// Frames are read from the GIF itself.
    Gif,
    /// Frames are extracted by `ffmpeg` at 30 frames per second.
    Video,
    /// A still image becomes a single frame.
    StillImage,
}

/// GIFs are decoded directly, WebM, MP4 and MOV by `ffmpeg`, PNG and JPG images
/// become one frame; image sequences cannot be decoded.
pub open spec fn decode_method_spec(format: AssetFormat) -> Option<DecodeMethod> {
    match format {
        AssetFormat::Gif => Some(DecodeMethod::Gif),
        AssetFormat::Webm | AssetFormat::Mp4 | AssetFormat::Mov => Some(DecodeMethod::Video),
        AssetFormat::Png | AssetFormat::Jpg => Some(DecodeMethod::StillImage),
        AssetFormat::ImageSequence => None,
    }
}

/// The decoder an asset format takes; none when the format is not supported.
pub fn decode_method(format: AssetFormat) -> (m: Option<DecodeMethod>)
    ensures
        m == decode_method_spec(format),
{
    match format {
        AssetFormat::Gif => Some(DecodeMethod::Gif),
        AssetFormat::Webm | AssetFormat::Mp4 | AssetFormat::Mov => Some(DecodeMethod::Video),
        AssetFormat::Png | AssetFormat::Jpg => Some(DecodeMethod::StillImage),
        AssetFormat::ImageSequence => None,
    }
}

/// Where frame `index` of an asset is written: its standard name in the frame directory.
pub open spec fn frame_path_in(frame_directory: Seq<char>, index: u32) -> Seq<char> {
    path_join(frame_directory, frame_filename(index))
}

/// Where frame `index` of an asset is written.
pub fn frame_file_path(frame_directory: &str, index: u32) -> (p: String)
    ensures
        p@ == frame_path_in(frame_directory@, index),
{
    let name = Frame::filename_for_index(index);
    join_path(frame_directory, name.as_str())
}

/// `f` records frame `index` of an asset, at `timestamp_ms`, under its standard name.
pub open spec fn is_frame_record(f: Frame, asset_id: Seq<char>, index: u32, timestamp_ms: int) -> bool {
    &&& f.asset_id@ == asset_id
    &&& f.index == index
    &&& f.timestamp_ms == timestamp_ms
    &&& f.filename@ == frame_filename(index)
    &&& !f.has_annotation
}

/// The record of GIF frame `index`, shown for `delay` hundredths of a second: its
/// timestamp is that frame's own delay, in milliseconds.
pub fn gif_frame(asset_id: &str, index: u32, delay: u16) -> (f: Frame)
    ensures
        is_frame_record(f, asset_id@, index, delay as u64 * 10),
{
    Frame {
        asset_id: String::from_str(asset_id),
        index,
        timestamp_ms: delay as u64 * 10,
        filename: Frame::filename_for_index(index),
        has_annotation: false,
    }
}


// ---------------------------------------------------------------------------
// Decoding images and encoding frames
// ---------------------------------------------------------------------------

#[verifier::external_type_specification]
#[verifier::external_body]
pub struct ExGifDecodingError(gif::DecodingError);

/// One frame as the GIF decoder hands it out: its size, its delay in hundredths of a
/// second, and its pixels in RGBA.
pub struct GifFrameData {
    pub width: u16,
    pub height: u16,
    pub delay: u16,
    pub rgba: Vec<u8>,
}

impl View for GifFrameData {
    type V = (u16, u16, u16, Seq<u8>);

    open spec fn view(&self) -> (u16, u16, u16, Seq<u8>) {
        (self.width, self.height, self.delay, self.rgba@)
    }
}

/// The views of a list of GIF frames.
pub open spec fn gif_frame_views(v: Seq<GifFrameData>) -> Seq<(u16, u16, u16, Seq<u8>)> {
    v.map_values(|f: GifFrameData| f@)
}

/// The frames (width, height, delay, RGBA pixels) that the `gif` crate's
/// `read_next_frame` yields for a GIF file's bytes; none when it reports an error.
pub uninterp spec fn gif_rgba_frames(data: Seq<u8>) -> Option<Seq<(u16, u16, u16, Seq<u8>)>>;

/// `gif::DecodeOptions::read_info` with RGBA output, then `Decoder::read_next_frame`
/// until it reports no further frame (frames of zero area included): the contract
/// names the frames by the bytes alone; any error of the decoder gives no frames.
#[verifier::external_body]
fn read_gif_frames(data: &[u8]) -> (r: Result<Vec<GifFrameData>, gif::DecodingError>)
    ensures
        match r {
            Ok(v) => gif_rgba_frames(data@) == Some(gif_frame_views(v@)),
            Err(_) => gif_rgba_frames(data@) is None,
        },
{
    let mut options = gif::DecodeOptions::new();
    options.set_color_output(gif::ColorOutput::RGBA);
    let mut decoder = options.read_info(data)?;
    let mut frames = Vec::new();
    while let Some(f) = decoder.read_next_frame()? {
        frames.push(GifFrameData { width: f.width, height: f.height, delay: f.delay, rgba: f.buffer.to_vec() });
    }
    Ok(frames)
}

/// The PNG file that the `image` crate writes for an RGBA image of the given size;
/// none when it reports an error.
pub uninterp spec fn png_of_rgba(width: u32, height: u32, rgba: Seq<u8>) -> Option<Seq<u8>>;

/// The number that the four bytes of `b` from `at` on spell, most significant first.
pub open spec fn big_endian_u32(b: Seq<u8>, at: int) -> int {
    b[at] * 0x100_0000 + b[at + 1] * 0x1_0000 + b[at + 2] * 0x100 + b[at + 3]
}

/// The width and height that a PNG file's header records: the first two fields of its
/// IHDR chunk, which follows the eight-byte signature and the chunk's length and type,
/// so bytes 16 to 19 and 20 to 23, big-endian.
pub open spec fn png_header_size(png: Seq<u8>) -> (int, int) {
    (big_endian_u32(png, 16), big_endian_u32(png, 20))
}

/// `image::RgbaImage::from_raw` and `write_to` in PNG format: the contract names the
/// encoded bytes by the size and the pixels alone, and states the one thing of their
/// layout that callers rely on: the file the `png` encoder writes starts with the
/// signature and the IHDR chunk of the image's width and height (`encode_header`), so
/// its header records the size it was given. The rest of the bytes is not stated. The
/// buffer is required to hold the image, so that `from_raw` accepts it.
#[verifier::external_body]
fn encode_png(width: u32, height: u32, rgba: Vec<u8>) -> (r: Option<Vec<u8>>)
    requires
        4 * width * height <= rgba@.len(),
    ensures
        match r {
            Some(png) => png_of_rgba(width, height, rgba@) == Some(png@),
            None => png_of_rgba(width, height, rgba@) is None,
        },
        r matches Some(png) ==> png@.len() >= 24 && png_header_size(png@) == (
        width as int,
        height as int,
        ),
{
    let img = image::RgbaImage::from_raw(width, height, rgba)?;
    let mut out = Cursor::new(Vec::new());
    img.write_to(&mut out, image::ImageFormat::Png).ok()?;
    Some(out.into_inner())
}

/// The size and RGBA pixels that the `image` crate decodes from a PNG (or, when `jpeg`,
/// a JPEG) file's bytes; none when it reports an error.
pub uninterp spec fn decoded_still_image(data: Seq<u8>, jpeg: bool) -> Option<(u32, u32, Seq<u8>)>;

/// `image::load_from_memory_with_format` as PNG or JPEG, then `to_rgba8`: the contract
/// names the result by the bytes and the format alone.
#[verifier::external_body]
fn decode_still_image(data: &[u8], jpeg: bool) -> (r: Option<(u32, u32, Vec<u8>)>)
    ensures
        match r {
            Some((w, h, px)) => decoded_still_image(data@, jpeg) == Some((w, h, px@)),
            None => decoded_still_image(data@, jpeg) is None,
        },
{
    let format = if jpeg { image::ImageFormat::Jpeg } else { image::ImageFormat::Png };
    let rgba = image::load_from_memory_with_format(data, format).ok()?.to_rgba8();
    Some((rgba.width(), rgba.height(), rgba.into_raw()))
}

/// Why frames could not be made from an asset's bytes.
#[derive(Debug)]
pub enum FrameDecodeError {
    /// The GIF decoder reported an error.
    Gif(gif::DecodingError),
    /// More frames than a frame index can count.
    TooManyFrames,
    /// The image could not be decoded.
    UnreadableImage,
    /// A frame's pixels do not fill its size ("Failed to create image buffer").
    ImageBuffer,
    /// The PNG encoder reported an error.
    PngEncoding,
    /// The format is no still image.
    NotStillImage,
}

/// One decoded frame: where it is written, its record, its size, and its PNG bytes.
pub struct DecodedFrame {
    pub path: String,
    pub frame: Frame,
    pub width: u32,
    pub height: u32,
    pub png: Vec<u8>,
}

/// The PNG of an RGBA frame: none when the pixels do not fill the size, or when the
/// encoder fails.
pub open spec fn frame_png(width: u32, height: u32, rgba: Seq<u8>) -> Option<Seq<u8>> {
    if 4 * width * height <= rgba.len() {
        png_of_rgba(width, height, rgba)
    } else {
        None
    }
}

/// The error for an RGBA frame whose PNG cannot be made.
pub open spec fn frame_png_error(width: u32, height: u32, rgba: Seq<u8>) -> FrameDecodeError {
    if 4 * width * height <= rgba.len() {
        FrameDecodeError::PngEncoding
    } else {
        FrameDecodeError::ImageBuffer
    }
}

/// `d` is GIF frame `i` of the asset: written under its standard name in the frame
/// directory, recorded with its delay, at its size, as the PNG of its pixels.
pub open spec fn is_decoded_gif_frame(
    asset_id: Seq<char>,
    frame_directory: Seq<char>,
    i: int,
    f: (u16, u16, u16, Seq<u8>),
    d: DecodedFrame,
) -> bool {
    &&& d.path@ == frame_path_in(frame_directory, i as u32)
    &&& is_frame_record(d.frame, asset_id, i as u32, f.2 as u64 * 10)
    &&& d.width == f.0 as u32
    &&& d.height == f.1 as u32
    &&& frame_png(f.0 as u32, f.1 as u32, f.3) == Some(d.png@)
}

/// What decoding the GIF frames `fs` gives: every frame as a PNG file, or the error of
/// the first frame whose PNG cannot be made.
pub open spec fn gif_files_outcome(
    asset_id: Seq<char>,
    frame_directory: Seq<char>,
    fs: Seq<(u16, u16, u16, Seq<u8>)>,
    r: Result<Vec<DecodedFrame>, FrameDecodeError>,
) -> bool {
    match r {
        Ok(v) => v.len() == fs.len() && forall|i: int|
            0 <= i < fs.len() ==> is_decoded_gif_frame(
                asset_id,
                frame_directory,
                i,
                fs[i],
                #[trigger] v@[i],
            ),
        Err(e) => exists|i: int|
            0 <= i < fs.len() && frame_png(fs[i].0 as u32, fs[i].1 as u32, fs[i].3) is None && (
            forall|j: int|
                0 <= j < i ==> frame_png(fs[j].0 as u32, fs[j].1 as u32, fs[j].3) is Some) && e
                == frame_png_error(#[trigger] fs[i].0 as u32, fs[i].1 as u32, fs[i].3),
    }
}

/// Whether `4 * width * height <= len`.
fn rgba_fits(width: u32, height: u32, len: usize) -> (b: bool)
    ensures
        b == (4 * width * height <= len),
{
    let w = width as u128;
    let h = height as u128;
    assert(w * h <= 0xffff_ffff * 0xffff_ffff) by (nonlinear_arith)
        requires
            w <= 0xffff_ffff,
            h <= 0xffff_ffff,
    ;
    let wh: u128 = w * h;
    let need: u128 = 4 * wh;
    assert(need == 4 * width * height) by (nonlinear_arith)
        requires
            need == 4 * wh,
            wh == w * h,
            w == width,
            h == height,
    ;
    need <= len as u128
}

/// The PNG files of decoded GIF frames: frame `i` goes to its standard name in
/// `frame_directory` with its record.
pub fn gif_frame_files(asset_id: &str, frame_directory: &str, frames: &Vec<GifFrameData>) -> (r:
    Result<Vec<DecodedFrame>, FrameDecodeError>)
    requires
        frames.len() <= u32::MAX,
    ensures
        gif_files_outcome(asset_id@, frame_directory@, gif_frame_views(frames@), r),
        r matches Ok(v) ==> v.len() == frames.len() && forall|i: int|
            0 <= i < v.len() ==> (#[trigger] v@[i]).width == frames@[i].width && v@[i].height
                == frames@[i].height && png_header_size(v@[i].png@) == (
            frames@[i].width as int,
            frames@[i].height as int,
            ),
{
    let ghost fs = gif_frame_views(frames@);
    let mut out: Vec<DecodedFrame> = Vec::new();
    let mut i: usize = 0;
    while i < frames.len()
        invariant
            i <= frames.len() <= u32::MAX,
            fs == gif_frame_views(frames@),
            fs.len() == frames.len(),
            out.len() == i,
            forall|k: int|
                0 <= k < i ==> is_decoded_gif_frame(
                    asset_id@,
                    frame_directory@,
                    k,
                    fs[k],
                    #[trigger] out@[k],
                ),
            forall|k: int|
                0 <= k < i ==> (#[trigger] out@[k]).width == frames@[k].width && out@[k].height
                    == frames@[k].height && png_header_size(out@[k].png@) == (
                frames@[k].width as int,
                frames@[k].height as int,
                ),
        decreases frames.len() - i,
    {
        let f = &frames[i];
        assert(fs[i as int] == f@);
        let w = f.width as u32;
        let h = f.height as u32;
        assert forall|j: int| 0 <= j < i implies frame_png(fs[j].0 as u32, fs[j].1 as u32, fs[j].3)
            is Some by {
            assert(is_decoded_gif_frame(asset_id@, frame_directory@, j, fs[j], out@[j]));
        }
        if !rgba_fits(w, h, f.rgba.len()) {
            assert(frame_png(w, h, fs[i as int].3) is None);
            return Err(FrameDecodeError::ImageBuffer);
        }
        let pixels = f.rgba.clone();
        let png = match encode_png(w, h, pixels) {
            Some(p) => p,
            None => {
                return Err(FrameDecodeError::PngEncoding);
            },
        };
        let index = i as u32;
        let d = DecodedFrame {
            path: frame_file_path(frame_directory, index),
            frame: gif_frame(asset_id, index, f.delay),
            width: w,
            height: h,
            png,
        };
        let ghost before = out@;
        out.push(d);
        assert forall|k: int| 0 <= k < i + 1 implies is_decoded_gif_frame(
            asset_id@,
            frame_directory@,
            k,
            fs[k],
            #[trigger] out@[k],
        ) by {
            if k < i {
                assert(out@[k] == before[k]);
            }
        }
        assert forall|k: int| 0 <= k < i + 1 implies (#[trigger] out@[k]).width == frames@[k].width
            && out@[k].height == frames@[k].height && png_header_size(out@[k].png@) == (
            frames@[k].width as int,
            frames@[k].height as int,
        ) by {
            if k < i {
                assert(out@[k] == before[k]);
            }
        }
        i = i + 1;
    }
    Ok(out)
}

/// What decoding a GIF file's bytes gives: the decoder's error, too many frames to
/// number, or the outcome of turning its frames into PNG files.
pub open spec fn gif_decode_outcome(
    asset_id: Seq<char>,
    frame_directory: Seq<char>,
    data: Seq<u8>,
    r: Result<Vec<DecodedFrame>, FrameDecodeError>,
) -> bool {
    match gif_rgba_frames(data) {
        None => r matches Err(FrameDecodeError::Gif(_)),
        Some(fs) => if fs.len() > u32::MAX {
            r matches Err(FrameDecodeError::TooManyFrames)
        } else {
            gif_files_outcome(asset_id, frame_directory, fs, r)
        },
    }
}

/// Decodes a GIF file's bytes into PNG frame files for the asset.
pub fn decode_gif_frames(asset_id: &str, frame_directory: &str, data: &[u8]) -> (r: Result<
    Vec<DecodedFrame>,
    FrameDecodeError,
>)
    ensures
        gif_decode_outcome(asset_id@, frame_directory@, data@, r),
        r matches Ok(v) ==> (gif_rgba_frames(data@) matches Some(fs) && v.len() == fs.len()
            && forall|i: int|
            0 <= i < v.len() ==> (#[trigger] v@[i]).width == fs[i].0 && v@[i].height == fs[i].1
                && png_header_size(v@[i].png@) == (fs[i].0 as int, fs[i].1 as int)),
{
    match read_gif_frames(data) {
        Err(e) => Err(FrameDecodeError::Gif(e)),
        Ok(frames) => {
            if frames.len() > u32::MAX as usize {
                Err(FrameDecodeError::TooManyFrames)
            } else {
                gif_frame_files(asset_id, frame_directory, &frames)
            }
        },
    }
}

/// Whether a still image format is JPEG (and not PNG); none for other formats.
pub open spec fn still_image_jpeg(format: AssetFormat) -> Option<bool> {
    match format {
        AssetFormat::Png => Some(false),
        AssetFormat::Jpg => Some(true),
        _ => None,
    }
}

/// The width and height of a still image, decoded from its bytes in its format; none
/// when the format is no still image or the bytes do not decode.
pub open spec fn still_image_size_spec(data: Seq<u8>, format: AssetFormat) -> Option<(u32, u32)> {
    match still_image_jpeg(format) {
        Some(jpeg) => match decoded_still_image(data, jpeg) {
            Some((w, h, _)) => Some((w, h)),
            None => None,
        },
        None => None,
    }
}

/// The width and height of a PNG or JPG image.
pub fn still_image_size(data: &[u8], format: AssetFormat) -> (r: Option<(u32, u32)>)
    ensures
        r == still_image_size_spec(data@, format),
{
    let jpeg = match format {
        AssetFormat::Png => false,
        AssetFormat::Jpg => true,
        _ => {
            return None;
        },
    };
    match decode_still_image(data, jpeg) {
        Some((w, h, _)) => Some((w, h)),
        None => None,
    }
}

/// What decoding a still image gives: frame 0 of the asset at time 0, as the PNG of
/// the decoded pixels; or why it cannot be made.
pub open spec fn still_frame_outcome(
    asset_id: Seq<char>,
    frame_directory: Seq<char>,
    data: Seq<u8>,
    format: AssetFormat,
    r: Result<DecodedFrame, FrameDecodeError>,
) -> bool {
    match still_image_jpeg(format) {
        None => r matches Err(FrameDecodeError::NotStillImage),
        Some(jpeg) => match decoded_still_image(data, jpeg) {
            None => r matches Err(FrameDecodeError::UnreadableImage),
            Some((w, h, px)) => match frame_png(w, h, px) {
                None => r matches Err(e) && e == frame_png_error(w, h, px),
                Some(png) => r matches Ok(d) && d.path@ == frame_path_in(frame_directory, 0)
                    && is_frame_record(d.frame, asset_id, 0, 0) && d.width == w && d.height == h
                    && d.png@ == png,
            },
        },
    }
}

/// Decodes a PNG or JPG image into a single PNG frame file for the asset.
pub fn decode_still_image_frame(asset_id: &str, frame_directory: &str, data: &[u8], format: AssetFormat) -> (r: Result<DecodedFrame, FrameDecodeError>)
    ensures
        still_frame_outcome(asset_id@, frame_directory@, data@, format, r),
        r matches Ok(d) ==> d.png@.len() >= 24 && png_header_size(d.png@) == (
        d.width as int,
        d.height as int,
        ),
{
    let jpeg = match format {
        AssetFormat::Png => false,
        AssetFormat::Jpg => true,
        _ => {
            return Err(FrameDecodeError::NotStillImage);
        },
    };
    let (w, h, px) = match decode_still_image(data, jpeg) {
        Some(img) => img,
        None => {
            return Err(FrameDecodeError::UnreadableImage);
        },
    };
    if !rgba_fits(w, h, px.len()) {
        return Err(FrameDecodeError::ImageBuffer);
    }
    let png = match encode_png(w, h, px) {
        Some(p) => p,
        None => {
            return Err(FrameDecodeError::PngEncoding);
        },
    };
    let frame = Frame {
        asset_id: String::from_str(asset_id),
        index: 0,
        timestamp_ms: 0,
        filename: Frame::filename_for_index(0),
        has_annotation: false,
    };
    Ok(DecodedFrame { path: frame_file_path(frame_directory, 0), frame, width: w, height: h, png })
}

/// The frames that `ffmpeg` left in a directory whose entries are `names`, in listing
/// order: each `.png` entry is a frame whose index is its position in the listing and
/// whose time is that position at 30 frames per second.
pub open spec fn video_frame_entries(names: Seq<Seq<char>>) -> Seq<(u32, u64, Seq<char>)>
    decreases names.len(),
{
    if names.len() == 0 {
        seq![]
    } else {
        let prev = video_frame_entries(names.drop_last());
        let k = names.len() - 1;
        if has_suffix(names.last(), ".png"@) {
            prev.push((k as u32, (k * 1000 / 30) as u64, names.last()))
        } else {
            prev
        }
    }
}

/// The frame records of a directory listing after video decoding.
pub fn video_frames(asset_id: &str, names: &Vec<String>) -> (frames: Vec<Frame>)
    requires
        names.len() <= u32::MAX,
    ensures
        frames.len() == video_frame_entries(string_views(names@)).len(),
        forall|j: int|
            0 <= j < frames.len() ==> {
                let e = video_frame_entries(string_views(names@))[j];
                &&& (#[trigger] frames@[j]).asset_id@ == asset_id@
                &&& frames@[j].index == e.0
                &&& frames@[j].timestamp_ms == e.1
                &&& frames@[j].filename@ == e.2
                &&& !frames@[j].has_annotation
            },
{
    let png = chars_of(".png");
    let ghost views = string_views(names@);
    let mut frames: Vec<Frame> = Vec::new();
    let mut i: usize = 0;
    assert(views.take(0) =~= Seq::<Seq<char>>::empty());
    while i < names.len()
        invariant
            i <= names.len(),
            names.len() <= u32::MAX,
            png@ == ".png"@,
            views == string_views(names@),
            frames.len() == video_frame_entries(views.take(i as int)).len(),
            forall|j: int|
                0 <= j < frames.len() ==> {
                    let e = video_frame_entries(views.take(i as int))[j];
                    &&& (#[trigger] frames@[j]).asset_id@ == asset_id@
                    &&& frames@[j].index == e.0
                    &&& frames@[j].timestamp_ms == e.1
                    &&& frames@[j].filename@ == e.2
                    &&& !frames@[j].has_annotation
                },
        decreases names.len() - i,
    {
        let ghost prev = video_frame_entries(views.take(i as int));
        assert(views.take(i + 1).drop_last() =~= views.take(i as int));
        assert(views.take(i + 1).last() == names@[i as int]@);
        let name = names[i].as_str();
        let nv = chars_of(name);
        if chars_end_with(&nv, &png) {
            let ghost frames_before = frames@;
            let f = Frame {
                asset_id: String::from_str(asset_id),
                index: i as u32,
                timestamp_ms: (i as u64 * 1000) / 30,
                filename: String::from_str(name),
                has_annotation: false,
            };
            frames.push(f);
            assert(video_frame_entries(views.take(i + 1)) == prev.push(
                (i as u32, (i * 1000 / 30) as u64, names@[i as int]@),
            ));
            assert forall|j: int| 0 <= j < frames.len() implies {
                let e = video_frame_entries(views.take(i + 1))[j];
                &&& (#[trigger] frames@[j]).asset_id@ == asset_id@
                &&& frames@[j].index == e.0
                &&& frames@[j].timestamp_ms == e.1
                &&& frames@[j].filename@ == e.2
                &&& !frames@[j].has_annotation
            } by {
                if j < frames.len() - 1 {
                    assert(frames@[j] == frames_before[j]);
                }
            }
        } else {
            assert(video_frame_entries(views.take(i + 1)) == prev);
        }
        i = i + 1;
    }
    assert(views.take(names.len() as int) =~= views);
    frames
}

/// The frames found after video decoding are in increasing index order, so sorting
/// them by index leaves them as they are.
pub proof fn lemma_video_frames_sorted(names: Seq<Seq<char>>)
    requires
        names.len() <= u32::MAX,
    ensures
        forall|a: int, b: int|
            0 <= a < b < video_frame_entries(names).len() ==> (#[trigger] video_frame_entries(
                names,
            )[a]).0 < (#[trigger] video_frame_entries(names)[b]).0,
        forall|a: int|
            0 <= a < video_frame_entries(names).len() ==> (#[trigger] video_frame_entries(
                names,
            )[a]).0 < names.len(),
    decreases names.len(),
{
    if names.len() > 0 {
        let prev = video_frame_entries(names.drop_last());
        let all = video_frame_entries(names);
        let k = names.len() - 1;
        lemma_video_frames_sorted(names.drop_last());
        if has_suffix(names.last(), ".png"@) {
            assert((k as u32) as int == k);
            assert(all == prev.push((k as u32, (k * 1000 / 30) as u64, names.last())));
            assert forall|a: int| 0 <= a < all.len() implies (#[trigger] all[a]).0 < names.len() by {
                if a < prev.len() {
                    assert(all[a] == prev[a]);
                }
            }
            assert forall|a: int, b: int| 0 <= a < b < all.len() implies (#[trigger] all[a]).0 < (
            #[trigger] all[b]).0 by {
                assert(all[a] == prev[a]);
                if b < prev.len() {
                    assert(all[b] == prev[b]);
                }
            }
        } else {
            assert(all == prev);
        }
    }
}

} // verus!
