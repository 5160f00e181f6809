//! Encoding exports: the `ffmpeg` command line of a video export and the frame
//! copies of an image sequence.
use vstd::prelude::*;

use crate::dcc;
use crate::models::{ExportFormat, Frame, FrameRange, H264Quality, frame_filename, min_u32};
use crate::paths::{join_path, path_join};
use crate::text::{decimal, push_decimal, push_string, string_views};
use vstd::string::*;

verus! {

/// Encodes assets into video files; `app_data_dir` takes frame copies when an
/// output path has no directory.
pub struct EncoderService {
    app_data_dir: String,
}

impl View for EncoderService {
    type V = Seq<char>;

    /// The directory that receives frame copies of outputs without a directory.
    closed spec fn view(&self) -> Seq<char> {
        self.app_data_dir@
    }
}

impl EncoderService {
    /// An encoder whose fallback directory is `app_data_dir`.
    pub fn new(app_data_dir: String) -> (e: Self)
        ensures
            e@ == app_data_dir@,
    {
        EncoderService { app_data_dir }
    }

    /// The fallback directory for frame copies.
    pub fn app_data_dir(&self) -> (s: &str)
        ensures
            s@ == self@,
    {
        self.app_data_dir.as_str()
    }
}

/// The first and last frame (counted from one) that a video export reads: the whole
/// asset, or the custom bounds each clipped to the frame count.
pub open spec fn export_bounds(range: FrameRange, frame_count: u32) -> (u32, u32) {
    match range {
        FrameRange::All => (1, frame_count),
        FrameRange::Custom { start, end } => (min_u32(start, frame_count), min_u32(end, frame_count)),
    }
}

/// The first and last frame that a video export reads.
pub fn export_frame_bounds(range: FrameRange, frame_count: u32) -> (b: (u32, u32))
    ensures
        b == export_bounds(range, frame_count),
{
    match range {
        FrameRange::All => (1, frame_count),
        FrameRange::Custom { start, end } => {
            let s = if start <= frame_count { start } else { frame_count };
            let e = if end <= frame_count { end } else { frame_count };
            (s, e)
        },
    }
}

/// The number of frames a video export asks `ffmpeg` for: one more than the distance
/// from the first to the last frame, and one when the last lies before the first.
pub open spec fn export_frame_total(range: FrameRange, frame_count: u32) -> nat {
    let (s, e) = export_bounds(range, frame_count);
    if e >= s { (e - s + 1) as nat } else { 1 }
}

/// The CRF value of an H264 quality preset.
pub open spec fn crf_of(q: H264Quality) -> Seq<char> {
    match q {
        H264Quality::Lossless => "0"@,
        H264Quality::High => "18"@,
        H264Quality::Medium => "23"@,
        H264Quality::Low => "28"@,
    }
}

/// The filter graph of a GIF export: 30 fps, 480 pixels wide, a 256 colour palette.
pub const GIF_FILTER: &'static str = "fps=30,scale=480:-1:flags=lanczos,split[s0][s1];[s0]palettegen=max_colors=256[p];[s1][p]paletteuse=dither=bayer";

/// The codec arguments of an export format; none for the formats that are not video.
pub open spec fn codec_arguments(format: ExportFormat) -> Option<Seq<Seq<char>>> {
    match format {
        ExportFormat::H264 { quality } => Some(
            seq![
                "-c:v"@,
                "libx264"@,
                "-crf"@,
                crf_of(quality),
                "-pix_fmt"@,
                "yuv420p"@,
                "-movflags"@,
                "+faststart"@,
            ],
        ),
        ExportFormat::ProRes => Some(
            seq!["-c:v"@, "prores_ks"@, "-profile:v"@, "3"@, "-pix_fmt"@, "yuv422p10le"@],
        ),
        ExportFormat::Gif => Some(seq!["-vf"@, GIF_FILTER@, "-loop"@, "0"@]),
        ExportFormat::Webm => Some(seq!["-c:v"@, "libvpx-vp9"@, "-crf"@, "30"@, "-b:v"@, "0"@]),
        _ => None,
    }
}

/// The arguments of the `ffmpeg` run of a video export: the frame rate, the first
/// frame and the numbered frame files as input, the number of frames, the codec
/// arguments, and the output file (overwritten).
pub open spec fn ffmpeg_arguments_spec(
    fps: Seq<char>,
    frame_directory: Seq<char>,
    frame_count: u32,
    output_path: Seq<char>,
    format: ExportFormat,
    range: FrameRange,
) -> Option<Seq<Seq<char>>> {
    match codec_arguments(format) {
        None => None,
        Some(codec) => Some(
            seq![
                "-framerate"@,
                fps,
                "-start_number"@,
                decimal(export_bounds(range, frame_count).0 as nat),
                "-i"@,
                path_join(frame_directory, "frame_%06d.png"@),
                "-frames:v"@,
                decimal(export_frame_total(range, frame_count)),
            ] + codec + seq!["-y"@, output_path],
        ),
    }
}

/// Why a video export cannot start.
#[derive(Debug, Clone, Copy, PartialEq, Eq, Structural)]
pub enum EncodeError {
    /// The format is not a video format ("Format not supported for export").
    UnsupportedFormat,
}

/// The `ffmpeg` arguments of a video export of an asset with `frame_count` frames in
/// `frame_directory`, played at `fps` (the rate as printed). Image sequences and the
/// DCC formats are not encoded by `ffmpeg` and are refused.
pub fn ffmpeg_arguments(
    fps: &str,
    frame_directory: &str,
    frame_count: u32,
    output_path: &str,
    format: ExportFormat,
    range: FrameRange,
) -> (r: Result<Vec<String>, EncodeError>)
    requires
        export_frame_total(range, frame_count) <= u32::MAX,
    ensures
        match r {
            Ok(args) => ffmpeg_arguments_spec(
                fps@,
                frame_directory@,
                frame_count,
                output_path@,
                format,
                range,
            ) == Some(string_views(args@)),
            Err(e) => ffmpeg_arguments_spec(
                fps@,
                frame_directory@,
                frame_count,
                output_path@,
                format,
                range,
            ) is None && e == EncodeError::UnsupportedFormat,
        },
        format == (ExportFormat::H264 { quality: H264Quality::Lossless }) ==> (r matches Ok(args)
            && args@.len() == 18 && args@[10]@ == "-crf"@ && args@[11]@ == "0"@),
        format == (ExportFormat::H264 { quality: H264Quality::High }) ==> (r matches Ok(args)
            && args@.len() == 18 && args@[10]@ == "-crf"@ && args@[11]@ == "18"@),
        format == (ExportFormat::H264 { quality: H264Quality::Medium }) ==> (r matches Ok(args)
            && args@.len() == 18 && args@[10]@ == "-crf"@ && args@[11]@ == "23"@),
        format == (ExportFormat::H264 { quality: H264Quality::Low }) ==> (r matches Ok(args)
            && args@.len() == 18 && args@[10]@ == "-crf"@ && args@[11]@ == "28"@),
{
    let (start_frame, end_frame) = export_frame_bounds(range, frame_count);
    let mut args: Vec<String> = Vec::new();
    push_string(&mut args, "-framerate");
    push_string(&mut args, fps);
    push_string(&mut args, "-start_number");
    let mut start_text = String::new();
    push_decimal(&mut start_text, start_frame as u64);
    push_string(&mut args, start_text.as_str());
    push_string(&mut args, "-i");
    let pattern = join_path(frame_directory, "frame_%06d.png");
    push_string(&mut args, pattern.as_str());
    let total: u32 = if end_frame >= start_frame {
        end_frame - start_frame + 1
    } else {
        1
    };
    push_string(&mut args, "-frames:v");
    let mut total_text = String::new();
    push_decimal(&mut total_text, total as u64);
    push_string(&mut args, total_text.as_str());
    let ghost head = string_views(args@);
    match format {
        ExportFormat::H264 { quality } => {
            let crf = match quality {
                H264Quality::Lossless => "0",
                H264Quality::High => "18",
                H264Quality::Medium => "23",
                H264Quality::Low => "28",
            };
            push_string(&mut args, "-c:v");
            push_string(&mut args, "libx264");
            push_string(&mut args, "-crf");
            push_string(&mut args, crf);
            push_string(&mut args, "-pix_fmt");
            push_string(&mut args, "yuv420p");
            push_string(&mut args, "-movflags");
            push_string(&mut args, "+faststart");
        },
        ExportFormat::ProRes => {
            push_string(&mut args, "-c:v");
            push_string(&mut args, "prores_ks");
            push_string(&mut args, "-profile:v");
            push_string(&mut args, "3");
            push_string(&mut args, "-pix_fmt");
            push_string(&mut args, "yuv422p10le");
        },
        ExportFormat::Gif => {
            push_string(&mut args, "-vf");
            push_string(&mut args, GIF_FILTER);
            push_string(&mut args, "-loop");
            push_string(&mut args, "0");
        },
        ExportFormat::Webm => {
            push_string(&mut args, "-c:v");
            push_string(&mut args, "libvpx-vp9");
            push_string(&mut args, "-crf");
            push_string(&mut args, "30");
            push_string(&mut args, "-b:v");
            push_string(&mut args, "0");
        },
        _ => {
            return Err(EncodeError::UnsupportedFormat);
        },
    }
    let ghost codec = string_views(args@).skip(head.len() as int);
    assert(string_views(args@) =~= head + codec);
    assert(Some(codec) == codec_arguments(format));
    push_string(&mut args, "-y");
    push_string(&mut args, output_path);
    assert(string_views(args@) =~= head + codec + seq!["-y"@, output_path@]);
    proof {
        lemma_h264_crf_presets(fps@, frame_directory@, frame_count, output_path@, range);
        if format is H264 {
            assert(args@[10]@ == string_views(args@)[10]);
            assert(args@[11]@ == string_views(args@)[11]);
        }
    }
    Ok(args)
}

/// The quality presets of an H264 export set the constant rate factor that follows
/// `-crf` (the eleventh and twelfth of its eighteen arguments): 0 for Lossless, 18
/// for High, 23 for Medium and 28 for Low, whatever the asset, range and output.
pub proof fn lemma_h264_crf_presets(
    fps: Seq<char>,
    frame_directory: Seq<char>,
    frame_count: u32,
    output_path: Seq<char>,
    range: FrameRange,
)
    ensures
        ffmpeg_arguments_spec(
            fps,
            frame_directory,
            frame_count,
            output_path,
            ExportFormat::H264 { quality: H264Quality::Lossless },
            range,
        ) matches Some(a) && a.len() == 18 && a[10] == "-crf"@ && a[11] == "0"@,
        ffmpeg_arguments_spec(
            fps,
            frame_directory,
            frame_count,
            output_path,
            ExportFormat::H264 { quality: H264Quality::High },
            range,
        ) matches Some(a) && a.len() == 18 && a[10] == "-crf"@ && a[11] == "18"@,
        ffmpeg_arguments_spec(
            fps,
            frame_directory,
            frame_count,
            output_path,
            ExportFormat::H264 { quality: H264Quality::Medium },
            range,
        ) matches Some(a) && a.len() == 18 && a[10] == "-crf"@ && a[11] == "23"@,
        ffmpeg_arguments_spec(
            fps,
            frame_directory,
            frame_count,
            output_path,
            ExportFormat::H264 { quality: H264Quality::Low },
            range,
        ) matches Some(a) && a.len() == 18 && a[10] == "-crf"@ && a[11] == "28"@,
{
}

/// The frame copies of an image sequence: for each frame from `start` to `end`
/// (both included), its file in `from_dir` and the same name in `to_dir`.
pub open spec fn frame_copy(from_dir: Seq<char>, to_dir: Seq<char>, index: u32) -> (Seq<char>, Seq<char>) {
    (path_join(from_dir, frame_filename(index)), path_join(to_dir, frame_filename(index)))
}

/// The number of frames from `start` to `end`, both included.
pub open spec fn frames_between(start: u32, end: u32) -> nat {
    if end >= start { (end - start + 1) as nat } else { 0 }
}

/// The copies that bring frames `start..=end` from `from_dir` to `to_dir`.
pub fn frame_copy_plan(from_dir: &str, to_dir: &str, start: u32, end: u32) -> (plan: Vec<(String, String)>)
    ensures
        plan.len() == frames_between(start, end),
        forall|k: int|
            0 <= k < plan.len() ==> {
                let c = frame_copy(from_dir@, to_dir@, (start + k) as u32);
                &&& (#[trigger] plan@[k]).0@ == c.0
                &&& plan@[k].1@ == c.1
            },
{
    let mut plan: Vec<(String, String)> = Vec::new();
    if end < start {
        return plan;
    }
    let mut i: u64 = start as u64;
    while i <= end as u64
        invariant
            start <= end,
            start <= i <= end as u64 + 1,
            plan.len() == i - start,
            forall|k: int|
                0 <= k < plan.len() ==> {
                    let c = frame_copy(from_dir@, to_dir@, (start + k) as u32);
                    &&& (#[trigger] plan@[k]).0@ == c.0
                    &&& plan@[k].1@ == c.1
                },
        decreases end as u64 + 1 - i,
    {
        let index = i as u32;
        let name = Frame::filename_for_index(index);
        let src = join_path(from_dir, name.as_str());
        let dst = join_path(to_dir, name.as_str());
        let ghost before = plan@;
        plan.push((src, dst));
        assert forall|k: int| 0 <= k < plan.len() implies {
            let c = frame_copy(from_dir@, to_dir@, (start + k) as u32);
            &&& (#[trigger] plan@[k]).0@ == c.0
            &&& plan@[k].1@ == c.1
        } by {
            if k < plan.len() - 1 {
                assert(plan@[k] == before[k]);
            }
        }
        i = i + 1;
    }
    plan
}

/// The frame copies of a PNG sequence export: the export range's frames, counted from
/// one and clipped into the asset, from the asset's frame directory into `output_dir`.
pub fn png_sequence_plan(
    frame_directory: &str,
    output_dir: &str,
    range: dcc::FrameRange,
    frame_count: u32,
) -> (plan: Vec<(String, String)>)
    ensures
        plan.len() == frames_between(range.spec_start(frame_count), range.spec_end(frame_count)),
        forall|k: int|
            0 <= k < plan.len() ==> {
                let c = frame_copy(
                    frame_directory@,
                    output_dir@,
                    (range.spec_start(frame_count) + k) as u32,
                );
                &&& (#[trigger] plan@[k]).0@ == c.0
                &&& plan@[k].1@ == c.1
            },
        range matches dcc::FrameRange::Custom { start, end } ==> (1 <= start <= end
            <= frame_count ==> plan.len() == end - start + 1 && plan@[0].0@ == frame_copy(
            frame_directory@,
            output_dir@,
            start,
        ).0 && plan@[plan.len() - 1].0@ == frame_copy(frame_directory@, output_dir@, end).0),
{
    let start = range.start(frame_count);
    let end = range.end(frame_count);
    frame_copy_plan(frame_directory, output_dir, start, end)
}

/// When a video export falls back to copying frames, it copies exactly the frames it
/// asked `ffmpeg` for: as many as `-frames:v` names, starting at `-start_number`.
pub proof fn lemma_fallback_copies_requested_frames(range: FrameRange, frame_count: u32)
    requires
        export_bounds(range, frame_count).0 <= export_bounds(range, frame_count).1,
    ensures
        frames_between(export_bounds(range, frame_count).0, export_bounds(range, frame_count).1)
            == export_frame_total(range, frame_count),
{
}

/// A PNG sequence export copies only frame numbers from 1 to the frame count, and
/// never more frames than the asset has.
pub proof fn lemma_png_sequence_within_asset(range: dcc::FrameRange, frame_count: u32, k: int)
    requires
        frame_count > 0,
        0 <= k < frames_between(range.spec_start(frame_count), range.spec_end(frame_count)),
    ensures
        1 <= range.spec_start(frame_count) + k <= frame_count,
        frames_between(range.spec_start(frame_count), range.spec_end(frame_count)) <= frame_count,
{
}

/// Decoded frames and exports number frames differently: GIF and still-image frames are
/// written from `frame_000000.png` on (a GIF of `n` frames gives files 0 to n - 1),
/// while exports count from one, as `ffmpeg` does for video frames. So exporting a whole
/// GIF asset copies the files of frames 1 to n: its frame 0 is left out, and the file of
/// frame n, which decoding never wrote, is skipped as missing.
pub proof fn lemma_gif_export_numbering(frame_count: u32, k: int)
    requires
        frame_count >= 1,
        0 <= k < frames_between(
            dcc::FrameRange::All.spec_start(frame_count),
            dcc::FrameRange::All.spec_end(frame_count),
        ),
    ensures
        frames_between(
            dcc::FrameRange::All.spec_start(frame_count),
            dcc::FrameRange::All.spec_end(frame_count),
        ) == frame_count,
        dcc::FrameRange::All.spec_start(frame_count) + k != 0,
        dcc::FrameRange::All.spec_start(frame_count) + (frame_count - 1) == frame_count,
{
}

} // verus!
