//! Domain entities of the asset manager: media formats, frames, export settings.
use vstd::prelude::*;

use crate::text::{decimal, digits_value, all_digits, zero_pad, push_decimal_padded, lemma_decimal, lemma_zero_pad_value};
use vstd::string::*;

verus! {

/// Where an asset came from.
#[derive(Debug, Clone, Copy, PartialEq, Eq, Structural)]
pub enum AssetSource {
    Sakugabooru,
    Local,
    Url,
}

/// Container or image format of an asset.
#[derive(Debug, Clone, Copy, PartialEq, Eq, Structural)]
pub enum AssetFormat {
    Gif,
    Webm,
    Mp4,
    Mov,
    ImageSequence,
    Png,
    Jpg,
}

/// Width and height of a media asset in pixels.
#[derive(Debug, Clone, Copy, PartialEq, Eq, Structural)]
pub struct Resolution {
    pub width: u32,
    pub height: u32,
}

impl Resolution {
    /// Builds a resolution from its two dimensions.
    pub fn new(width: u32, height: u32) -> (r: Self)
        ensures
            r.width == width,
            r.height == height,
    {
        Resolution { width, height }
    }
}

/// Booru-style tag category.
#[derive(Debug, Clone, Copy, PartialEq, Eq, Structural)]
pub enum TagCategory {
    Character,
    Copyright,
    Artist,
    General,
    Meta,
}

/// A light reference to one decoded frame; the pixels live on disk.
#[derive(Debug, Clone, PartialEq, Eq)]
pub struct Frame {
    pub asset_id: String,
    pub index: u32,
    pub timestamp_ms: u64,
    pub filename: String,
    pub has_annotation: bool,
}

/// The standard file name of frame `index`: `frame_` and the index in at least
/// six zero-padded digits, then `.png`.
pub open spec fn frame_filename(index: u32) -> Seq<char> {
    "frame_"@ + zero_pad(decimal(index as nat), 6) + ".png"@
}

impl Frame {
    /// The standard file name for the frame at `index`.
    pub fn filename_for_index(index: u32) -> (s: String)
        ensures
            s@ == frame_filename(index),
    {
        let mut s = String::from_str("frame_");
        push_decimal_padded(&mut s, index as u64, 6);
        s.append(".png");
        s
    }
}

/// The index part of a frame file name: what stands between `frame_` and `.png`.
pub open spec fn frame_filename_digits(name: Seq<char>) -> Seq<char> {
    name.subrange(6, name.len() - 4)
}

/// A frame file name spells out its index: the characters between the prefix and
/// the extension are decimal digits whose value is the index. So two different
/// indices never share a file name.
pub proof fn lemma_frame_filename_index(index: u32)
    ensures
        frame_filename(index).len() >= 16,
        all_digits(frame_filename_digits(frame_filename(index))),
        digits_value(frame_filename_digits(frame_filename(index))) == index,
{
    reveal_strlit("frame_");
    reveal_strlit(".png");
    let d = zero_pad(decimal(index as nat), 6);
    lemma_decimal(index as nat);
    lemma_zero_pad_value(decimal(index as nat), 6);
    assert(frame_filename_digits(frame_filename(index)) =~= d);
}

/// Distinct frame indices have distinct file names.
pub proof fn lemma_frame_filename_injective(i: u32, j: u32)
    ensures
        frame_filename(i) == frame_filename(j) ==> i == j,
{
    lemma_frame_filename_index(i);
    lemma_frame_filename_index(j);
}

/// Kind of an annotation shape.
#[derive(Debug, Clone, Copy, PartialEq, Eq, Structural)]
pub enum AnnotationType {
    Rect,
    Circle,
    Arrow,
    Text,
    Stroke,
}

/// Quality preset of an H264 export.
#[derive(Debug, Clone, Copy, PartialEq, Eq, Structural)]
pub enum H264Quality {
    Lossless,
    High,
    Medium,
    Low,
}

impl Default for H264Quality {
    fn default() -> (q: Self)
        ensures
            q == H264Quality::High,
    {
        H264Quality::High
    }
}

/// Format of an export record.
#[derive(Debug, Clone, Copy, PartialEq, Eq, Structural)]
pub enum ExportFormat {
    H264 { quality: H264Quality },
    ProRes,
    Gif,
    Webm,
    ImageSequence,
    MayaPlayblast,
    BlenderViewport,
}

/// A range of frames, counted from zero.
#[derive(Debug, Clone, Copy, PartialEq, Eq, Structural)]
pub enum FrameRange {
    All,
    Custom { start: u32, end: u32 },
}

/// The index of the last frame of an asset with `total` frames (zero when it has none).
pub open spec fn last_frame(total: u32) -> u32 {
    if total == 0 { 0 } else { (total - 1) as u32 }
}

/// The smaller of two numbers.
pub open spec fn min_u32(a: u32, b: u32) -> u32 {
    if a <= b { a } else { b }
}

impl FrameRange {
    /// Whether `frame` lies in the range, with the range's end clipped to the last frame.
    pub open spec fn spec_contains(&self, frame: u32, total_frames: u32) -> bool {
        match *self {
            FrameRange::All => frame < total_frames,
            FrameRange::Custom { start, end } => start <= frame && frame <= min_u32(
                end,
                last_frame(total_frames),
            ),
        }
    }

    /// The first frame of the range, clipped to the last frame.
    pub open spec fn spec_start(&self, total_frames: u32) -> u32 {
        match *self {
            FrameRange::All => 0,
            FrameRange::Custom { start, .. } => min_u32(start, last_frame(total_frames)),
        }
    }

    /// The last frame of the range, clipped to the last frame.
    pub open spec fn spec_end(&self, total_frames: u32) -> u32 {
        match *self {
            FrameRange::All => last_frame(total_frames),
            FrameRange::Custom { end, .. } => min_u32(end, last_frame(total_frames)),
        }
    }

    /// Whether `frame` lies in the range; an end past the last frame is clipped to it.
    #[verifier::when_used_as_spec(spec_contains)]
    pub fn contains(&self, frame: u32, total_frames: u32) -> (r: bool)
        ensures
            r == self.spec_contains(frame, total_frames),
            *self matches FrameRange::Custom { start, end } ==> (start <= frame <= end
                && end < total_frames ==> r),
            *self matches FrameRange::Custom { start, end } ==> (frame < start || frame > end
                ==> !r),
    {
        match self {
            FrameRange::All => frame < total_frames,
            FrameRange::Custom { start, end } => {
                let end = if *end < total_frames.saturating_sub(1) {
                    *end
                } else {
                    total_frames.saturating_sub(1)
                };
                frame >= *start && frame <= end
            },
        }
    }

    /// The first frame of the range; a start past the last frame is clipped to it.
    #[verifier::when_used_as_spec(spec_start)]
    pub fn start(&self, total_frames: u32) -> (r: u32)
        ensures
            r == self.spec_start(total_frames),
            *self matches FrameRange::Custom { start, .. } ==> (start < total_frames ==> r
                == start),
    {
        match self {
            FrameRange::All => 0,
            FrameRange::Custom { start, .. } => {
                if *start < total_frames.saturating_sub(1) {
                    *start
                } else {
                    total_frames.saturating_sub(1)
                }
            },
        }
    }

    /// The last frame of the range; an end past the last frame is clipped to it.
    #[verifier::when_used_as_spec(spec_end)]
    pub fn end(&self, total_frames: u32) -> (r: u32)
        ensures
            r == self.spec_end(total_frames),
            *self matches FrameRange::Custom { end, .. } ==> (end < total_frames ==> r == end),
    {
        match self {
            FrameRange::All => total_frames.saturating_sub(1),
            FrameRange::Custom { end, .. } => {
                if *end < total_frames.saturating_sub(1) {
                    *end
                } else {
                    total_frames.saturating_sub(1)
                }
            },
        }
    }
}

/// The frame shown for a requested index: an index past the last frame gives the last
/// frame (frame 0 when the asset has none).
pub fn clamp_frame_index(index: u32, total_frames: u32) -> (r: u32)
    ensures
        r == min_u32(index, last_frame(total_frames)),
{
    let last = total_frames.saturating_sub(1);
    if index < last {
        index
    } else {
        last
    }
}

/// Out-of-range frame indices are defined away: a clamped index is a frame of the
/// asset, and an index of the asset is kept as it is.
pub proof fn lemma_clamped_index_valid(index: u32, total_frames: u32)
    requires
        total_frames > 0,
    ensures
        min_u32(index, last_frame(total_frames)) < total_frames,
        index < total_frames ==> min_u32(index, last_frame(total_frames)) == index,
        index >= total_frames ==> min_u32(index, last_frame(total_frames)) == total_frames - 1,
{
}

/// Out-of-range bounds are clipped, never reported: for an asset with frames, the
/// start and the end of any range are valid frame indices, and the start of the
/// whole asset is its first frame and the end its last.
pub proof fn lemma_range_bounds_valid(range: FrameRange, total_frames: u32)
    requires
        total_frames > 0,
    ensures
        range.spec_start(total_frames) < total_frames,
        range.spec_end(total_frames) < total_frames,
        FrameRange::All.spec_start(total_frames) == 0,
        FrameRange::All.spec_end(total_frames) == total_frames - 1,
{
}

/// A range only ever contains frames of the asset.
pub proof fn lemma_range_contains_valid(range: FrameRange, frame: u32, total_frames: u32)
    requires
        total_frames > 0,
        range.spec_contains(frame, total_frames),
    ensures
        frame < total_frames,
{
}

/// Membership agrees with the clipped bounds: a frame of the asset is in the range
/// exactly when it lies between `start` and `end`. This needs a range that starts
/// inside the asset (a start past the end is clipped by `start` but not by `contains`).
pub proof fn lemma_range_contains_between_bounds(range: FrameRange, frame: u32, total_frames: u32)
    requires
        frame < total_frames,
        match range {
            FrameRange::All => true,
            FrameRange::Custom { start, .. } => start < total_frames,
        },
    ensures
        range.spec_contains(frame, total_frames) <==> (range.spec_start(total_frames) <= frame
            && frame <= range.spec_end(total_frames)),
{
}

/// A custom range keeps the bounds that lie inside the asset: a start or an end
/// before the frame count is returned as it is, and a frame of the asset is in the
/// range exactly when it lies between the two bounds, both included.
pub proof fn lemma_custom_range_kept_inside_asset(start: u32, end: u32, frame: u32, total_frames: u32)
    ensures
        start < total_frames ==> (FrameRange::Custom { start, end }).spec_start(total_frames)
            == start,
        end < total_frames ==> (FrameRange::Custom { start, end }).spec_end(total_frames) == end,
        start <= frame <= end && end < total_frames ==> (FrameRange::Custom {
            start,
            end,
        }).spec_contains(frame, total_frames),
        end < total_frames ==> ((FrameRange::Custom { start, end }).spec_contains(
            frame,
            total_frames,
        ) <==> start <= frame <= end),
{
}

/// Sort order of an asset listing.
#[derive(Debug, Clone, Copy, PartialEq, Eq, Structural)]
pub enum AssetSort {
    ImportedAtDesc,
    ImportedAtAsc,
    NameAsc,
    NameDesc,
    LastViewedDesc,
    ViewCountDesc,
}

} // verus!
