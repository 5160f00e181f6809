//! Export settings and the helper scripts that load an exported image sequence
//! into Maya or Blender.
use vstd::prelude::*;

use crate::text::{decimal, push_decimal, chars_of, push_char};
use vstd::string::*;

verus! {

/// Format of an export.
#[derive(Debug, Clone, Copy, PartialEq, Eq, Structural)]
pub enum ExportFormat {
    /// PNG image sequence.
    PngSequence,
    /// H264 video.
    H264,
    /// ProRes video.
    ProRes,
    /// Animated GIF.
    Gif,
    /// WebM video.
    WebM,
}

impl Default for ExportFormat {
    fn default() -> (f: Self)
        ensures
            f == ExportFormat::PngSequence,
    {
        ExportFormat::PngSequence
    }
}

/// A range of frames, counted from one.
#[derive(Debug, Clone, Copy, PartialEq, Eq, Structural)]
pub enum FrameRange {
    All,
    Custom { start: u32, end: u32 },
}

impl Default for FrameRange {
    fn default() -> (r: Self)
        ensures
            r == FrameRange::All,
    {
        FrameRange::All
    }
}

/// `n` clipped into `1..=max(total, 1)`.
pub open spec fn clip_frame(n: u32, total: u32) -> u32 {
    let m = if n <= total { n } else { total };
    if m >= 1 { m } else { 1 }
}

impl FrameRange {
    /// The first frame: 1 for the whole asset, else the start clipped into `1..=total`.
    pub open spec fn spec_start(&self, total_frames: u32) -> u32 {
        match *self {
            FrameRange::All => 1,
            FrameRange::Custom { start, .. } => clip_frame(start, total_frames),
        }
    }

    /// The last frame: `total` for the whole asset, else the end clipped into `1..=total`.
    pub open spec fn spec_end(&self, total_frames: u32) -> u32 {
        match *self {
            FrameRange::All => total_frames,
            FrameRange::Custom { end, .. } => clip_frame(end, total_frames),
        }
    }

    /// The number of frames from start to end, and 1 when the end lies before the start.
    pub open spec fn spec_count(&self, total_frames: u32) -> u32 {
        let s = self.spec_start(total_frames);
        let e = self.spec_end(total_frames);
        if e >= s { (e - s + 1) as u32 } else { 1 }
    }

    /// The first frame of the range, clipped into the asset (never below 1).
    #[verifier::when_used_as_spec(spec_start)]
    pub fn start(&self, total_frames: u32) -> (r: u32)
        ensures
            r == self.spec_start(total_frames),
            *self matches FrameRange::Custom { start, .. } ==> (1 <= start <= total_frames ==> r
                == start),
            *self matches FrameRange::Custom { start, .. } ==> (start >= total_frames >= 1 ==> r
                == total_frames),
    {
        match self {
            FrameRange::All => 1,
            FrameRange::Custom { start, .. } => {
                let m = if *start < total_frames { *start } else { total_frames };
                if m > 1 { m } else { 1 }
            },
        }
    }

    /// The last frame of the range, clipped into the asset (never below 1).
    #[verifier::when_used_as_spec(spec_end)]
    pub fn end(&self, total_frames: u32) -> (r: u32)
        ensures
            r == self.spec_end(total_frames),
            *self matches FrameRange::Custom { end, .. } ==> (1 <= end <= total_frames ==> r
                == end),
            *self matches FrameRange::Custom { end, .. } ==> (end >= total_frames >= 1 ==> r
                == total_frames),
    {
        match self {
            FrameRange::All => total_frames,
            FrameRange::Custom { end, .. } => {
                let m = if *end < total_frames { *end } else { total_frames };
                if m > 1 { m } else { 1 }
            },
        }
    }

    /// The number of frames in the range.
    #[verifier::when_used_as_spec(spec_count)]
    pub fn count(&self, total_frames: u32) -> (r: u32)
        ensures
            r == self.spec_count(total_frames),
            *self matches FrameRange::Custom { start, end } ==> (1 <= start <= end <= total_frames
                ==> r == end - start + 1),
    {
        let start = self.start(total_frames);
        let end = self.end(total_frames);
        if end >= start {
            end - start + 1
        } else {
            1
        }
    }
}

/// Clipping defines bad bounds out of existence: for an asset with frames, start and
/// end lie in `1..=total`, and the count is at least one and at most `total`.
pub proof fn lemma_export_range_clipped(range: FrameRange, total_frames: u32)
    requires
        total_frames >= 1,
    ensures
        1 <= range.spec_start(total_frames) <= total_frames,
        1 <= range.spec_end(total_frames) <= total_frames,
        1 <= range.spec_count(total_frames) <= total_frames,
{
}

/// A custom range keeps the bounds that lie inside the asset (counted from one): a
/// start or an end from 1 to the frame count is returned as it is, one past the asset
/// is clipped to the last frame, and a range from `start` to `end` inside the asset
/// counts `end - start + 1` frames (one frame when `start == end`).
pub proof fn lemma_custom_export_range_inside_asset(start: u32, end: u32, total_frames: u32)
    ensures
        1 <= start <= total_frames ==> (FrameRange::Custom { start, end }).spec_start(
            total_frames,
        ) == start,
        start >= total_frames >= 1 ==> (FrameRange::Custom { start, end }).spec_start(
            total_frames,
        ) == total_frames,
        1 <= end <= total_frames ==> (FrameRange::Custom { start, end }).spec_end(total_frames)
            == end,
        end >= total_frames >= 1 ==> (FrameRange::Custom { start, end }).spec_end(total_frames)
            == total_frames,
        1 <= start <= end <= total_frames ==> (FrameRange::Custom { start, end }).spec_count(
            total_frames,
        ) == end - start + 1,
{
}

/// Every range counts at least one frame, whatever the total.
pub proof fn lemma_export_range_count_positive(range: FrameRange, total_frames: u32)
    ensures
        range.spec_count(total_frames) >= 1,
{
}

/// The whole asset counts all of its frames.
pub proof fn lemma_export_all_counts_total(total_frames: u32)
    requires
        total_frames >= 1,
    ensures
        FrameRange::All.spec_count(total_frames) == total_frames,
{
}

/// Settings of one export.
#[derive(Debug, Clone, PartialEq, Eq)]
pub struct ExportConfig {
    /// The export format.
    pub format: ExportFormat,
    /// The frames to export.
    pub frame_range: FrameRange,
    /// Whether annotations are drawn over the frames.
    pub include_annotations: bool,
    /// Where the export is written.
    pub output_path: String,
}

impl Default for ExportConfig {
    fn default() -> (c: Self)
        ensures
            c.format == ExportFormat::PngSequence,
            c.frame_range == FrameRange::All,
            !c.include_annotations,
            c.output_path@ == Seq::<char>::empty(),
    {
        ExportConfig {
            format: ExportFormat::PngSequence,
            frame_range: FrameRange::All,
            include_annotations: false,
            output_path: String::new(),
        }
    }
}

/// `s` with every backslash turned into a forward slash.
pub open spec fn forward_slashes(s: Seq<char>) -> Seq<char> {
    s.map_values(|c: char| if c == '\\' { '/' } else { c })
}

/// Appends `s` with every backslash turned into a forward slash.
pub fn push_forward_slashes(out: &mut String, s: &str)
    ensures
        final(out)@ == old(out)@ + forward_slashes(s@),
{
    let v = chars_of(s);
    let ghost start = out@;
    let mut i: usize = 0;
    while i < v.len()
        invariant
            i <= v.len(),
            v@ == s@,
            out@ == start + forward_slashes(v@.take(i as int)),
        decreases v.len() - i,
    {
        let c = v[i];
        if c == '\\' {
            push_char(out, '/');
        } else {
            push_char(out, c);
        }
        assert(forward_slashes(v@.take(i + 1)) =~= forward_slashes(v@.take(i as int)).push(
            if c == '\\' { '/' } else { c },
        ));
        i = i + 1;
    }
    assert(v@.take(v.len() as int) =~= v@);
}

/// Text of the Maya script before the image path.
pub const MAYA_SCRIPT_HEAD: &'static str = "# AAM导入脚本 - 手动粘贴到Maya Python中运行\nimport maya.cmds as cmds\n\n# 创建imagePlane\nplane = cmds.imagePlane(fileName='";

/// Text of the Maya script between the image path and the frame rate.
pub const MAYA_SCRIPT_MIDDLE: &'static str = "')\n\n# 设置序列帧\nif cmds.objExists(plane[0]):\n    cmds.setAttr(\"{}.useFrameExtension\".format(plane[0]), 1)\n    cmds.setAttr(\"{}.frameOffset\".format(plane[0]), 1)\n    cmds.setAttr(\"{}.frameCache\".format(plane[0]), 0)  # 不缓存，实时读取\n    \n    # 重命名\n    cmds.rename(plane[0], \"aam_sequence_plane\")\n    print(\"已创建imagePlane: aam_sequence_plane\")\n    print(\"帧率: {}fps\".format(";

/// Text of the Maya script after the frame rate.
pub const MAYA_SCRIPT_TAIL: &'static str = "))\n";

/// Text of the Blender script before the image path.
pub const BLENDER_SCRIPT_HEAD: &'static str = "# AAM导入脚本 - 在Blender Scripting标签页中运行\nimport bpy\n\n# 加载图像序列\nimg = bpy.data.images.load('";

/// Text of the Blender script between the image path and the frame count.
pub const BLENDER_SCRIPT_MIDDLE: &'static str = "')\nimg.source = 'SEQUENCE'\n\n# 创建平面\nbpy.ops.mesh.primitive_plane_add(size=1, location=(0, 0, 0))\nplane = bpy.context.active_object\nplane.name = \"aam_sequence_plane\"\n\n# 创建材质\nmat = bpy.data.materials.new(name=\"aam_sequence_mat\")\nmat.use_nodes = True\nplane.data.materials.append(mat)\n\n# 设置节点\nnodes = mat.node_tree.nodes\nlinks = mat.node_tree.links\n\n# 清除默认节点\nfor node in list(nodes):\n    nodes.remove(node)\n\n# 创建图像纹理节点\ntex_node = nodes.new('ShaderNodeTexImage')\ntex_node.image = img\ntex_node.image_user.frame_start = 1\ntex_node.image_user.frame_duration = ";

/// Text of the Blender script between the two mentions of the frame count.
pub const BLENDER_SCRIPT_COUNT_LINE: &'static str = "\n\n# 创建输出节点\noutput = nodes.new('ShaderNodeOutputMaterial')\noutput.location = (300, 0)\n\n# 连接\nlinks.new(tex_node.outputs['Color'], output.inputs['Base Color'])\n\nprint(\"已创建图像平面: aam_sequence_plane\")\nprint(\"总帧数: {}\".format(";

/// Text of the Blender script after the last frame count.
pub const BLENDER_SCRIPT_TAIL: &'static str = "))\n";

/// The Maya script for the image sequence at `path`, played at the frame rate `fps`
/// (the rate as it is printed).
pub open spec fn maya_script(path: Seq<char>, fps: Seq<char>) -> Seq<char> {
    MAYA_SCRIPT_HEAD@ + forward_slashes(path) + MAYA_SCRIPT_MIDDLE@ + fps + MAYA_SCRIPT_TAIL@
}

/// The Blender script for the image sequence at `path` with `frame_count` frames.
pub open spec fn blender_script(path: Seq<char>, frame_count: u32) -> Seq<char> {
    BLENDER_SCRIPT_HEAD@ + forward_slashes(path) + BLENDER_SCRIPT_MIDDLE@ + decimal(
        frame_count as nat,
    ) + BLENDER_SCRIPT_COUNT_LINE@ + decimal(frame_count as nat) + BLENDER_SCRIPT_TAIL@
}

/// A Python script, to paste into Maya, that creates an image plane playing the
/// sequence at `sequence_path`; `fps` is the frame rate as it should be printed.
pub fn generate_maya_import_script(sequence_path: &str, fps: &str) -> (s: String)
    ensures
        s@ == maya_script(sequence_path@, fps@),
{
    let mut s = String::from_str(MAYA_SCRIPT_HEAD);
    push_forward_slashes(&mut s, sequence_path);
    s.append(MAYA_SCRIPT_MIDDLE);
    s.append(fps);
    s.append(MAYA_SCRIPT_TAIL);
    s
}

/// A Python script, to run in Blender, that maps the sequence at `sequence_path`
/// onto a plane as a texture of `frame_count` frames.
pub fn generate_blender_import_script(sequence_path: &str, frame_count: u32) -> (s: String)
    ensures
        s@ == blender_script(sequence_path@, frame_count),
{
    let mut s = String::from_str(BLENDER_SCRIPT_HEAD);
    push_forward_slashes(&mut s, sequence_path);
    s.append(BLENDER_SCRIPT_MIDDLE);
    push_decimal(&mut s, frame_count as u64);
    s.append(BLENDER_SCRIPT_COUNT_LINE);
    push_decimal(&mut s, frame_count as u64);
    s.append(BLENDER_SCRIPT_TAIL);
    s
}

} // verus!
