//! What the application's commands compute: import scripts, the format and size
//! of an imported file, export plans, frame data URLs and download names.
use vstd::prelude::*;

use base64::Engine;

use crate::dcc;
use crate::dcc::{generate_blender_import_script, generate_maya_import_script, blender_script, maya_script};
use crate::models;
use crate::models::{AssetFormat, H264Quality};
use crate::paths::{
    extension, extension_of_path, file_name, path_extension, join_path, path_join,
    lemma_extension_after_dot, lemma_extension_has_no_dot, lemma_file_name_has_no_separator,
    lemma_join_file_name,
};
use crate::text::{
    chars_of, char_vec_views, decimal, parse_u32, parse_u32_spec, push_decimal, split_at_char,
    split_char, str_equal, trim, trim_chars, string_of, IntErrorKind, lemma_split_char_nonempty, lemma_concat_lacks, lemma_decimal,
    all_digits, piece_of,
};
use vstd::std_specs::convert::FromSpecImpl;
use vstd::string::*;

verus! {

// ---------------------------------------------------------------------------
// Converting export settings into export records
// ---------------------------------------------------------------------------

impl From<dcc::ExportFormat> for models::ExportFormat {
    fn from(f: dcc::ExportFormat) -> (r: Self) {
        match f {
            dcc::ExportFormat::PngSequence => models::ExportFormat::ImageSequence,
            dcc::ExportFormat::H264 => models::ExportFormat::H264 { quality: H264Quality::High },
            dcc::ExportFormat::ProRes => models::ExportFormat::ProRes,
            dcc::ExportFormat::Gif => models::ExportFormat::Gif,
            dcc::ExportFormat::WebM => models::ExportFormat::Webm,
        }
    }
}

impl FromSpecImpl<dcc::ExportFormat> for models::ExportFormat {
    open spec fn obeys_from_spec() -> bool {
        true
    }

    open spec fn from_spec(f: dcc::ExportFormat) -> models::ExportFormat {
        match f {
            dcc::ExportFormat::PngSequence => models::ExportFormat::ImageSequence,
            dcc::ExportFormat::H264 => models::ExportFormat::H264 { quality: H264Quality::High },
            dcc::ExportFormat::ProRes => models::ExportFormat::ProRes,
            dcc::ExportFormat::Gif => models::ExportFormat::Gif,
            dcc::ExportFormat::WebM => models::ExportFormat::Webm,
        }
    }
}

impl From<dcc::FrameRange> for models::FrameRange {
    fn from(r: dcc::FrameRange) -> (m: Self) {
        match r {
            dcc::FrameRange::All => models::FrameRange::All,
            dcc::FrameRange::Custom { start, end } => models::FrameRange::Custom { start, end },
        }
    }
}

impl FromSpecImpl<dcc::FrameRange> for models::FrameRange {
    open spec fn obeys_from_spec() -> bool {
        true
    }

    open spec fn from_spec(r: dcc::FrameRange) -> models::FrameRange {
        match r {
            dcc::FrameRange::All => models::FrameRange::All,
            dcc::FrameRange::Custom { start, end } => models::FrameRange::Custom { start, end },
        }
    }
}

// ---------------------------------------------------------------------------
// Import scripts
// ---------------------------------------------------------------------------

/// The import script for the DCC tool named `dcc`: Maya's for `maya`, Blender's for
/// `blender`; any other name is refused with `Unsupported DCC: ` and the name.
pub open spec fn import_script(dcc: Seq<char>, sequence_path: Seq<char>, fps: Seq<char>, frame_count: u32) -> Result<Seq<char>, Seq<char>> {
    if dcc == "maya"@ {
        Ok(maya_script(sequence_path, fps))
    } else if dcc == "blender"@ {
        Ok(blender_script(sequence_path, frame_count))
    } else {
        Err("Unsupported DCC: "@ + dcc)
    }
}

/// The import script for the DCC tool `dcc` (`maya` or `blender`); `fps` is the frame
/// rate as it should be printed.
pub fn generate_import_script(dcc: &str, sequence_path: &str, fps: &str, frame_count: u32) -> (r:
    Result<String, String>)
    ensures
        match r {
            Ok(s) => import_script(dcc@, sequence_path@, fps@, frame_count) == Ok::<
                Seq<char>,
                Seq<char>,
            >(s@),
            Err(e) => import_script(dcc@, sequence_path@, fps@, frame_count) == Err::<
                Seq<char>,
                Seq<char>,
            >(e@),
        },
{
    if str_equal(dcc, "maya") {
        Ok(generate_maya_import_script(sequence_path, fps))
    } else if str_equal(dcc, "blender") {
        Ok(generate_blender_import_script(sequence_path, frame_count))
    } else {
        let mut e = String::from_str("Unsupported DCC: ");
        e.append(dcc);
        Err(e)
    }
}

// ---------------------------------------------------------------------------
// Probing an imported file
// ---------------------------------------------------------------------------

/// The asset format that a file extension stands for.
pub open spec fn format_for_extension(ext: Seq<char>) -> Option<AssetFormat> {
    if ext == "gif"@ {
        Some(AssetFormat::Gif)
    } else if ext == "webm"@ {
        Some(AssetFormat::Webm)
    } else if ext == "mp4"@ {
        Some(AssetFormat::Mp4)
    } else if ext == "mov"@ {
        Some(AssetFormat::Mov)
    } else if ext == "png"@ {
        Some(AssetFormat::Png)
    } else if ext == "jpg"@ || ext == "jpeg"@ {
        Some(AssetFormat::Jpg)
    } else {
        None
    }
}

/// The asset format of the file at `path`, judged by its extension; none when the
/// extension is missing or unknown.
pub open spec fn format_for_path(path: Seq<char>) -> Option<AssetFormat> {
    match path_extension(path) {
        Some(ext) => format_for_extension(ext),
        None => None,
    }
}

/// The asset format of the file at `path`, judged by its extension.
pub fn format_from_path(path: &str) -> (r: Option<AssetFormat>)
    ensures
        r == format_for_path(path@),
{
    match extension_of_path(path) {
        Some(ext) => {
            let e = ext.as_str();
            if str_equal(e, "gif") {
                Some(AssetFormat::Gif)
            } else if str_equal(e, "webm") {
                Some(AssetFormat::Webm)
            } else if str_equal(e, "mp4") {
                Some(AssetFormat::Mp4)
            } else if str_equal(e, "mov") {
                Some(AssetFormat::Mov)
            } else if str_equal(e, "png") {
                Some(AssetFormat::Png)
            } else if str_equal(e, "jpg") || str_equal(e, "jpeg") {
                Some(AssetFormat::Jpg)
            } else {
                None
            }
        },
        None => None,
    }
}

/// How the size and rate of an asset are found out.
#[derive(Debug, Clone, Copy, PartialEq, Eq, Structural)]
pub enum ProbeMethod {
    /// Read the image header; still images play at 30 frames per second.
    ImageHeader,
    /// Ask `ffprobe` about the first video stream.
    Ffprobe,
}

/// Still images are measured from their header, everything else by `ffprobe`.
pub fn probe_method(format: AssetFormat) -> (m: ProbeMethod)
    ensures
        m == (if format == AssetFormat::Png || format == AssetFormat::Jpg {
            ProbeMethod::ImageHeader
        } else {
            ProbeMethod::Ffprobe
        }),
{
    match format {
        AssetFormat::Png | AssetFormat::Jpg => ProbeMethod::ImageHeader,
        _ => ProbeMethod::Ffprobe,
    }
}

/// Why the answer of `ffprobe` could not be read.
#[derive(Debug, Clone, Copy, PartialEq, Eq, Structural)]
pub enum ProbeError {
    /// Fewer than two `x`-separated fields.
    MissingFields,
    /// The width field is no number.
    Width(IntErrorKind),
    /// The height field is no number.
    Height(IntErrorKind),
}

/// What `ffprobe` said about a video stream.
#[derive(Debug, Clone, PartialEq, Eq)]
pub struct ProbeInfo {
    pub width: u32,
    pub height: u32,
    /// The second and third fields, from which the frame rate is computed as their
    /// quotient; none when there is no third field (the rate is then 30).
    pub rate_fields: Option<(String, String)>,
}

/// The reading of `ffprobe`'s `WIDTHxHEIGHTx...` answer: the trimmed text is split at
/// `x`; the first field is the width, the second up to any `/` the height.
pub open spec fn probe_result(info: Seq<char>) -> Result<(u32, u32, Option<(Seq<char>, Seq<char>)>), ProbeError> {
    let parts = split_char(trim(info), 'x');
    if parts.len() < 2 {
        Err(ProbeError::MissingFields)
    } else {
        match parse_u32_spec(parts[0]) {
            Err(e) => Err(ProbeError::Width(e)),
            Ok(w) => match parse_u32_spec(split_char(parts[1], '/')[0]) {
                Err(e) => Err(ProbeError::Height(e)),
                Ok(h) => Ok(
                    (
                        w,
                        h,
                        if parts.len() >= 3 {
                            Some((parts[1], parts[2]))
                        } else {
                            None
                        },
                    ),
                ),
            },
        }
    }
}

/// Reads the answer of `ffprobe -show_entries stream=width,height,r_frame_rate -of csv=s=x:p=0`.
pub fn parse_probe_output(info: &str) -> (r: Result<ProbeInfo, ProbeError>)
    ensures
        match probe_result(info@) {
            Ok((w, h, rate)) => r matches Ok(p) && p.width == w && p.height == h && match rate {
                Some((a, b)) => p.rate_fields matches Some((x, y)) && x@ == a && y@ == b,
                None => p.rate_fields is None,
            },
            Err(e) => r == Err::<ProbeInfo, ProbeError>(e),
        },
{
    let v = chars_of(info);
    let t = trim_chars(&v);
    let parts = split_at_char(&t, 'x');
    let ghost views = char_vec_views(parts@);
    assert(views.len() == parts.len());
    if parts.len() < 2 {
        return Err(ProbeError::MissingFields);
    }
    assert(views[0] == parts[0]@ && views[1] == parts[1]@);
    let width = match parse_u32(&parts[0]) {
        Ok(w) => w,
        Err(e) => return Err(ProbeError::Width(e)),
    };
    let hp = split_at_char(&parts[1], '/');
    proof {
        lemma_split_char_nonempty(parts[1]@, '/');
    }
    assert(char_vec_views(hp@)[0] == hp[0]@);
    let height = match parse_u32(&hp[0]) {
        Ok(h) => h,
        Err(e) => return Err(ProbeError::Height(e)),
    };
    let rate_fields = if parts.len() >= 3 {
        assert(views[2] == parts[2]@);
        Some((string_of(&parts[1], 0, parts[1].len()), string_of(&parts[2], 0, parts[2].len())))
    } else {
        None
    };
    proof {
        assert(parts[1]@.subrange(0, parts[1]@.len() as int) =~= parts[1]@);
        if parts.len() >= 3 {
            assert(parts[2]@.subrange(0, parts[2]@.len() as int) =~= parts[2]@);
        }
    }
    Ok(ProbeInfo { width, height, rate_fields })
}

// ---------------------------------------------------------------------------
// Frame data
// ---------------------------------------------------------------------------

/// The character of a six-bit value in the standard Base64 alphabet
/// (`A`-`Z`, `a`-`z`, `0`-`9`, `+`, `/`).
pub open spec fn base64_char(v: int) -> char {
    if v < 26 {
        (65 + v) as char
    } else if v < 52 {
        (97 + (v - 26)) as char
    } else if v < 62 {
        (48 + (v - 52)) as char
    } else if v == 62 {
        '+'
    } else {
        '/'
    }
}

/// Standard Base64 with padding (RFC 4648): every three bytes become four characters
/// of six bits each; a final one or two bytes become two or three characters and
/// `=` signs up to four.
pub open spec fn base64_standard(data: Seq<u8>) -> Seq<char>
    decreases data.len(),
{
    if data.len() == 0 {
        seq![]
    } else {
        let b0 = data[0] as int;
        if data.len() == 1 {
            seq![base64_char(b0 / 4), base64_char((b0 % 4) * 16), '=', '=']
        } else {
            let b1 = data[1] as int;
            if data.len() == 2 {
                seq![
                    base64_char(b0 / 4),
                    base64_char((b0 % 4) * 16 + b1 / 16),
                    base64_char((b1 % 16) * 4),
                    '=',
                ]
            } else {
                let b2 = data[2] as int;
                seq![
                    base64_char(b0 / 4),
                    base64_char((b0 % 4) * 16 + b1 / 16),
                    base64_char((b1 % 16) * 4 + b2 / 64),
                    base64_char(b2 % 64),
                ] + base64_standard(data.skip(3))
            }
        }
    }
}

/// `base64::engine::general_purpose::STANDARD.encode`: the contract claims the
/// standard alphabet with `=` padding, as the crate documents it. The length bound
/// keeps the encoder clear of its size overflow panic.
#[verifier::external_body]
fn encode_base64(data: &[u8]) -> (s: String)
    requires
        data@.len() <= usize::MAX / 2,
    ensures
        s@ == base64_standard(data@),
{
    base64::engine::general_purpose::STANDARD.encode(data)
}

/// The data URL of a PNG image whose Base64 text is `encoded`.
pub fn png_data_url(encoded: &str) -> (s: String)
    ensures
        s@ == "data:image/png;base64,"@ + encoded@,
{
    let mut s = String::from_str("data:image/png;base64,");
    s.append(encoded);
    s
}

/// The data URL of the PNG frame file whose bytes are `data`.
pub fn frame_data_url(data: &[u8]) -> (s: String)
    requires
        data@.len() <= usize::MAX / 2,
    ensures
        s@ == "data:image/png;base64,"@ + base64_standard(data@),
{
    let encoded = encode_base64(data);
    png_data_url(encoded.as_str())
}

// ---------------------------------------------------------------------------
// Files of an imported asset
// ---------------------------------------------------------------------------

/// The thumbnail of an asset lives in its frame directory as `thumbnail.jpg`.
pub fn thumbnail_path(frame_directory: &str) -> (p: String)
    ensures
        p@ == path_join(frame_directory@, "thumbnail.jpg"@),
{
    join_path(frame_directory, "thumbnail.jpg")
}

/// The extension under which a downloaded post is stored: that of its file URL, or
/// `webm` when the URL has none.
pub open spec fn download_extension_spec(file_url: Seq<char>) -> Seq<char> {
    match path_extension(file_url) {
        Some(ext) => ext,
        None => "webm"@,
    }
}

/// The extension under which a downloaded post is stored.
pub fn download_extension(file_url: &str) -> (e: String)
    ensures
        e@ == download_extension_spec(file_url@),
{
    match extension_of_path(file_url) {
        Some(ext) => ext,
        None => String::from_str("webm"),
    }
}

/// The file name of a downloaded post: `sakuga_`, the post id, a unique text, and the extension.
pub fn sakuga_download_file_name(post_id: u32, unique: &str, extension: &str) -> (s: String)
    ensures
        s@ == sakuga_download_name(post_id, unique@, extension@),
{
    let mut s = String::from_str("sakuga_");
    push_decimal(&mut s, post_id as u64);
    s.append(".");
    s.append(unique);
    s.append(".");
    s.append(extension);
    s
}


/// The stored file name of a downloaded post.
pub open spec fn sakuga_download_name(post_id: u32, unique: Seq<char>, extension: Seq<char>) -> Seq<char> {
    "sakuga_"@ + decimal(post_id as nat) + "."@ + unique + "."@ + extension
}

/// The extension chosen for a download holds neither a dot nor a separator.
proof fn lemma_download_extension_plain(file_url: Seq<char>)
    ensures
        !download_extension_spec(file_url).contains('.'),
        !download_extension_spec(file_url).contains('/'),
{
    reveal_strlit("webm");
    lemma_file_name_has_no_separator(file_url);
    match file_name(file_url) {
        Some(n) => {
            lemma_extension_has_no_dot(n);
            if let Some(e) = extension(n) {
                assert(!e.contains('/')) by {
                    if e.contains('/') {
                        let m = choose|m: int| 0 <= m < e.len() && e[m] == '/';
                        assert(piece_of(e, n, '.'));
                        assert(n.contains(e[m]));
                    }
                }
            }
        },
        None => {},
    }
}

/// A downloaded post keeps its extension: the file it is stored in, in any
/// directory, has the extension chosen for it, so the format of the imported asset is
/// judged by that extension.
pub proof fn lemma_download_keeps_extension(
    dir: Seq<char>,
    post_id: u32,
    unique: Seq<char>,
    file_url: Seq<char>,
)
    requires
        !unique.contains('/'),
    ensures
        path_extension(
            path_join(dir, sakuga_download_name(post_id, unique, download_extension_spec(file_url))),
        ) == Some(download_extension_spec(file_url)),
        format_for_path(
            path_join(dir, sakuga_download_name(post_id, unique, download_extension_spec(file_url))),
        ) == format_for_extension(download_extension_spec(file_url)),
{
    reveal_strlit("sakuga_");
    reveal_strlit(".");
    let ext = download_extension_spec(file_url);
    lemma_download_extension_plain(file_url);
    let d = decimal(post_id as nat);
    lemma_decimal(post_id as nat);
    assert(!d.contains('/')) by {
        if d.contains('/') {
            let m = choose|m: int| 0 <= m < d.len() && d[m] == '/';
            assert(all_digits(d));
        }
    }
    let head = "sakuga_"@;
    assert(!head.contains('/')) by {
        if head.contains('/') {
            let m = choose|m: int| 0 <= m < head.len() && head[m] == '/';
        }
    }
    let dot = "."@;
    assert(dot =~= seq!['.']);
    assert(!dot.contains('/')) by {
        if dot.contains('/') {
            let m = choose|m: int| 0 <= m < dot.len() && dot[m] == '/';
        }
    }
    let stem = head + d + dot + unique;
    lemma_concat_lacks(head, d, '/');
    lemma_concat_lacks(head + d, dot, '/');
    lemma_concat_lacks(head + d + dot, unique, '/');
    lemma_concat_lacks(stem, dot, '/');
    lemma_concat_lacks(stem + dot, ext, '/');
    let name = sakuga_download_name(post_id, unique, ext);
    assert(name =~= stem + seq!['.'] + ext);
    assert(stem[0] == 's');
    assert(name[0] == 's');
    assert(name != "."@) by {
        reveal_strlit(".");
    }
    assert(name != ".."@) by {
        reveal_strlit("..");
        if name == ".."@ {
            assert(name[0] == '.');
        }
    }
    lemma_join_file_name(dir, name);
    lemma_extension_after_dot(stem, ext);
}

} // verus!
