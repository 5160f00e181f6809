use animation_asset_manager::models::{AssetFormat, ExportFormat, FrameRange, H264Quality};
use animation_asset_manager::services::decoder_service::{
    decode_method, frame_file_path, gif_frame, video_frames, DecodeMethod, DecoderService,
};
use animation_asset_manager::services::encoder_service::{
    export_frame_bounds, ffmpeg_arguments, frame_copy_plan, png_sequence_plan, EncodeError,
    EncoderService, GIF_FILTER,
};
use animation_asset_manager::services::sakugabooru_client::{
    parse_sakuga_tags, post_page_url, post_url, search_query, search_url, SearchOptions,
};
use animation_asset_manager::models::TagCategory;
use animation_asset_manager::dcc;
use animation_asset_manager::services::decoder_service::{
    decode_gif_frames, decode_still_image_frame, still_image_size, FrameDecodeError,
};
use animation_asset_manager::services::storage_service::StoragePaths;

#[test]
fn store_directories() {
    let p = StoragePaths::new("/data");
    assert_eq!(p.data_dir, "/data");
    assert_eq!(p.assets_dir, "/data/assets");
    assert_eq!(p.frames_dir, "/data/frames");
    assert_eq!(p.database_path(), "/data/aam.db");
    assert_eq!(p.get_temp_dir(), "/data/temp");
    assert_eq!(p.get_frame_dir("abc"), "/data/frames/abc");
    assert_eq!(p.get_frame_path("abc", 7), "/data/frames/abc/frame_000007.png");
}

#[test]
fn decoded_frames_are_found_by_the_store() {
    let p = StoragePaths::new("/data/");
    let dir = p.get_frame_dir("asset-1");
    for i in [0u32, 1, 42, 1000000] {
        assert_eq!(frame_file_path(&dir, i), p.get_frame_path("asset-1", i));
    }
}

#[test]
fn decoders_by_format() {
    assert_eq!(decode_method(AssetFormat::Gif), Some(DecodeMethod::Gif));
    assert_eq!(decode_method(AssetFormat::Webm), Some(DecodeMethod::Video));
    assert_eq!(decode_method(AssetFormat::Mp4), Some(DecodeMethod::Video));
    assert_eq!(decode_method(AssetFormat::Mov), Some(DecodeMethod::Video));
    assert_eq!(decode_method(AssetFormat::Png), Some(DecodeMethod::StillImage));
    assert_eq!(decode_method(AssetFormat::Jpg), Some(DecodeMethod::StillImage));
    assert_eq!(decode_method(AssetFormat::ImageSequence), None);
    let d = DecoderService::new("/data/frames".to_string());
    assert_eq!(d.frames_base_dir(), "/data/frames");
}

#[test]
fn gif_frame_records() {
    let f = gif_frame("asset-1", 3, 7);
    assert_eq!(f.asset_id, "asset-1");
    assert_eq!(f.index, 3);
    assert_eq!(f.timestamp_ms, 70);
    assert_eq!(f.filename, "frame_000003.png");
    assert!(!f.has_annotation);
}

#[test]
fn video_frames_follow_the_listing() {
    let names: Vec<String> = ["frame_000001.png", "notes.txt", "frame_000002.png", "frame.PNG"]
        .iter()
        .map(|s| s.to_string())
        .collect();
    let frames = video_frames("v", &names);
    assert_eq!(frames.len(), 2);
    assert_eq!((frames[0].index, frames[0].timestamp_ms), (0, 0));
    assert_eq!(frames[0].filename, "frame_000001.png");
    assert_eq!((frames[1].index, frames[1].timestamp_ms), (2, 66));
    assert_eq!(frames[1].filename, "frame_000002.png");
    assert!(frames.iter().all(|f| f.asset_id == "v" && !f.has_annotation));
    assert!(video_frames("v", &Vec::new()).is_empty());
}

#[test]
fn ffmpeg_arguments_for_h264() {
    let args = ffmpeg_arguments(
        "24",
        "/data/frames/a",
        100,
        "/out/a.mp4",
        ExportFormat::H264 { quality: H264Quality::Medium },
        FrameRange::Custom { start: 10, end: 20 },
    )
    .unwrap();
    let expected = [
        "-framerate", "24", "-start_number", "10", "-i", "/data/frames/a/frame_%06d.png",
        "-frames:v", "11", "-c:v", "libx264", "-crf", "23", "-pix_fmt", "yuv420p", "-movflags",
        "+faststart", "-y", "/out/a.mp4",
    ];
    assert_eq!(args, expected.iter().map(|s| s.to_string()).collect::<Vec<_>>());
}

#[test]
fn ffmpeg_arguments_per_format() {
    let prores = ffmpeg_arguments("30", "d", 5, "o.mov", ExportFormat::ProRes, FrameRange::All).unwrap();
    assert_eq!(&prores[..8], &["-framerate", "30", "-start_number", "1", "-i", "d/frame_%06d.png", "-frames:v", "5"]);
    assert_eq!(&prores[8..], &["-c:v", "prores_ks", "-profile:v", "3", "-pix_fmt", "yuv422p10le", "-y", "o.mov"]);
    let gif = ffmpeg_arguments("30", "d", 5, "o.gif", ExportFormat::Gif, FrameRange::All).unwrap();
    assert_eq!(&gif[8..], &["-vf", GIF_FILTER, "-loop", "0", "-y", "o.gif"]);
    let webm = ffmpeg_arguments("30", "d", 5, "o.webm", ExportFormat::Webm, FrameRange::All).unwrap();
    assert_eq!(&webm[8..], &["-c:v", "libvpx-vp9", "-crf", "30", "-b:v", "0", "-y", "o.webm"]);
    let lossless = ffmpeg_arguments("30", "d", 5, "o.mp4", ExportFormat::H264 { quality: H264Quality::Lossless }, FrameRange::All).unwrap();
    assert_eq!(lossless[11], "0");
    for f in [ExportFormat::ImageSequence, ExportFormat::MayaPlayblast, ExportFormat::BlenderViewport] {
        assert_eq!(ffmpeg_arguments("30", "d", 5, "o", f, FrameRange::All), Err(EncodeError::UnsupportedFormat));
    }
}

#[test]
fn export_bounds_are_clipped() {
    assert_eq!(export_frame_bounds(FrameRange::All, 40), (1, 40));
    assert_eq!(export_frame_bounds(FrameRange::Custom { start: 5, end: 500 }, 40), (5, 40));
    assert_eq!(export_frame_bounds(FrameRange::Custom { start: 90, end: 95 }, 40), (40, 40));
    // Reversed bounds ask for one frame.
    let args = ffmpeg_arguments("30", "d", 40, "o.mp4", ExportFormat::ProRes, FrameRange::Custom { start: 30, end: 10 }).unwrap();
    assert_eq!(args[7], "1");
    let e = EncoderService::new("/data".to_string());
    assert_eq!(e.app_data_dir(), "/data");
}

#[test]
fn frame_copies() {
    let plan = frame_copy_plan("/f", "/out", 3, 5);
    assert_eq!(plan.len(), 3);
    assert_eq!(plan[0], ("/f/frame_000003.png".to_string(), "/out/frame_000003.png".to_string()));
    assert_eq!(plan[2], ("/f/frame_000005.png".to_string(), "/out/frame_000005.png".to_string()));
    assert!(frame_copy_plan("/f", "/out", 5, 3).is_empty());
    let all = png_sequence_plan("/f", "/out", dcc::FrameRange::All, 4);
    assert_eq!(all.len(), 4);
    assert_eq!(all[0].0, "/f/frame_000001.png");
    assert_eq!(all[3].1, "/out/frame_000004.png");
    let clipped = png_sequence_plan("/f", "/out", dcc::FrameRange::Custom { start: 2, end: 100 }, 4);
    assert_eq!(clipped.len(), 3);
    assert_eq!(clipped[0].0, "/f/frame_000002.png");
    assert_eq!(clipped[2].0, "/f/frame_000004.png");
    let from_zero = png_sequence_plan("/f", "/out", dcc::FrameRange::Custom { start: 0, end: 0 }, 4);
    assert_eq!(from_zero.len(), 1);
    assert_eq!(from_zero[0].0, "/f/frame_000001.png");
}

#[test]
fn sakuga_addresses() {
    assert_eq!(search_url(), "https://www.sakugabooru.com/post.json");
    assert_eq!(post_url(4242), "https://www.sakugabooru.com/post/4242.json");
    assert_eq!(post_page_url(7), "https://www.sakugabooru.com/post/show/7");
    let q = search_query(&SearchOptions { query: "fire effects".to_string(), page: 2, limit: 40 });
    assert_eq!(
        q,
        vec![
            ("tags".to_string(), "fire effects".to_string()),
            ("page".to_string(), "2".to_string()),
            ("limit".to_string(), "40".to_string())
        ]
    );
}

#[test]
fn sakuga_tags_are_split_and_categorised() {
    let tags = parse_sakuga_tags("  sakuga Yutaka_Nakamura\tnaruto_shippuuden wildfire\nartist_name plain smoke_effects genga ");
    let names: Vec<&str> = tags.iter().map(|(n, _)| n.as_str()).collect();
    assert_eq!(
        names,
        vec!["sakuga", "Yutaka_Nakamura", "naruto_shippuuden", "wildfire", "artist_name", "plain", "smoke_effects", "genga"]
    );
    let cats: Vec<TagCategory> = tags.iter().map(|(_, c)| *c).collect();
    assert_eq!(
        cats,
        vec![
            TagCategory::Meta,
            TagCategory::Artist,
            TagCategory::Copyright,
            TagCategory::General,
            TagCategory::General,
            TagCategory::General,
            TagCategory::General,
            TagCategory::Meta
        ]
    );
    assert!(parse_sakuga_tags("").is_empty());
    assert!(parse_sakuga_tags(" \t\n\u{3000}").is_empty());
    assert_eq!(parse_sakuga_tags("Élan")[0].1, TagCategory::Artist);
    assert_eq!(parse_sakuga_tags("key_animation")[0].1, TagCategory::Meta);
    assert_eq!(parse_sakuga_tags("attack_on_titan")[0].1, TagCategory::General);
    assert_eq!(parse_sakuga_tags("naruto")[0].1, TagCategory::General);
    assert_eq!(parse_sakuga_tags("Hiroyuki_Imaishi")[0].1, TagCategory::Artist);
    let tags = parse_sakuga_tags("genga  fire\tHiroyuki_Imaishi\nnaruto one_piece artist_x genga ");
    let expected = vec![
        ("genga", TagCategory::Meta),
        ("fire", TagCategory::General),
        ("Hiroyuki_Imaishi", TagCategory::Artist),
        ("naruto", TagCategory::General),
        ("one_piece", TagCategory::Copyright),
        ("artist_x", TagCategory::General),
        ("genga", TagCategory::Meta),
    ];
    assert_eq!(tags, expected.into_iter().map(|(n, c)| (n.to_string(), c)).collect::<Vec<_>>());
}

#[test]
fn sakuga_tags_are_clean_words() {
    let text = "a\u{a0}b\u{2003}c  d\r\ne";
    let tags = parse_sakuga_tags(text);
    let expected: Vec<&str> = text.split_whitespace().collect();
    let got: Vec<&str> = tags.iter().map(|(n, _)| n.as_str()).collect();
    assert_eq!(got, expected);
    for (n, _) in &tags {
        assert!(!n.is_empty());
        assert!(!n.chars().any(char::is_whitespace));
    }
}

fn small_gif() -> Vec<u8> {
    let mut bytes = Vec::new();
    {
        let palette = [0u8, 0, 0, 255, 255, 255];
        let mut enc = gif::Encoder::new(&mut bytes, 2, 2, &palette).unwrap();
        for delay in [5u16, 12] {
            let mut frame = gif::Frame::default();
            frame.width = 2;
            frame.height = 2;
            frame.delay = delay;
            frame.buffer = std::borrow::Cow::Owned(vec![0, 1, 1, 0]);
            enc.write_frame(&frame).unwrap();
        }
    }
    bytes
}

fn small_png(w: u32, h: u32) -> Vec<u8> {
    let img = image::RgbaImage::from_pixel(w, h, image::Rgba([10, 20, 30, 255]));
    let mut out = std::io::Cursor::new(Vec::new());
    img.write_to(&mut out, image::ImageFormat::Png).unwrap();
    out.into_inner()
}

#[test]
fn gif_frames_become_png_files() {
    let frames = decode_gif_frames("g", "/frames/g", &small_gif()).unwrap();
    assert_eq!(frames.len(), 2);
    assert_eq!(frames[0].path, "/frames/g/frame_000000.png");
    assert_eq!(frames[1].path, "/frames/g/frame_000001.png");
    assert_eq!((frames[0].frame.index, frames[0].frame.timestamp_ms), (0, 50));
    assert_eq!((frames[1].frame.index, frames[1].frame.timestamp_ms), (1, 120));
    assert_eq!(frames[1].frame.filename, "frame_000001.png");
    assert_eq!((frames[0].width, frames[0].height), (2, 2));
    let back = image::load_from_memory_with_format(&frames[0].png, image::ImageFormat::Png).unwrap().to_rgba8();
    assert_eq!(back.dimensions(), (2, 2));
    assert_eq!(back.get_pixel(1, 0).0, [255, 255, 255, 255]);
}

#[test]
fn broken_gif_is_reported() {
    assert!(matches!(decode_gif_frames("g", "/f", b"not a gif"), Err(FrameDecodeError::Gif(_))));
    let mut truncated = small_gif();
    truncated.truncate(20);
    assert!(decode_gif_frames("g", "/f", &truncated).is_err());
}

#[test]
fn still_images_become_one_frame() {
    let png = small_png(3, 2);
    assert_eq!(still_image_size(&png, AssetFormat::Png), Some((3, 2)));
    assert_eq!(still_image_size(&png, AssetFormat::Jpg), None);
    assert_eq!(still_image_size(&png, AssetFormat::Gif), None);
    assert_eq!(still_image_size(b"junk", AssetFormat::Png), None);
    let d = decode_still_image_frame("s", "/frames/s", &png, AssetFormat::Png).unwrap();
    assert_eq!(d.path, "/frames/s/frame_000000.png");
    assert_eq!((d.frame.index, d.frame.timestamp_ms), (0, 0));
    assert_eq!(d.frame.filename, "frame_000000.png");
    assert_eq!((d.width, d.height), (3, 2));
    let back = image::load_from_memory(&d.png).unwrap().to_rgba8();
    assert_eq!(back.get_pixel(2, 1).0, [10, 20, 30, 255]);
    let mut jpg = std::io::Cursor::new(Vec::new());
    image::RgbImage::from_pixel(4, 5, image::Rgb([1, 2, 3])).write_to(&mut jpg, image::ImageFormat::Jpeg).unwrap();
    assert_eq!(still_image_size(jpg.get_ref(), AssetFormat::Jpg), Some((4, 5)));
    assert!(matches!(decode_still_image_frame("s", "/f", b"junk", AssetFormat::Png), Err(FrameDecodeError::UnreadableImage)));
    assert!(matches!(decode_still_image_frame("s", "/f", &png, AssetFormat::Mp4), Err(FrameDecodeError::NotStillImage)));
}

#[test]
fn tags_of_joined_texts() {
    for (a, b) in [("sakuga fire", "Yutaka_Nakamura"), ("", "x y"), ("a ", " b"), ("", "")] {
        let mut both = parse_sakuga_tags(a);
        both.extend(parse_sakuga_tags(b));
        assert_eq!(parse_sakuga_tags(&format!("{} {}", a, b)), both);
    }
}

#[test]
fn gif_with_zero_area_frame_is_refused() {
    let mut bytes = Vec::new();
    {
        let palette = [0u8, 0, 0, 255, 255, 255];
        let mut enc = gif::Encoder::new(&mut bytes, 2, 2, &palette).unwrap();
        let mut frame = gif::Frame::default();
        frame.width = 2;
        frame.height = 2;
        frame.buffer = std::borrow::Cow::Owned(vec![0, 1, 1, 0]);
        enc.write_frame(&frame).unwrap();
        let mut empty = gif::Frame::default();
        empty.width = 0;
        empty.height = 0;
        empty.buffer = std::borrow::Cow::Owned(vec![]);
        if enc.write_frame(&empty).is_err() {
            return;
        }
    }
    // The decoder or the PNG encoder refuses the empty frame; the earlier frame alone is no success.
    assert!(decode_gif_frames("g", "/f", &bytes).is_err());
}
