use animation_asset_manager::commands::{
    download_extension, format_from_path, frame_data_url, generate_import_script,
    parse_probe_output, png_data_url, probe_method, sakuga_download_file_name, thumbnail_path,
    ProbeError, ProbeMethod,
};
use animation_asset_manager::dcc;
use animation_asset_manager::models::{self, AssetFormat, H264Quality};
use animation_asset_manager::text::IntErrorKind;

#[test]
fn import_script_for_each_tool() {
    let maya = generate_import_script("maya", "/seq/frame_000001.png", "24", 10).unwrap();
    assert_eq!(maya, dcc::generate_maya_import_script("/seq/frame_000001.png", "24"));
    let blender = generate_import_script("blender", "/seq/frame_000001.png", "24", 10).unwrap();
    assert_eq!(blender, dcc::generate_blender_import_script("/seq/frame_000001.png", 10));
    assert_eq!(
        generate_import_script("nuke", "/seq/frame_000001.png", "24", 10),
        Err("Unsupported DCC: nuke".to_string())
    );
    assert_eq!(
        generate_import_script("Maya", "x", "24", 1),
        Err("Unsupported DCC: Maya".to_string())
    );
}

#[test]
fn export_settings_convert_to_records() {
    assert_eq!(models::ExportFormat::from(dcc::ExportFormat::PngSequence), models::ExportFormat::ImageSequence);
    assert_eq!(
        models::ExportFormat::from(dcc::ExportFormat::H264),
        models::ExportFormat::H264 { quality: H264Quality::High }
    );
    assert_eq!(models::ExportFormat::from(dcc::ExportFormat::ProRes), models::ExportFormat::ProRes);
    assert_eq!(models::ExportFormat::from(dcc::ExportFormat::Gif), models::ExportFormat::Gif);
    assert_eq!(models::ExportFormat::from(dcc::ExportFormat::WebM), models::ExportFormat::Webm);
    assert_eq!(models::FrameRange::from(dcc::FrameRange::All), models::FrameRange::All);
    assert_eq!(
        models::FrameRange::from(dcc::FrameRange::Custom { start: 3, end: 9 }),
        models::FrameRange::Custom { start: 3, end: 9 }
    );
}

#[test]
fn formats_are_judged_by_extension() {
    assert_eq!(format_from_path("/clips/run.gif"), Some(AssetFormat::Gif));
    assert_eq!(format_from_path("/clips/run.webm"), Some(AssetFormat::Webm));
    assert_eq!(format_from_path("run.mp4"), Some(AssetFormat::Mp4));
    assert_eq!(format_from_path("run.mov"), Some(AssetFormat::Mov));
    assert_eq!(format_from_path("still.png"), Some(AssetFormat::Png));
    assert_eq!(format_from_path("still.jpg"), Some(AssetFormat::Jpg));
    assert_eq!(format_from_path("still.jpeg"), Some(AssetFormat::Jpg));
    assert_eq!(format_from_path("archive.tar.gif"), Some(AssetFormat::Gif));
    assert_eq!(format_from_path("dir.gif/"), Some(AssetFormat::Gif));
    assert_eq!(format_from_path("STILL.JPG"), None);
    assert_eq!(format_from_path("noextension"), None);
    assert_eq!(format_from_path(".gif"), None);
    assert_eq!(format_from_path("clip.gif/.."), None);
    assert_eq!(format_from_path(""), None);
}

#[test]
fn still_images_are_probed_from_their_header() {
    assert_eq!(probe_method(AssetFormat::Png), ProbeMethod::ImageHeader);
    assert_eq!(probe_method(AssetFormat::Jpg), ProbeMethod::ImageHeader);
    assert_eq!(probe_method(AssetFormat::Gif), ProbeMethod::Ffprobe);
    assert_eq!(probe_method(AssetFormat::Mov), ProbeMethod::Ffprobe);
}

#[test]
fn probe_output_is_read() {
    let p = parse_probe_output("1920x1080x30000/1001\n").unwrap();
    assert_eq!((p.width, p.height), (1920, 1080));
    assert_eq!(p.rate_fields, Some(("1080".to_string(), "30000/1001".to_string())));

    let p = parse_probe_output("  640x480  ").unwrap();
    assert_eq!((p.width, p.height), (640, 480));
    assert_eq!(p.rate_fields, None);

    let p = parse_probe_output("+64x48/2").unwrap();
    assert_eq!((p.width, p.height), (64, 48));
}

#[test]
fn probe_output_errors() {
    assert_eq!(parse_probe_output(""), Err(ProbeError::MissingFields));
    assert_eq!(parse_probe_output("1920"), Err(ProbeError::MissingFields));
    assert_eq!(parse_probe_output("abcx480"), Err(ProbeError::Width(IntErrorKind::InvalidDigit)));
    assert_eq!(parse_probe_output("x480"), Err(ProbeError::Width(IntErrorKind::Empty)));
    assert_eq!(parse_probe_output("+x480"), Err(ProbeError::Width(IntErrorKind::InvalidDigit)));
    assert_eq!(
        parse_probe_output("99999999999x1"),
        Err(ProbeError::Width(IntErrorKind::PosOverflow))
    );
    assert_eq!(parse_probe_output("640x"), Err(ProbeError::Height(IntErrorKind::Empty)));
    assert_eq!(parse_probe_output("640x-4"), Err(ProbeError::Height(IntErrorKind::InvalidDigit)));
}

#[test]
fn frame_data_is_a_base64_data_url() {
    assert_eq!(frame_data_url(b"abc"), "data:image/png;base64,YWJj");
    assert_eq!(frame_data_url(b"ab"), "data:image/png;base64,YWI=");
    assert_eq!(frame_data_url(b""), "data:image/png;base64,");
    assert_eq!(frame_data_url(b"a"), "data:image/png;base64,YQ==");
    assert_eq!(frame_data_url(&[0xfb, 0xff, 0xbf]), "data:image/png;base64,+/+/");
    assert_eq!(frame_data_url(b"hello world"), "data:image/png;base64,aGVsbG8gd29ybGQ=");
    assert_eq!(png_data_url("QUJD"), "data:image/png;base64,QUJD");
}

#[test]
fn thumbnails_live_in_the_frame_directory() {
    assert_eq!(thumbnail_path("/data/frames/abc"), "/data/frames/abc/thumbnail.jpg");
    assert_eq!(thumbnail_path("/data/frames/abc/"), "/data/frames/abc/thumbnail.jpg");
    assert_eq!(thumbnail_path(""), "thumbnail.jpg");
}

#[test]
fn downloads_keep_the_url_extension() {
    assert_eq!(download_extension("https://www.sakugabooru.com/data/abc123.mp4"), "mp4");
    assert_eq!(download_extension("https://www.sakugabooru.com/data/abc.tar.gz"), "gz");
    assert_eq!(download_extension("https://www.sakugabooru.com/data/abc"), "webm");
    assert_eq!(download_extension("https://www.sakugabooru.com/data/.hidden"), "webm");
    assert_eq!(download_extension(""), "webm");
    let name = sakuga_download_file_name(123, "0f8fad5b-d9cb-469f-a165-70867728950e", "mp4");
    assert_eq!(name, "sakuga_123.0f8fad5b-d9cb-469f-a165-70867728950e.mp4");
    let ext = download_extension("https://www.sakugabooru.com/data/abc.gif");
    let name = sakuga_download_file_name(7, "u", &ext);
    assert_eq!(format_from_path(&format!("/tmp/{}", name)), Some(AssetFormat::Gif));
}
