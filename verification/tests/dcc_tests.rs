use animation_asset_manager::dcc::{
    generate_blender_import_script, generate_maya_import_script, ExportConfig, ExportFormat,
    FrameRange,
};

#[test]
fn test_frame_range_bounds() {
    let range = FrameRange::Custom { start: 0, end: 1000 };
    assert_eq!(range.end(100), 100);
    assert_eq!(range.start(100), 1);

    let range = FrameRange::Custom { start: 50, end: 60 };
    assert_eq!(range.count(100), 11);
}

#[test]
fn test_maya_script_generation() {
    let fps = 30.0f32.to_string();
    let script = generate_maya_import_script("/test/frame_000001.png", &fps);
    assert!(script.contains("imagePlane"));
    assert!(script.contains("useFrameExtension"));
}

#[test]
fn maya_script_names_path_and_rate() {
    let script = generate_maya_import_script("C:\\shots\\frame_000001.png", "23.976");
    assert!(script.contains("fileName='C:/shots/frame_000001.png'"));
    assert!(script.contains("print(\"帧率: {}fps\".format(23.976))"));
    assert!(!script.contains('\\'));
    assert!(script.starts_with("# AAM"));
    assert!(script.ends_with("))\n"));
}

#[test]
fn blender_script_names_path_and_count() {
    let script = generate_blender_import_script("D:\\seq\\frame_000001.png", 48);
    assert!(script.contains("bpy.data.images.load('D:/seq/frame_000001.png')"));
    assert!(script.contains("tex_node.image_user.frame_duration = 48\n"));
    assert!(script.contains("print(\"总帧数: {}\".format(48))"));
    assert!(script.ends_with("))\n"));
}

#[test]
fn export_range_defaults_and_clipping() {
    assert_eq!(FrameRange::default(), FrameRange::All);
    assert_eq!(ExportFormat::default(), ExportFormat::PngSequence);
    let all = FrameRange::All;
    assert_eq!(all.start(24), 1);
    assert_eq!(all.end(24), 24);
    assert_eq!(all.count(24), 24);
    // Reversed bounds still count one frame.
    let reversed = FrameRange::Custom { start: 20, end: 5 };
    assert_eq!(reversed.count(100), 1);
    // An empty asset still reports frame 1 and a count of one.
    assert_eq!(all.start(0), 1);
    assert_eq!(all.count(0), 1);
    let zero = FrameRange::Custom { start: 0, end: 0 };
    assert_eq!(zero.start(10), 1);
    assert_eq!(zero.end(10), 1);
}

#[test]
fn export_range_counts_stay_within_asset() {
    for total in 1..40u32 {
        for start in 0..45u32 {
            for end in 0..45u32 {
                let r = FrameRange::Custom { start, end };
                assert!(1 <= r.start(total) && r.start(total) <= total);
                assert!(1 <= r.end(total) && r.end(total) <= total);
                assert!(1 <= r.count(total) && r.count(total) <= total);
            }
        }
    }
}

#[test]
fn export_config_default() {
    let c = ExportConfig::default();
    assert_eq!(c.format, ExportFormat::PngSequence);
    assert_eq!(c.frame_range, FrameRange::All);
    assert!(!c.include_annotations);
    assert_eq!(c.output_path, "");
}
