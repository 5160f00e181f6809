use animation_asset_manager::models::{
    clamp_frame_index,
    AssetFormat, AssetSource, ExportFormat, Frame, FrameRange, H264Quality, Resolution,
};

#[test]
fn mod_test_frame_range_bounds() {
    let range = FrameRange::Custom { start: 0, end: 1000 };
    assert_eq!(range.end(100), 99);

    let range = FrameRange::Custom { start: 50, end: 60 };
    assert!(range.contains(55, 100));
    assert!(!range.contains(45, 100));
    assert!(!range.contains(65, 100));
}

#[test]
fn test_frame_filename() {
    assert_eq!(Frame::filename_for_index(0), "frame_000000.png");
    assert_eq!(Frame::filename_for_index(42), "frame_000042.png");
    assert_eq!(Frame::filename_for_index(999999), "frame_999999.png");
}

#[test]
fn frame_filename_grows_past_six_digits() {
    assert_eq!(Frame::filename_for_index(1234567), "frame_1234567.png");
    assert_eq!(Frame::filename_for_index(u32::MAX), "frame_4294967295.png");
}

#[test]
fn frame_filenames_are_distinct() {
    let names: Vec<String> = (0..200u32).map(Frame::filename_for_index).collect();
    for i in 0..names.len() {
        for j in (i + 1)..names.len() {
            assert_ne!(names[i], names[j]);
        }
    }
}

#[test]
fn resolution_new_keeps_dimensions() {
    let r = Resolution::new(1920, 1080);
    assert_eq!(r.width, 1920);
    assert_eq!(r.height, 1080);
}

#[test]
fn frame_range_all_covers_every_frame() {
    let all = FrameRange::All;
    assert_eq!(all.start(100), 0);
    assert_eq!(all.end(100), 99);
    assert!(all.contains(0, 100));
    assert!(all.contains(99, 100));
    assert!(!all.contains(100, 100));
}

#[test]
fn frame_range_clips_on_empty_asset() {
    let all = FrameRange::All;
    assert_eq!(all.end(0), 0);
    assert!(!all.contains(0, 0));
    let custom = FrameRange::Custom { start: 5, end: 9 };
    assert_eq!(custom.start(0), 0);
    assert_eq!(custom.end(0), 0);
}

#[test]
fn frame_range_bounds_stay_inside_asset() {
    let ranges = [
        FrameRange::All,
        FrameRange::Custom { start: 0, end: 1000 },
        FrameRange::Custom { start: 150, end: 200 },
        FrameRange::Custom { start: 70, end: 20 },
    ];
    for r in ranges.iter() {
        assert!(r.start(100) < 100);
        assert!(r.end(100) < 100);
        for f in 0..300u32 {
            if r.contains(f, 100) {
                assert!(f < 100);
            }
        }
    }
}

#[test]
fn frame_range_contains_matches_bounds_when_start_is_inside() {
    let ranges = [FrameRange::All, FrameRange::Custom { start: 10, end: 1000 }, FrameRange::Custom { start: 40, end: 20 }];
    for r in ranges.iter() {
        for f in 0..100u32 {
            assert_eq!(r.contains(f, 100), r.start(100) <= f && f <= r.end(100));
        }
    }
    // A start past the asset is clipped by `start` but still excludes every frame.
    let late = FrameRange::Custom { start: 150, end: 200 };
    assert_eq!(late.start(100), 99);
    assert!(!late.contains(99, 100));
}

#[test]
fn h264_quality_defaults_to_high() {
    assert_eq!(H264Quality::default(), H264Quality::High);
    assert_ne!(ExportFormat::H264 { quality: H264Quality::Low }, ExportFormat::ProRes);
    assert_ne!(AssetFormat::Gif, AssetFormat::Webm);
    assert_ne!(AssetSource::Local, AssetSource::Url);
}

#[test]
fn frame_indices_are_clamped_to_the_asset() {
    assert_eq!(clamp_frame_index(5, 10), 5);
    assert_eq!(clamp_frame_index(9, 10), 9);
    assert_eq!(clamp_frame_index(10, 10), 9);
    assert_eq!(clamp_frame_index(u32::MAX, 10), 9);
    assert_eq!(clamp_frame_index(3, 0), 0);
}
