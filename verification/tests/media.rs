use audioserve::icon::{icon_from_cache, icon_from_source, scale_cover, IconError};
use audioserve::transcode::{Quality, QualityLevel, TranscodingDetails};
use audioserve::types::{
    is_audio, is_cover, is_description, must_transcode, should_transcode, Collections,
    Transcodings, TypedFile,
};

fn sample_jpeg(side: u32) -> Vec<u8> {
    let img = image::DynamicImage::ImageRgb8(image::RgbImage::from_fn(
        side,
        side,
        |x, y| image::Rgb([(x * 7 % 256) as u8, (y * 13 % 256) as u8, ((x + y) % 256) as u8]),
    ));
    let mut jpg: Vec<u8> = Vec::new();
    img.write_to(&mut std::io::Cursor::new(&mut jpg), image::ImageFormat::Jpeg)
        .unwrap();
    jpg
}

#[test]
fn test_is_audio() {
    assert!(is_audio("my/song.mp3"));
    assert!(is_audio("other/chapter.opus"));
    assert!(!is_audio("cover.jpg"));
}

#[test]
fn test_is_cover() {
    assert!(is_cover("cover.jpg"));
    assert!(!is_cover("my/song.mp3"));
}

#[test]
fn test_is_description() {
    assert!(!is_description("cover.jpg"));
    assert!(is_description("about.html"));
    assert!(is_description("about.txt"));
    assert!(is_description("some/folder/text.md"));
}

#[test]
fn test_scale_image() {
    let src = sample_jpeg(1100);
    let data = scale_cover(&src, 1024, false).unwrap();
    let img2 = image::load_from_memory_with_format(&data, image::ImageFormat::Png)
        .unwrap();
    assert_eq!(1024, img2.width());
    assert_eq!(1024, img2.height());
    assert!(data.len() > 1024);
}

#[test]
fn square_source_scales_to_target_square() {
    let src = sample_jpeg(512);
    let data = scale_cover(&src, 256, true).unwrap();
    let img2 = image::load_from_memory(&data).unwrap();
    assert_eq!(img2.width(), 256);
    assert_eq!(img2.height(), 256);
    assert_eq!(image::guess_format(&data).unwrap(), image::ImageFormat::Png);
}

#[test]
fn undecodable_source_fails_whole_operation() {
    assert_eq!(scale_cover(b"not an image", 64, true), Err(IconError::Decode));
}

#[test]
fn icon_cache_round_trip_serves_identical_bytes() {
    let src = sample_jpeg(128);
    // first request: cache miss, thumbnail computed, write-back asked for
    let (resp1, write_back) = icon_from_source(&src, 64, true, true).unwrap();
    assert_eq!(resp1.status, 200);
    assert_eq!(resp1.content_type, Some(b"image/png".to_vec()));
    let cached = write_back.expect("cache write expected when caching is enabled");
    assert_eq!(cached, resp1.body);

    // second request: served from the cache, bytes verbatim
    let resp2 = icon_from_cache(true, Some(cached.clone())).unwrap();
    assert_eq!(resp2.status, 200);
    assert_eq!(resp2.content_type, Some(b"image/png".to_vec()));
    assert_eq!(resp2.body, resp1.body);

    // caching disabled: no hit and no write-back
    assert!(icon_from_cache(false, Some(cached)).is_none());
    let (_resp3, wb3) = icon_from_source(&src, 64, true, false).unwrap();
    assert!(wb3.is_none());
}

#[test]
fn transcoding_slots_are_bounded_and_restored() {
    let mut td = TranscodingDetails::new(2);
    assert_eq!(td.transcodings, 0);
    assert_eq!(td.max_transcodings, 2);
    assert!(td.try_acquire());
    assert!(td.try_acquire());
    assert_eq!(td.transcodings, 2);
    // bound reached: refused without any effect
    assert!(!td.try_acquire());
    assert_eq!(td.transcodings, 2);
    // every finished transcode gives its slot back
    td.release();
    td.release();
    assert_eq!(td.transcodings, 0);
    // a full admit-release cycle restores the counter exactly
    let before = td.transcodings;
    assert!(td.try_acquire());
    td.release();
    assert_eq!(td.transcodings, before);
}

#[test]
fn quality_letters_map_to_levels() {
    assert_eq!(QualityLevel::from_letter(b"l"), Some(QualityLevel::Low));
    assert_eq!(QualityLevel::from_letter(b"m"), Some(QualityLevel::Medium));
    assert_eq!(QualityLevel::from_letter(b"h"), Some(QualityLevel::High));
    assert_eq!(QualityLevel::from_letter(b"x"), None);
    assert_eq!(QualityLevel::from_letter(b"low"), None);
    assert_eq!(QualityLevel::from_letter(b""), None);
}

#[test]
fn typed_file_pairs_path_with_guessed_mime() {
    let f = TypedFile::new(String::from("folder/cover.jpg"));
    assert_eq!(f.path, "folder/cover.jpg");
    assert_eq!(f.mime, b"image/jpeg".to_vec());
    let s = TypedFile::new(String::from("a/song.mp3"));
    assert_eq!(s.mime, b"audio/mpeg".to_vec());
}

#[test]
fn transcode_needed_for_restricted_containers() {
    assert!(must_transcode(b"audio/m4b"));
    assert!(must_transcode(b"audio/aac"));
    assert!(must_transcode(b"video/x-matroska"));
    assert!(!must_transcode(b"audio/mpeg"));
    assert!(!must_transcode(b"audio/ogg"));
}

#[test]
fn transcode_decision_follows_container_or_request() {
    // the container alone triggers it
    assert!(should_transcode(b"audio/m4b", None));
    // an explicit quality request alone triggers it
    assert!(should_transcode(b"audio/mpeg", Some(QualityLevel::High)));
    // neither: served as it is
    assert!(!should_transcode(b"audio/mpeg", None));
}

#[test]
fn info_reports_hold_configured_values() {
    let t = Transcodings::new(
        2,
        Quality { bitrate: 32 },
        Quality { bitrate: 48 },
        Quality { bitrate: 64 },
    );
    assert_eq!(t.max_transcodings, 2);
    assert_eq!(t.low, Quality { bitrate: 32 });
    assert_eq!(t.medium, Quality { bitrate: 48 });
    assert_eq!(t.high, Quality { bitrate: 64 });

    let c = Collections { count: 3, names: vec![String::from("a"), String::from("b"), String::from("c")] };
    assert_eq!(c.count, 3);
    assert_eq!(c.names.len(), 3);
}
