use stage_dmx::config::MediaType;
use stage_dmx::media::{
    filter_media_filenames, parse_media_filename, resolve_media, scan_media_folder,
};

#[test]
fn parse_video_filename() {
    let mf = parse_media_filename("003_clip.mp4").expect("should parse");
    assert_eq!(mf.dmx_value, 3);
    assert_eq!(mf.media_type, MediaType::Video);
    assert_eq!(mf.filename, "003_clip.mp4");
}

#[test]
fn parse_rejects_non_digit_prefix() {
    assert!(parse_media_filename("abc_clip.mp4").is_none());
}

#[test]
fn parse_rejects_zero_value() {
    assert!(parse_media_filename("000_x.mp4").is_none());
}

#[test]
fn parse_rejects_unsupported_extension() {
    assert!(parse_media_filename("003_clip.txt").is_none());
}

#[test]
fn parse_rejects_missing_underscore() {
    assert!(parse_media_filename("003clip.mp4").is_none());
}

#[test]
fn parse_rejects_too_short() {
    assert!(parse_media_filename("1.mp4").is_none());
}

#[test]
fn parse_rejects_non_ascii_digits() {
    // a full-width digit is not an ASCII digit
    assert!(parse_media_filename("00\u{ff13}_x.mp4").is_none());
}

#[test]
fn parse_accepts_non_ascii_stem() {
    let mf = parse_media_filename("003_\u{fc}bergang.mp4").expect("should parse");
    assert_eq!(mf.dmx_value, 3);
    assert_eq!(mf.media_type, MediaType::Video);
}

#[test]
fn parse_rejects_value_above_255() {
    assert!(parse_media_filename("999_x.mp4").is_none());
}

#[test]
fn parse_accepts_255() {
    let mf = parse_media_filename("255_last.png").expect("should parse");
    assert_eq!(mf.dmx_value, 255);
    assert_eq!(mf.media_type, MediaType::Image);
}

#[test]
fn parse_extension_case_insensitive() {
    let mf = parse_media_filename("007_clip.MP4").expect("should parse");
    assert_eq!(mf.media_type, MediaType::Video);
    let mf = parse_media_filename("007_pic.JPeG").expect("should parse");
    assert_eq!(mf.media_type, MediaType::Image);
}

#[test]
fn parse_image_extensions() {
    assert_eq!(
        parse_media_filename("010_a.jpg").unwrap().media_type,
        MediaType::Image
    );
    assert_eq!(
        parse_media_filename("010_a.jpeg").unwrap().media_type,
        MediaType::Image
    );
    assert_eq!(
        parse_media_filename("010_a.png").unwrap().media_type,
        MediaType::Image
    );
}

#[test]
fn parse_uses_last_dot_for_extension() {
    let mf = parse_media_filename("012_archive.tar.mp4").expect("should parse");
    assert_eq!(mf.media_type, MediaType::Video);
    assert!(parse_media_filename("012_archive.mp4.tar").is_none());
}

#[test]
fn resolve_prefers_jpg_over_png() {
    let files = vec!["007.jpg".to_string(), "007.png".to_string()];
    assert_eq!(resolve_media(&files, 7), "007.jpg");
}

#[test]
fn resolve_prefers_mp4_over_images() {
    let files = vec![
        "007.png".to_string(),
        "007.jpg".to_string(),
        "007.mp4".to_string(),
    ];
    assert_eq!(resolve_media(&files, 7), "007.mp4");
}

#[test]
fn resolve_falls_back_to_mp4_name() {
    let files: Vec<String> = Vec::new();
    assert_eq!(resolve_media(&files, 7), "007.mp4");
}

#[test]
fn resolve_zero_pads_values() {
    let files = vec!["123.png".to_string()];
    assert_eq!(resolve_media(&files, 123), "123.png");
    let files = vec!["042.jpg".to_string()];
    assert_eq!(resolve_media(&files, 42), "042.jpg");
}

#[test]
fn scan_classifies_and_skips() {
    let names = vec![
        "001_intro.mp4".to_string(),
        "notes.txt".to_string(),
        "002_still.jpg".to_string(),
        "abc_bad.mp4".to_string(),
        "000_zero.mp4".to_string(),
    ];
    let files = scan_media_folder(&names);
    assert_eq!(files.len(), 2);
    let one = files.iter().find(|f| f.dmx_value == 1).expect("value 1");
    assert_eq!(one.filename, "001_intro.mp4");
    assert_eq!(one.media_type, MediaType::Video);
    let two = files.iter().find(|f| f.dmx_value == 2).expect("value 2");
    assert_eq!(two.media_type, MediaType::Image);
}

#[test]
fn scan_last_duplicate_wins() {
    let names = vec![
        "005_first.mp4".to_string(),
        "005_second.jpg".to_string(),
    ];
    let files = scan_media_folder(&names);
    assert_eq!(files.len(), 1);
    assert_eq!(files[0].dmx_value, 5);
    assert_eq!(files[0].filename, "005_second.jpg");
    assert_eq!(files[0].media_type, MediaType::Image);
}

#[test]
fn filter_keeps_prefixed_names_in_order() {
    let names = vec![
        "010_a.mp4".to_string(),
        "readme.md".to_string(),
        "020_b.png".to_string(),
        "20_b.png".to_string(),
    ];
    let kept = filter_media_filenames(&names);
    assert_eq!(kept, vec!["010_a.mp4".to_string(), "020_b.png".to_string()]);
}
