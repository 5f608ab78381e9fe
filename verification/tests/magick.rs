use pict_rs::alias::Alias;
use pict_rs::details::{Details, MediaType};
use pict_rs::error::UploadError;
use pict_rs::magick::{
    convert_args, details_hint, identify_args, identify_input, image_webp, input_type,
    parse_details, process_image_args, video_mp4, video_webm, IdentifyInput, ImageFormat,
    MediaLimits, ValidInputType, VideoCodec,
};

fn limits() -> MediaLimits {
    MediaLimits {
        max_width: 10_000,
        max_height: 10_000,
        max_area: 40_000_000,
        max_frame_count: 900,
    }
}

#[test]
fn valid_input_type_names() {
    assert_eq!(ValidInputType::Mp4.as_str(), "MP4");
    assert_eq!(ValidInputType::Webm.as_str(), "WEBM");
    assert_eq!(ValidInputType::Gif.as_str(), "GIF");
    assert_eq!(ValidInputType::Png.as_str(), "PNG");
    assert_eq!(ValidInputType::Jpeg.as_str(), "JPEG");
    assert_eq!(ValidInputType::Webp.as_str(), "WEBP");
    assert_eq!(ValidInputType::Mp4.as_ext(), ".mp4");
    assert_eq!(ValidInputType::Webm.as_ext(), ".webm");
    assert_eq!(ValidInputType::Gif.as_ext(), ".gif");
    assert_eq!(ValidInputType::Png.as_ext(), ".png");
    assert_eq!(ValidInputType::Jpeg.as_ext(), ".jpeg");
    assert_eq!(ValidInputType::Webp.as_ext(), ".webp");
}

#[test]
fn valid_input_type_video() {
    assert!(ValidInputType::Mp4.is_video());
    assert!(ValidInputType::Webm.is_video());
    assert!(ValidInputType::Gif.is_video());
    assert!(!ValidInputType::Png.is_video());
    assert!(!ValidInputType::Jpeg.is_video());
    assert!(!ValidInputType::Webp.is_video());
    assert_eq!(ValidInputType::Mp4.video_hint(), Some(".mp4"));
    assert_eq!(ValidInputType::Webm.video_hint(), Some(".webm"));
    assert_eq!(ValidInputType::Gif.video_hint(), Some(".gif"));
    assert_eq!(ValidInputType::Png.video_hint(), None);
}

#[test]
fn valid_input_type_conversions() {
    assert_eq!(
        ValidInputType::from_video_codec(VideoCodec::Av1),
        ValidInputType::Webm
    );
    assert_eq!(
        ValidInputType::from_video_codec(VideoCodec::Vp8),
        ValidInputType::Webm
    );
    assert_eq!(
        ValidInputType::from_video_codec(VideoCodec::Vp9),
        ValidInputType::Webm
    );
    assert_eq!(
        ValidInputType::from_video_codec(VideoCodec::H264),
        ValidInputType::Mp4
    );
    assert_eq!(
        ValidInputType::from_video_codec(VideoCodec::H265),
        ValidInputType::Mp4
    );
    for format in [ImageFormat::Jpeg, ImageFormat::Png, ImageFormat::Webp] {
        assert_eq!(ValidInputType::from_format(format).to_format(), Some(format));
    }
    assert_eq!(ValidInputType::Mp4.to_format(), None);
    assert_eq!(ValidInputType::Gif.to_format(), None);
    assert_eq!(ImageFormat::Jpeg.as_magick_format(), "JPEG");
    assert_eq!(ImageFormat::Png.as_magick_format(), "PNG");
    assert_eq!(ImageFormat::Webp.as_magick_format(), "WEBP");
}

#[test]
fn hint_from_extension() {
    assert_eq!(
        details_hint(&Alias::from_existing("blah.mp4")),
        Some(ValidInputType::Mp4)
    );
    assert_eq!(
        details_hint(&Alias::from_existing("blah.tar.webm")),
        Some(ValidInputType::Webm)
    );
    assert_eq!(details_hint(&Alias::from_existing("blah.png")), None);
    assert_eq!(details_hint(&Alias::from_existing("blah")), None);
    assert_eq!(details_hint(&Alias::from_existing("blah.mp4x")), None);
}

#[test]
fn parse_single_frame() {
    let details = parse_details("800 600 | PNG\n").unwrap();
    assert_eq!(details.width, 800);
    assert_eq!(details.height, 600);
    assert_eq!(details.frames, None);
    assert_eq!(details.mime_type, MediaType::image_png());
}

#[test]
fn parse_without_final_newline_and_with_carriage_return() {
    let details = parse_details("1 2 | JPEG").unwrap();
    assert_eq!((details.width, details.height), (1, 2));
    assert_eq!(details.mime_type, MediaType::image_jpeg());
    let details = parse_details("  12 +34   |  WEBP  | ignored\r\n").unwrap();
    assert_eq!((details.width, details.height), (12, 34));
    assert_eq!(details.mime_type, image_webp());
}

#[test]
fn parse_many_frames() {
    let details = parse_details("10 20 | GIF\n10 20 | GIF\n10 20 | GIF\n").unwrap();
    assert_eq!(details.frames, Some(3));
    assert_eq!(details.mime_type, MediaType::image_gif());
    let details = parse_details("640 480 | MP4\n640 480 | MP4").unwrap();
    assert_eq!(details.frames, Some(2));
    assert_eq!(details.mime_type, video_mp4());
    let details = parse_details("640 480 | WEBM\n").unwrap();
    assert_eq!(details.mime_type, video_webm());
}

#[test]
fn parse_refuses_malformed_reports() {
    let bad = [
        "",
        "\n",
        "800 600 PNG\n",
        "800 | PNG\n",
        "800  600 | PNG\n",
        "x 600 | PNG\n",
        "800 y | PNG\n",
        "-1 600 | PNG\n",
        "800 600 | TIFF\n",
        "800 600 | png\n",
        "800 600 |\n",
        "99999999999999999999999999 600 | PNG\n",
        "10 20 | GIF\n10 20 | PNG\n",
        "10 20 | GIF\n\n",
    ];
    for report in bad {
        assert_eq!(
            parse_details(report),
            Err(UploadError::UnsupportedFormat),
            "{:?}",
            report
        );
    }
}

#[test]
fn validate_accepts_known_types() {
    let cases = [
        (MediaType::new("video", "mp4"), ValidInputType::Mp4),
        (MediaType::new("video", "mpeg"), ValidInputType::Mp4),
        (MediaType::new("video", "webm"), ValidInputType::Webm),
        (MediaType::new("image", "gif"), ValidInputType::Gif),
        (MediaType::new("image", "png"), ValidInputType::Png),
        (MediaType::new("image", "jpeg"), ValidInputType::Jpeg),
        (MediaType::new("image", "webp"), ValidInputType::Webp),
    ];
    for (mime_type, expected) in cases {
        let details = pict_rs::magick::Details {
            mime_type,
            width: 100,
            height: 100,
            frames: None,
        };
        assert_eq!(details.validate_input(&limits()), Ok(expected));
    }
    let details = pict_rs::magick::Details {
        mime_type: MediaType::new("image", "tiff"),
        width: 100,
        height: 100,
        frames: None,
    };
    assert_eq!(
        details.validate_input(&limits()),
        Err(UploadError::UnsupportedFormat)
    );
}

#[test]
fn validate_refuses_what_is_too_large() {
    let make = |width, height, frames| pict_rs::magick::Details {
        mime_type: MediaType::image_png(),
        width,
        height,
        frames,
    };
    assert_eq!(
        make(10_001, 1, None).validate_input(&limits()),
        Err(UploadError::Dimensions)
    );
    assert_eq!(
        make(1, 10_001, None).validate_input(&limits()),
        Err(UploadError::Dimensions)
    );
    assert_eq!(
        make(10_000, 10_000, None).validate_input(&limits()),
        Err(UploadError::Dimensions)
    );
    assert_eq!(
        make(8_000, 5_000, None).validate_input(&limits()),
        Ok(ValidInputType::Png)
    );
    assert_eq!(
        make(10, 10, Some(901)).validate_input(&limits()),
        Err(UploadError::Frames)
    );
    assert_eq!(
        make(10, 10, Some(900)).validate_input(&limits()),
        Ok(ValidInputType::Png)
    );
    let huge = MediaLimits {
        max_width: usize::MAX,
        max_height: usize::MAX,
        max_area: usize::MAX,
        max_frame_count: 1,
    };
    assert_eq!(
        make(usize::MAX, 2, None).validate_input(&huge),
        Err(UploadError::Dimensions)
    );
}

#[test]
fn input_type_reads_and_validates() {
    let (details, kind) = input_type("30 40 | WEBP\n", &limits()).unwrap();
    assert_eq!((details.width, details.height), (30, 40));
    assert_eq!(kind, ValidInputType::Webp);
    assert_eq!(
        input_type("garbage", &limits()),
        Err(UploadError::UnsupportedFormat)
    );
    assert_eq!(
        input_type("20000 40 | WEBP\n", &limits()),
        Err(UploadError::Dimensions)
    );
}

#[test]
fn converter_arguments() {
    assert_eq!(
        convert_args(ImageFormat::Webp),
        vec!["convert", "-", "-auto-orient", "-strip", "WEBP:-"]
    );
    assert_eq!(
        process_image_args(
            &vec![String::from("-resize"), String::from("100x100>")],
            ImageFormat::Jpeg
        ),
        vec!["convert", "-", "-resize", "100x100>", "JPEG:-"]
    );
    assert_eq!(
        identify_args("PNG:-"),
        vec!["identify", "-ping", "-format", "%w %h | %m\n", "PNG:-"]
    );
    assert_eq!(identify_input(None), IdentifyInput::Stdin(String::from("-")));
    assert_eq!(
        identify_input(Some(ValidInputType::Jpeg)),
        IdentifyInput::Stdin(String::from("JPEG:-"))
    );
    assert_eq!(
        identify_input(Some(ValidInputType::Gif)),
        IdentifyInput::File(".gif")
    );
    assert_eq!(
        identify_input(Some(ValidInputType::Mp4)),
        IdentifyInput::File(".mp4")
    );
}

#[test]
fn stored_details() {
    let details = Details::new(3, 4, MediaType::image_gif(), Some(7), 1_000);
    assert!(details.is_motion());
    assert_eq!(details.width(), 3);
    assert_eq!(details.height(), 4);
    assert_eq!(details.frames(), Some(7));
    assert_eq!(details.system_time(), 1_000);
    assert_eq!(details.content_type().to_string(), "image/gif");
    assert_eq!(details.duplicate(), details);
    assert!(!Details::new(3, 4, MediaType::image_png(), None, 0).is_motion());
    assert!(Details::new(3, 4, video_webm(), None, 0).is_motion());
    assert!(Details::new(3, 4, MediaType::new("video", "quicktime"), None, 0).is_motion());
    let now = Details::now(1, 2, MediaType::image_jpeg(), None);
    assert_eq!((now.width(), now.height()), (1, 2));
    assert!(now.system_time() > 1_600_000_000_000_000_000);
}

#[test]
fn details_from_the_report() {
    let probe = parse_details("30 40 | GIF\n30 40 | GIF\n").unwrap();
    let details = Details::from_probe(&probe);
    assert_eq!(details.width(), 30);
    assert_eq!(details.height(), 40);
    assert_eq!(details.frames(), Some(2));
    assert_eq!(details.content_type(), MediaType::image_gif());
    assert!(details.is_motion());
}
