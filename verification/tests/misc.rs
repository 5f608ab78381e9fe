use pict_rs::bytes::{bytes_eq, concat_bytes};
use pict_rs::details::MediaType;
use pict_rs::error::{is_success, FileError, UploadError};
use pict_rs::hasher::{digest, Digester, Hasher};
use pict_rs::limit::{Limit, LimitError};
use pict_rs::magick::ImageFormat;
use pict_rs::process::{keep_feeding, Run, Stage};
use pict_rs::scan::{
    chars_are, chars_eq, chars_of, find, has_suffix, is_whitespace, parse_usize, push_decimal,
    split_line, split_once, trimmed,
};
use pict_rs::store::file_store::Found;
use pict_rs::text::{find_char, str_eq};
use pict_rs::alias::Alias;
use pict_rs::repo::Repo;
use pict_rs::upload_manager::UploadManager;
use pict_rs::variant::{
    build_args, is_listed, parse_format, prepare_process, processed_name, range_answer,
    still_source, thumbnail_args, thumbnail_program, to_ext, usable_variant, variant_key, Answer,
    SaveStep, Still,
};
use sha2::{Digest, Sha256};

fn hex(bytes: &[u8]) -> String {
    bytes.iter().map(|b| format!("{:02x}", b)).collect()
}

#[test]
fn digest_of_known_input() {
    assert_eq!(
        hex(&digest(b"abc")),
        "ba7816bf8f01cfea414140de5dae2223b00361a396177a9cb410ff61f20015ad"
    );
    assert_eq!(
        hex(&digest(b"")),
        "e3b0c44298fc1c149afbf4c8996fb92427ae41e4649b934ca495991b7852b855"
    );
}

#[test]
fn hasher_follows_the_reads() {
    let data: Vec<u8> = (0..=255u8).cycle().take(10_000).collect();
    let mut hasher = Hasher::new((), Digester::new());
    let mut buffer: Vec<u8> = Vec::new();
    for chunk in data.chunks(777) {
        let before = buffer.len();
        buffer.extend_from_slice(chunk);
        hasher.after_read(&buffer, before, true);
        assert_eq!(hasher.finalize(), None);
    }
    let before = buffer.len();
    hasher.after_read(&buffer, before, false);
    assert_eq!(hasher.finalize(), None);
    hasher.after_read(&buffer, before, true);
    let mut direct = Sha256::new();
    direct.update(&data);
    let correct_hash = direct.finalize_reset().to_vec();
    assert_eq!(hasher.finalize(), Some(correct_hash));
    let _ = hasher.hasher();
    *hasher.get_mut() = ();
}

#[test]
fn digester_resets() {
    let mut digester = Digester::new();
    digester.update(b"a");
    digester.update(b"bc");
    assert_eq!(digester.finalize_reset(), digest(b"abc"));
    assert_eq!(digester.finalize_reset(), digest(b""));
}

#[test]
fn limit_refuses_what_is_too_much() {
    let mut limit = Limit::new("stream", 10);
    assert_eq!(limit.observe(4), Ok(()));
    assert_eq!(limit.observe(6), Ok(()));
    assert_eq!(limit.delivered(), 10);
    assert_eq!(limit.observe(0), Ok(()));
    assert_eq!(limit.observe(1), Err(LimitError));
    assert_eq!(limit.delivered(), 11);
    assert_eq!(limit.observe(0), Err(LimitError));
    *limit.get_mut() = "other";
    assert_eq!(limit.into_inner(), "other");
    let mut full = Limit::new((), u64::MAX);
    assert_eq!(full.observe(usize::MAX), Ok(()));
    assert_eq!(full.observe(1), Err(LimitError));
    assert_eq!(full.delivered(), u64::MAX);
}

#[test]
fn errors_are_answered() {
    let bad_request = [
        UploadError::VideoError(String::from("v")),
        UploadError::MagickError(String::from("m")),
        UploadError::DuplicateAlias,
        UploadError::NoFiles,
        UploadError::Upload(String::from("u")),
        UploadError::ParseReq(String::from("p")),
    ];
    for e in bad_request {
        assert_eq!(e.status_code(), 400);
    }
    assert_eq!(UploadError::MissingAlias.status_code(), 404);
    assert_eq!(UploadError::MissingFilename.status_code(), 404);
    assert_eq!(UploadError::InvalidToken.status_code(), 403);
    assert_eq!(UploadError::Range.status_code(), 416);
    let internal = [
        UploadError::Db(String::new()),
        UploadError::ParseString(String::new()),
        UploadError::Io(String::new()),
        UploadError::Canceled,
        UploadError::MissingFile,
        UploadError::UnsupportedFormat,
        UploadError::Dimensions,
        UploadError::Frames,
        UploadError::Download(404),
        UploadError::Payload(String::new()),
        UploadError::SendRequest(String::new()),
        UploadError::Path,
        UploadError::FileExists,
        UploadError::Json(String::new()),
    ];
    for e in internal {
        assert_eq!(e.status_code(), 500);
    }
    assert!(is_success(200));
    assert!(is_success(299));
    assert!(!is_success(300));
    assert!(!is_success(199));
}

#[test]
fn errors_speak() {
    assert_eq!(
        UploadError::Upload(String::from("x")).to_string(),
        "Couln't upload file, x"
    );
    assert_eq!(
        UploadError::InvalidToken.to_string(),
        "Provided token did not match expected token"
    );
    assert_eq!(
        UploadError::MissingAlias.to_string(),
        "Requested a file that doesn't exist"
    );
    assert_eq!(
        UploadError::Download(404).to_string(),
        "Unable to download image, bad response 404"
    );
    assert_eq!(
        UploadError::Download(0).to_string(),
        "Unable to download image, bad response 0"
    );
    assert_eq!(
        UploadError::Download(65535).to_string(),
        "Unable to download image, bad response 65535"
    );
    assert_eq!(UploadError::Json(String::from("eof")).to_string(), "eof");
    assert_eq!(UploadError::Range.to_string(), "Range header not satisfiable");
    assert_eq!(
        FileError::FileExists.to_string(),
        "Tried to save over existing file"
    );
    assert_eq!(
        FileError::PrefixError.to_string(),
        "Mailformed file store identifier"
    );
}

#[test]
fn requests_are_read() {
    let pair = |k: &str, v: &str| (String::from(k), String::from(v));
    let mut manager = UploadManager::new(Repo::open());
    manager.save_upload(b"001/blob".to_vec(), vec![1; 32]);
    manager
        .add_existing_alias(&vec![1; 32], &Alias::from_existing("alias.png"))
        .ok()
        .unwrap();
    manager
        .add_existing_alias(&vec![2; 32], &Alias::from_existing("dangling.png"))
        .ok()
        .unwrap();
    let query = vec![
        pair("resize", "100"),
        pair("src", "first.png"),
        pair("Blur", "2"),
        pair("evil", "1"),
        pair("src", "alias.png"),
    ];
    let request = prepare_process(&query, "webp", &manager, &None).ok().unwrap();
    assert_eq!(request.format, ImageFormat::Webp);
    assert_eq!(request.source, "alias.png");
    assert_eq!(request.hash, vec![1; 32]);
    assert_eq!(request.original, b"001/blob".to_vec());
    assert_eq!(
        request.operations,
        vec![pair("resize", "100"), pair("Blur", "2"), pair("evil", "1")]
    );
    assert_eq!(request.variant, "resize/100/Blur/2/evil/1/001/blob.webp");
    assert_eq!(
        request.args,
        vec!["-resize", "100", "-Blur", "2", "-evil", "1"]
    );
    let filters = Some(vec![String::from("resize"), String::from("blur")]);
    let request = prepare_process(&query, "jpg", &manager, &filters).ok().unwrap();
    assert_eq!(request.format, ImageFormat::Jpeg);
    assert_eq!(
        request.operations,
        vec![pair("resize", "100"), pair("Blur", "2")]
    );
    assert_eq!(request.variant, "resize/100/Blur/2/001/blob.jpg");
    assert_eq!(
        prepare_process(&vec![pair("resize", "1")], "bmp", &manager, &None).err(),
        Some(UploadError::MissingFilename)
    );
    assert_eq!(
        prepare_process(&vec![pair("src", "")], "png", &manager, &None).err(),
        Some(UploadError::MissingFilename)
    );
    assert_eq!(
        prepare_process(&vec![pair("src", "nobody.png")], "bmp", &manager, &None).err(),
        Some(UploadError::MissingAlias)
    );
    assert_eq!(
        prepare_process(&vec![pair("src", "dangling.png")], "bmp", &manager, &None).err(),
        Some(UploadError::MissingFile)
    );
    assert_eq!(
        prepare_process(&query, "bmp", &manager, &None).err(),
        Some(UploadError::UnsupportedFormat)
    );
    assert_eq!(parse_format("png"), Ok(ImageFormat::Png));
    assert_eq!(parse_format("jpeg"), Ok(ImageFormat::Jpeg));
    assert_eq!(parse_format("PNG"), Err(UploadError::UnsupportedFormat));
    let list = vec![String::from("resize"), String::from("blur")];
    assert!(is_listed(&list, "blur"));
    assert!(!is_listed(&list, "Blur"));
    assert!(!is_listed(&Vec::new(), "blur"));
}

#[test]
fn still_images_are_made_of_the_first_frame() {
    assert_eq!(thumbnail_program(), "ffmpeg");
    assert_eq!(
        thumbnail_args("/tmp/in.mp4", "/data/out.jpg"),
        vec![
            "-i",
            "/tmp/in.mp4",
            "-ss",
            "00:00:00.000",
            "-vframes",
            "1",
            "-codec",
            "mjpeg",
            "-f",
            "singlejpeg",
            "/data/out.jpg"
        ]
    );
}

#[test]
fn extensions_of_media_types() {
    assert_eq!(to_ext(&MediaType::image_png()), Ok(".png"));
    assert_eq!(to_ext(&MediaType::image_jpeg()), Ok(".jpg"));
    assert_eq!(to_ext(&MediaType::new("video", "mp4")), Ok(".mp4"));
    assert_eq!(to_ext(&MediaType::new("image", "webp")), Ok(".webp"));
    assert_eq!(
        to_ext(&MediaType::image_gif()),
        Err(UploadError::UnsupportedFormat)
    );
}

#[test]
fn variants_are_served_or_made() {
    assert_eq!(usable_variant(None, Found::Something), Ok(None));
    assert_eq!(
        usable_variant(Some(b"id".to_vec()), Found::Something),
        Ok(Some(b"id".to_vec()))
    );
    assert_eq!(usable_variant(Some(b"id".to_vec()), Found::Nothing), Ok(None));
    assert!(matches!(
        usable_variant(Some(b"id".to_vec()), Found::Failure),
        Err(UploadError::Io(_))
    ));
    assert_eq!(still_source(false, Some(b"m".to_vec())), Still::Original);
    assert_eq!(
        still_source(true, Some(b"m".to_vec())),
        Still::Existing(b"m".to_vec())
    );
    assert_eq!(still_source(true, None), Still::Generate);
}

#[test]
fn saving_stops_at_the_first_failure() {
    let mut step = SaveStep::NextDirectory;
    let mut seen = vec![step];
    while step != SaveStep::Done {
        step = step.next(true);
        seen.push(step);
    }
    assert_eq!(
        seen,
        vec![
            SaveStep::NextDirectory,
            SaveStep::SaveFile,
            SaveStep::StoreDetails,
            SaveStep::StoreVariant,
            SaveStep::Done
        ]
    );
    assert_eq!(SaveStep::SaveFile.next(false), SaveStep::Stopped);
    assert_eq!(SaveStep::Stopped.next(true), SaveStep::Stopped);
    assert_eq!(SaveStep::Done.next(false), SaveStep::Done);
}

#[test]
fn ranges() {
    assert_eq!(range_answer(None), Ok(Answer::Whole));
    assert_eq!(range_answer(Some((true, 1))), Ok(Answer::Partial));
    assert_eq!(range_answer(Some((true, 0))), Err(UploadError::Range));
    assert_eq!(range_answer(Some((true, 2))), Err(UploadError::Range));
    assert_eq!(range_answer(Some((false, 1))), Err(UploadError::Range));
}

#[test]
fn byte_helpers() {
    assert!(bytes_eq(b"abc", b"abc"));
    assert!(!bytes_eq(b"abc", b"abd"));
    assert!(!bytes_eq(b"abc", b"ab"));
    assert_eq!(concat_bytes(b"ab", b"cd"), b"abcd".to_vec());
}

#[test]
fn text_helpers() {
    assert_eq!(find_char("h\u{e9}.x", '.'), Some(2));
    assert_eq!(find_char("abc", '.'), None);
    assert!(str_eq("h\u{e9}", "h\u{e9}"));
    assert!(!str_eq("a", "b"));
    let cs = chars_of("  h\u{e9}llo \t\u{a0}");
    assert_eq!(cs.len(), 10);
    assert_eq!(trimmed(&cs), &chars_of("h\u{e9}llo")[..]);
    assert_eq!(trimmed(&chars_of(" \n ")), &[] as &[char]);
    assert!(is_whitespace('\u{3000}'));
    assert!(is_whitespace('\r'));
    assert!(!is_whitespace('x'));
    assert!(!is_whitespace('\u{200b}'));
    for c in (0..0x3100u32).filter_map(char::from_u32) {
        assert_eq!(is_whitespace(c), c.is_whitespace());
    }
    assert_eq!(find(&chars_of("a|b"), '|'), 1);
    assert_eq!(find(&chars_of("ab"), '|'), 2);
    let line = chars_of("a|b|c");
    let (head, tail) = split_once(&line, '|');
    assert_eq!(head, &['a']);
    assert_eq!(tail, Some(&['b', '|', 'c'][..]));
    assert_eq!(split_once(&chars_of("abc"), '|').1, None);
    assert!(chars_eq(&['a'], &['a']));
    assert!(!chars_eq(&['a'], &['b']));
    assert!(chars_are(&['M', 'P', '4'], "MP4"));
    assert!(has_suffix(&chars_of("x.mp4"), &chars_of(".mp4")));
    assert!(!has_suffix(&chars_of("mp4"), &chars_of(".mp4")));
}

#[test]
fn numbers_are_read_like_std() {
    for text in ["0", "007", "+5", "12345", "", "+", "-1", "1 ", " 1", "1_0", "++1", "18446744073709551615", "18446744073709551616", "99999999999999999999999"] {
        assert_eq!(parse_usize(&chars_of(text)), text.parse::<usize>().ok(), "{:?}", text);
    }
    let mut out = vec!['x'];
    push_decimal(&mut out, 1203);
    assert_eq!(out, vec!['x', '1', '2', '0', '3']);
}

#[test]
fn lines_are_split_like_std() {
    for text in ["", "a", "a\n", "a\nb", "a\r\nb\r\n", "a\r", "\n\na", "a\n\r\n", "\r\n"] {
        let cs = chars_of(text);
        let mut rest: &[char] = &cs;
        let mut found = Vec::new();
        while let Some((line, tail)) = split_line(rest) {
            found.push(line.iter().collect::<String>());
            rest = tail;
        }
        let expected: Vec<String> = text.lines().map(String::from).collect();
        assert_eq!(found, expected, "{:?}", text);
    }
}

#[test]
fn converter_runs_end_well_or_with_a_stage() {
    let good = Run {
        spawned: true,
        fed: true,
        drained: true,
        exit_success: true,
        parsed: true,
    };
    assert_eq!(good.conclude(), Ok(()));
    let not_spawned = Run {
        spawned: false,
        exit_success: false,
        ..good
    };
    assert_eq!(not_spawned.conclude(), Err(Stage::Spawn));
    for broken in [
        Run { exit_success: false, ..good },
        Run { fed: false, ..good },
        Run { drained: false, ..good },
        Run { drained: false, parsed: false, ..good },
    ] {
        assert_eq!(broken.conclude(), Err(Stage::Pipe));
    }
    assert_eq!(Run { parsed: false, ..good }.conclude(), Err(Stage::Parse));
    assert!(keep_feeding(false, false, false));
    assert!(!keep_feeding(true, false, false));
    assert!(!keep_feeding(false, true, false));
    assert!(!keep_feeding(false, false, true));
}

#[test]
fn variant_keys_and_arguments() {
    let pair = |k: &str, v: &str| (String::from(k), String::from(v));
    let operations = vec![pair("resize", "100"), pair("blur", "2.5")];
    assert_eq!(processed_name("file.png", "webp"), "file.png.webp");
    assert_eq!(
        variant_key(&operations, "file.png.webp"),
        "resize/100/blur/2.5/file.png.webp"
    );
    assert_eq!(variant_key(&vec![], "file.png.webp"), "file.png.webp");
    assert_eq!(
        build_args(&operations),
        vec!["-resize", "100", "-blur", "2.5"]
    );
    assert_eq!(build_args(&vec![]), Vec::<String>::new());
}
