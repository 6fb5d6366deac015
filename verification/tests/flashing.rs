use sidestep::flashing::checksum::{hex_encode, ChecksumVerifier, Sha256Stream};
use sidestep::flashing::decompressor::{Compression, Decompressor};
use sidestep::flashing::downloader::{DownloadError, ImageDownloader};
use sidestep::flashing::executor::{ExecutorError, FlashExecutor};

#[test]
fn safe_dest_accepts_plain_names_rejects_traversal() {
    let d = ImageDownloader::new("/downloads");
    assert_eq!(d.safe_dest("image.zip").unwrap(), "/downloads/image.zip".to_string());
    for bad in ["../evil", "a/b.img", "/etc/passwd", "..", "", "."] {
        assert!(d.safe_dest(bad).is_err(), "should reject {bad:?}");
    }
}

#[test]
fn safe_dest_reports_the_refused_name() {
    let d = ImageDownloader::new("/downloads/");
    assert_eq!(d.safe_dest("x.img").unwrap(), "/downloads/x.img");
    assert_eq!(d.safe_dest("./x").unwrap_err(), DownloadError::UnsafeFilename("./x".to_string()));
    assert_eq!(d.part_path("x.img"), "/downloads/x.img.part");
}

#[test]
fn sha256_hex_and_case_insensitive_verify() {
    assert_eq!(
        ChecksumVerifier::sha256(b"abc"),
        "ba7816bf8f01cfea414140de5dae2223b00361a396177a9cb410ff61f20015ad"
    );
    assert_eq!(
        ChecksumVerifier::sha256(b""),
        "e3b0c44298fc1c149afbf4c8996fb92427ae41e4649b934ca495991b7852b855"
    );
    assert!(ChecksumVerifier::verify(
        b"abc",
        "BA7816BF8F01CFEA414140DE5DAE2223B00361A396177A9CB410FF61F20015AD"
    ));
    assert!(!ChecksumVerifier::verify(b"abd", "ba7816bf8f01cfea414140de5dae2223b00361a396177a9cb410ff61f20015ad"));
    assert_eq!(hex_encode(&[0x00, 0x0f, 0xa5, 0xff]), "000fa5ff");
    let r = ChecksumVerifier::verify_all(
        &vec![
            ("a".to_string(), "ba7816bf8f01cfea414140de5dae2223b00361a396177a9cb410ff61f20015ad".to_string()),
            ("b".to_string(), "00".to_string()),
            ("c".to_string(), "00".to_string()),
        ],
        &vec![Some(b"abc".to_vec()), Some(b"abc".to_vec()), None],
    );
    assert_eq!(r, vec![("a".to_string(), true), ("b".to_string(), false), ("c".to_string(), false)]);
}

#[test]
fn checksum_files_later_lines_win() {
    let rows = ImageDownloader::parse_checksums("aaa  one.img\nbbb *two.img\nbad\nccc  one.img\n");
    assert_eq!(rows.len(), 3);
    assert_eq!(rows[1], ("two.img".to_string(), "bbb".to_string()));
    assert_eq!(ImageDownloader::checksum_for(&rows, "one.img"), Some("ccc".to_string()));
    assert_eq!(ImageDownloader::checksum_for(&rows, "three.img"), None);
}

#[test]
fn download_resume_decisions() {
    assert_eq!(ImageDownloader::range_header(0), None);
    assert_eq!(ImageDownloader::range_header(1024), Some("bytes=1024-".to_string()));
    assert!(ImageDownloader::resuming(10, 206));
    assert!(!ImageDownloader::resuming(10, 200));
    assert!(!ImageDownloader::resuming(0, 206));
    assert_eq!(ImageDownloader::total_size(Some(90), 10), 100);
    assert_eq!(ImageDownloader::total_size(None, 10), 10);
    assert!(ImageDownloader::keep_cached(true, Some("h"), true, 0));
    assert!(!ImageDownloader::keep_cached(true, Some("h"), false, 10));
    assert!(ImageDownloader::keep_cached(true, None, false, 1));
    assert!(!ImageDownloader::keep_cached(true, None, true, 0));
    assert!(!ImageDownloader::keep_cached(false, None, true, 5));
}

#[test]
fn decompressed_names_and_formats() {
    assert_eq!(Decompressor::format_of("rootfs.img.xz"), Compression::Xz);
    assert_eq!(Decompressor::format_of("boot.img.gz"), Compression::Gz);
    assert_eq!(Decompressor::format_of("boot.img"), Compression::Plain);
    assert_eq!(Decompressor::format_of(".xz"), Compression::Plain);
    assert_eq!(Decompressor::output_name("rootfs.img.xz"), "rootfs.img");
    assert_eq!(Decompressor::output_name(".bashrc"), ".bashrc");
    assert_eq!(Decompressor::output_name("noext"), "noext");
    assert_eq!(Decompressor::progress_percent(50, 100, 4), 12);
    assert_eq!(Decompressor::progress_percent(1000, 100, 3), 100);
}

#[test]
fn flash_executor_falls_back_to_decompressed_images() {
    assert_eq!(FlashExecutor::resolve_image("/img/boot.img.xz", true, false), Ok("/img/boot.img.xz".to_string()));
    assert_eq!(FlashExecutor::resolve_image("/img/boot.img.xz", false, true), Ok("/img/boot.img".to_string()));
    assert_eq!(FlashExecutor::resolve_image("/img/boot.img.gz", false, true), Ok("/img/boot.img".to_string()));
    assert_eq!(
        FlashExecutor::resolve_image("/img/boot.img", false, true),
        Err(ExecutorError::ImageNotFound("/img/boot.img".to_string()))
    );
    assert_eq!(
        FlashExecutor::resolve_image("/img/boot.img.xz", false, false),
        Err(ExecutorError::ImageNotFound("/img/boot.img.xz".to_string()))
    );
    assert_eq!(FlashExecutor::stripped_path("/x.y/z"), None);
    let ex = FlashExecutor::new(None);
    let p = sidestep::models::distro::PartitionImage {
        partition: "boot".to_string(),
        image: "boot.img".to_string(),
        erase_first: true,
    };
    assert_eq!(FlashExecutor::image_path("/img", &p), "/img/boot.img");
    let steps = ex.partition_steps("S", &p, "/img/boot.img");
    assert_eq!(steps.len(), 2);
    assert_eq!(ex.reboot("S").args, vec!["-s", "S", "reboot"]);
}

#[test]
fn streamed_hash_matches_the_whole() {
    let data: Vec<u8> = (0..200_000u32).map(|i| (i % 251) as u8).collect();
    let mut stream = Sha256Stream::new();
    for chunk in data.chunks(65_536) {
        stream.feed(chunk);
    }
    let whole = ChecksumVerifier::sha256(&data);
    assert_eq!(stream.finish_hex(), whole);
    let mut again = Sha256Stream::new();
    again.feed(&data[..7]);
    again.feed(&data[7..]);
    assert!(ChecksumVerifier::verify_stream(again, &whole.to_uppercase()));
    let mut other = Sha256Stream::new();
    other.feed(b"abc");
    assert!(!ChecksumVerifier::verify_stream(other, &whole));
    assert_eq!(
        Sha256Stream::new().finish_hex(),
        "e3b0c44298fc1c149afbf4c8996fb92427ae41e4649b934ca495991b7852b855"
    );
}
