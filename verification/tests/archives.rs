use std::io::Write;

use sidestep::flashing::archive::{is_contained, tar_files, tar_xz_files, zip_files, ArchiveError};
use sidestep::flashing::decompressor::{DecompressError, Decompressor, XzImageDecoder};
use sidestep::flashing::downloader::{DownloadError, ImageDownloader};
use sidestep::models::sync::{accept_bundle, device_files, SyncError};

fn xz(data: &[u8]) -> Vec<u8> {
    let mut e = xz2::write::XzEncoder::new(Vec::new(), 6);
    e.write_all(data).unwrap();
    e.finish().unwrap()
}

fn gz(data: &[u8]) -> Vec<u8> {
    let mut e = flate2::write::GzEncoder::new(Vec::new(), flate2::Compression::default());
    e.write_all(data).unwrap();
    e.finish().unwrap()
}

fn tarball(files: &[(&str, &[u8])], dirs: &[&str]) -> Vec<u8> {
    let mut b = tar::Builder::new(Vec::new());
    for d in dirs {
        let mut h = tar::Header::new_gnu();
        h.set_entry_type(tar::EntryType::Directory);
        h.set_size(0);
        h.set_mode(0o755);
        h.set_cksum();
        b.append_data(&mut h, d, std::io::empty()).unwrap();
    }
    for (name, data) in files {
        let mut h = tar::Header::new_gnu();
        h.set_size(data.len() as u64);
        h.set_mode(0o644);
        h.set_cksum();
        b.append_data(&mut h, name, *data).unwrap();
    }
    b.into_inner().unwrap()
}

#[test]
fn xz_and_gz_images_decode_to_their_contents() {
    let image: Vec<u8> = (0..100_000u32).map(|i| (i % 251) as u8).collect();
    assert_eq!(Decompressor::decompress_xz_bytes(&xz(&image)), Ok(image.clone()));
    assert_eq!(Decompressor::decompress_gz_bytes(&gz(&image)), Ok(image.clone()));
    assert_eq!(Decompressor::decompress_xz_bytes(b"not xz"), Err(DecompressError::Corrupt));
    assert_eq!(Decompressor::decompress_gz_bytes(b"not gz"), Err(DecompressError::Corrupt));
    let packed = xz(&image);
    assert_eq!(Decompressor::decompress_xz_bytes(&packed[..packed.len() / 2]), Err(DecompressError::Corrupt));
}

#[test]
fn xz_image_decodes_chunk_by_chunk() {
    let image: Vec<u8> = (0..300_000u32).map(|i| (i * 7 % 256) as u8).collect();
    let packed = xz(&image);
    let mut d = XzImageDecoder::new();
    let mut out = Vec::new();
    for chunk in packed.chunks(1000) {
        out.extend(d.feed(chunk).unwrap());
    }
    out.extend(d.finish().unwrap());
    assert_eq!(out, image);
    let mut cut = XzImageDecoder::new();
    cut.feed(&packed[..packed.len() / 2]).unwrap();
    assert_eq!(cut.finish(), Err(DecompressError::Corrupt));
}

#[test]
fn tar_archives_list_every_entry_in_order() {
    let t = tarball(&[("a/one.txt", b"1"), ("a/two.txt", b"22")], &["a"]);
    let entries = tar_files(&t).unwrap();
    let seen: Vec<(String, bool, Vec<u8>)> = entries.into_iter().map(|e| (e.path, e.is_dir, e.data)).collect();
    assert_eq!(
        seen,
        vec![
            ("a".to_string(), true, vec![]),
            ("a/one.txt".to_string(), false, b"1".to_vec()),
            ("a/two.txt".to_string(), false, b"22".to_vec()),
        ]
    );
    let xs = tar_xz_files(&xz(&t)).unwrap();
    assert_eq!(xs.len(), 3);
    assert_eq!(xs[2].data, b"22".to_vec());
    assert_eq!(tar_xz_files(b"junk").unwrap_err(), ArchiveError::Unreadable);
}

#[test]
fn only_contained_paths_are_unpacked() {
    assert!(is_contained("a/b.img"));
    assert!(is_contained("./a"));
    assert!(!is_contained("../a"));
    assert!(!is_contained("/etc/passwd"));
    assert!(!is_contained("a/../../b"));
    assert!(!is_contained(""));
}

#[test]
fn zip_archives_keep_enclosed_entries() {
    let mut w = zip::ZipWriter::new(std::io::Cursor::new(Vec::new()));
    let opts = zip::write::SimpleFileOptions::default();
    w.add_directory("dir/", opts).unwrap();
    w.start_file("dir/flash-all.sh", opts).unwrap();
    w.write_all(b"fastboot flash").unwrap();
    w.start_file("../escape.txt", opts).unwrap();
    w.write_all(b"x").unwrap();
    let data = w.finish().unwrap().into_inner();
    let entries = zip_files(&data).unwrap();
    let seen: Vec<(String, bool, Vec<u8>)> = entries.into_iter().map(|e| (e.path, e.is_dir, e.data)).collect();
    assert_eq!(
        seen,
        vec![("dir/".to_string(), true, vec![]), ("dir/flash-all.sh".to_string(), false, b"fastboot flash".to_vec())]
    );
    assert_eq!(zip_files(b"not a zip").unwrap_err(), ArchiveError::Unreadable);
}

#[test]
fn device_bundle_yields_only_device_files() {
    let t = tarball(
        &[
            ("Sidestep-main/README.md", b"readme"),
            ("Sidestep-main/data/devices/google/sargo/info.yml", b"codename: sargo"),
            ("Sidestep-main/data/devices/google/sargo/distros.yml", b"available_distros: []"),
        ],
        &["Sidestep-main/data/devices/google"],
    );
    let bundle = gz(&t);
    let (files, count) = device_files(&bundle).unwrap();
    let seen: Vec<(String, bool)> = files.iter().map(|e| (e.path.clone(), e.is_dir)).collect();
    assert_eq!(
        seen,
        vec![
            ("google".to_string(), true),
            ("google/sargo/info.yml".to_string(), false),
            ("google/sargo/distros.yml".to_string(), false),
        ]
    );
    assert_eq!(files[1].data, b"codename: sargo".to_vec());
    assert_eq!(count, 2);
    // No key is configured in this build, so an unsigned bundle is accepted.
    let (accepted, n) = accept_bundle(&bundle, None).unwrap();
    assert_eq!((accepted.len(), n), (3, 2));
    assert_eq!(device_files(b"not a bundle").unwrap_err(), SyncError::UnreadableBundle);
}

#[test]
fn a_cancelled_download_stops_at_the_next_chunk() {
    assert_eq!(ImageDownloader::next_chunk(false), Ok(()));
    assert_eq!(ImageDownloader::next_chunk(true), Err(DownloadError::Cancelled));
}
