use input_validation::{
    classify, classify_literally, ends_in, matches_extension, validate_file, Classification,
    FileError, MediaKind, Signature,
};
use std::io::Cursor;

const TEST_DIR: &str = "test_files";

fn jpeg() -> Result<Vec<u8>, String> {
    Ok(vec![0xFF, 0xD8, 0xFF, 0xE0, 0x00, 0x10, b'J', b'F', b'I', b'F', 0x00, 0x01])
}

fn png() -> Result<Vec<u8>, String> {
    Ok(vec![0x89, b'P', b'N', b'G', 0x0D, 0x0A, 0x1A, 0x0A, 0x00, 0x00, 0x00, 0x0D, b'I', b'H', b'D', b'R'])
}

fn avi() -> Result<Vec<u8>, String> {
    let mut bytes = b"RIFF".to_vec();
    bytes.extend_from_slice(&[0x24, 0x00, 0x00, 0x00]);
    bytes.extend_from_slice(b"AVI LIST");
    Ok(bytes)
}

fn mov() -> Result<Vec<u8>, String> {
    let mut bytes = vec![0x00, 0x00, 0x00, 0x14];
    bytes.extend_from_slice(b"ftypqt  ");
    bytes.extend_from_slice(&[0x00, 0x00, 0x02, 0x00]);
    bytes.extend_from_slice(b"qt  ");
    Ok(bytes)
}

fn mkv() -> Result<Vec<u8>, String> {
    let mut bytes = vec![0x1A, 0x45, 0xDF, 0xA3, 0x93];
    bytes.extend_from_slice(b"\x42\x82\x88matroska");
    bytes.resize(300, 0);
    Ok(bytes)
}

fn pdf() -> Result<Vec<u8>, String> {
    Ok(b"%PDF-1.4\n%\xE2\xE3\xCF\xD3\n1 0 obj\n".to_vec())
}

fn ppt() -> Result<Vec<u8>, String> {
    let mut file = cfb::CompoundFile::create(Cursor::new(Vec::new())).unwrap();
    let clsid = uuid::Uuid::parse_str("64818d10-4f9b-11cf-86ea-00aa00b929e8").unwrap();
    file.set_storage_clsid("/", clsid).unwrap();
    file.flush().unwrap();
    Ok(file.into_inner().into_inner())
}

fn toml_text() -> Result<Vec<u8>, String> {
    Ok(b"[package]\nname = \"demo\"\nversion = \"0.1.0\"\nedition = \"2021\"\n".to_vec())
}

fn signature(kind: MediaKind, extension: &str) -> Signature {
    Signature { kind, extension: extension.to_string() }
}

#[test]
fn valid_files_image() {
    assert_eq!(validate_file(&format!("{}/valid_image.jpg", TEST_DIR), jpeg(), false).unwrap().code(), 1);
    assert_eq!(validate_file(&format!("{}/valid_image.png", TEST_DIR), png(), false).unwrap().code(), 1);

    // valid image even if the extension doesn't correspond
    assert_eq!(validate_file(&format!("{}/invalid_ext_image_jpg.png", TEST_DIR), jpeg(), false).unwrap().code(), 1);
}

#[test]
fn valid_files_video() {
    assert_eq!(validate_file(&format!("{}/valid_video.avi", TEST_DIR), avi(), false).unwrap().code(), 2);
    assert_eq!(validate_file(&format!("{}/valid_video.mov", TEST_DIR), mov(), false).unwrap().code(), 2);

    // valid video even if the extension doesn't correspond
    assert_eq!(validate_file(&format!("{}/invalid_ext_video_avi.mp4", TEST_DIR), avi(), false).unwrap().code(), 2);
}

#[test]
fn invalid_files() {
    assert_eq!(validate_file(&format!("{}/invalid_file.pdf", TEST_DIR), pdf(), false).unwrap().code(), 0);
    assert_eq!(validate_file(&format!("{}/invalid_file.ppt", TEST_DIR), ppt(), false).unwrap().code(), 0);
}

#[test]
fn valid_extensions() {
    assert_eq!(validate_file(&format!("{}/valid_image.jpg", TEST_DIR), jpeg(), true).unwrap().code(), 1);
    assert_eq!(validate_file(&format!("{}/valid_video.avi", TEST_DIR), avi(), true).unwrap().code(), 2);

    // extensions should not be case sensitive
    assert_eq!(validate_file(&format!("{}/valid_ext_image.JpG", TEST_DIR), jpeg(), true).unwrap().code(), 1);
    assert_eq!(validate_file(&format!("{}/valid_ext_video.AVI", TEST_DIR), avi(), true).unwrap().code(), 2);
}

#[test]
fn invalid_extensions() {
    // content doesn't match extension
    assert_eq!(validate_file(&format!("{}/invalid_ext_image_jpg.png", TEST_DIR), jpeg(), true).unwrap().code(), 0);
    assert_eq!(validate_file(&format!("{}/invalid_ext_video_avi.mp4", TEST_DIR), avi(), true).unwrap().code(), 0);

    // adding extension doesn't pass
    assert_eq!(validate_file(&format!("{}/invalid_ext_image.jpg.png", TEST_DIR), jpeg(), true).unwrap().code(), 0);
    assert_eq!(validate_file(&format!("{}/invalid_ext_video.avi.mov", TEST_DIR), avi(), true).unwrap().code(), 0);
}

#[test]
fn invalid_filepath() {
    let missing = || Err(String::from("No such file or directory (os error 2)"));
    assert_eq!(validate_file("", missing(), false).unwrap_err().message(), "No such file or directory (os error 2)");
    assert_eq!(validate_file(&format!("{}/oe.png", TEST_DIR), missing(), false).unwrap_err().message(), "No such file or directory (os error 2)");
}

#[test]
fn invalid_file_type() {
    assert_eq!(validate_file("Cargo.toml", toml_text(), false).unwrap_err().message(), "File type is unknown.");
}

#[test]
fn read_failure_is_io_error() {
    let r = validate_file("a.png", Err(String::from("Permission denied (os error 13)")), true);
    assert_eq!(r, Err(FileError::Io(String::from("Permission denied (os error 13)"))));
}

#[test]
fn unknown_signature_is_its_own_error() {
    assert_eq!(validate_file("a.png", toml_text(), true), Err(FileError::UnknownFileType));
    assert_eq!(validate_file("a.png", Ok(Vec::new()), false), Err(FileError::UnknownFileType));
}

#[test]
fn verdicts_and_their_codes() {
    assert_eq!(validate_file("a.jpg", jpeg(), true), Ok(Classification::Image));
    assert_eq!(validate_file("a.avi", avi(), true), Ok(Classification::Video));
    assert_eq!(validate_file("a.pdf", pdf(), true), Ok(Classification::Invalid));
    assert_eq!(Classification::Invalid.code(), 0);
    assert_eq!(Classification::Image.code(), 1);
    assert_eq!(Classification::Video.code(), 2);
}

#[test]
fn renamed_jpeg() {
    assert_eq!(validate_file("photo.png", jpeg(), true), Ok(Classification::Invalid));
    assert_eq!(validate_file("photo.png", jpeg(), false), Ok(Classification::Image));
}

#[test]
fn sniffing_reads_the_content_not_the_name() {
    assert_eq!(validate_file("a.jpg", png(), false), Ok(Classification::Image));
    assert_eq!(validate_file("a.jpg", png(), true), Ok(Classification::Invalid));
    assert_eq!(validate_file("a.png", png(), true), Ok(Classification::Image));
    assert_eq!(validate_file("a.mov", mov(), true), Ok(Classification::Video));
}

#[test]
fn only_the_prefix_is_sniffed() {
    // The signature of a PDF may stand anywhere in the first 1024 bytes.
    let mut early = vec![b' '; 1000];
    early.extend_from_slice(b"%PDF-1.4");
    assert_eq!(validate_file("a.pdf", Ok(early), false), Ok(Classification::Invalid));

    // A long file is cut to its first 8192 bytes before it is sniffed.
    let mut long = jpeg().unwrap();
    long.resize(20000, 0);
    assert_eq!(validate_file("a.jpg", Ok(long), true), Ok(Classification::Image));
    assert_eq!(validate_file("a.bin", Ok(vec![0u8; 20000]), false), Err(FileError::UnknownFileType));
}

#[test]
fn classify_by_kind() {
    let kinds = [
        (MediaKind::App, 0),
        (MediaKind::Archive, 0),
        (MediaKind::Audio, 0),
        (MediaKind::Book, 0),
        (MediaKind::Doc, 0),
        (MediaKind::Font, 0),
        (MediaKind::Image, 1),
        (MediaKind::Text, 0),
        (MediaKind::Video, 2),
        (MediaKind::Custom, 0),
    ];
    for (kind, code) in kinds {
        assert_eq!(classify(&signature(kind, "ext"), "file.ext", false).code(), code);
        assert_eq!(classify(&signature(kind, "ext"), "file.ext", true).code(), code);
        assert_eq!(classify(&signature(kind, "ext"), "file.other", false).code(), code);
        assert_eq!(classify(&signature(kind, "ext"), "file.other", true).code(), 0);
    }
}

#[test]
fn extension_in_any_case() {
    for name in ["a.jpg", "a.JPG", "a.Jpg", "a.jPg", "a.jpG", "A.JpG", "jpg"] {
        assert!(matches_extension(name, "jpg"));
        assert!(matches_extension(name, "JPG"));
        assert_eq!(classify(&signature(MediaKind::Image, "jpg"), name, true), Classification::Image);
    }
}

#[test]
fn extension_is_anchored_at_the_end() {
    assert!(!matches_extension("a.jpg.png", "jpg"));
    assert!(!matches_extension("a.avi.mov", "avi"));
    assert!(!matches_extension("a.jpg ", "jpg"));
    assert!(!matches_extension("a.jpgx", "jpg"));
    assert!(!matches_extension("pg", "jpg"));
    assert!(!matches_extension("", "jpg"));
    // the end of the name repeats the extension
    assert!(matches_extension("a.jpg.jpg", "jpg"));
    assert!(matches_extension("a.jpg.xjpg", "jpg"));
}

#[test]
fn extension_is_compared_literally() {
    assert!(matches_extension("archive.c++", "c++"));
    assert!(!matches_extension("archive.ccc", "c++"));
    assert!(!matches_extension("a.xjpg", ".jpg"));
    assert!(matches_extension("anything", ""));
}

#[test]
fn letters_beyond_ascii_fold_too() {
    // U+212A KELVIN SIGN has `k` as its lower-case form
    assert!(matches_extension("a.m\u{212A}v", "mkv"));
    assert!(matches_extension("\u{6f22}.PNG", "png"));
    assert!(matches_extension("a.\u{c9}", "\u{e9}"));
    assert!(!matches_extension("a.\u{e8}", "\u{e9}"));
    assert_eq!(validate_file("a.m\u{212A}v", mkv(), true), Ok(Classification::Video));
    assert_eq!(validate_file("a.MKV", mkv(), true), Ok(Classification::Video));
    assert_eq!(validate_file("a.mkv.avi", mkv(), true), Ok(Classification::Invalid));
}

#[test]
fn extension_in_upper_case() {
    // the extension itself may hold capitals
    assert!(matches_extension("archive.z", "Z"));
    assert!(matches_extension("archive.Z", "Z"));
    assert!(matches_extension("archive.Z", "z"));
    assert_eq!(classify(&signature(MediaKind::Video, "AVI"), "a.avi", true), Classification::Video);
}

#[test]
fn ends_in_compares_as_written() {
    assert!(ends_in("a.jpg", "jpg"));
    assert!(ends_in("a.jpg", ".jpg"));
    assert!(ends_in("a.jpg", "a.jpg"));
    assert!(ends_in("a.jpg", ""));
    assert!(ends_in("", ""));
    assert!(!ends_in("a.JPG", "jpg"));
    assert!(!ends_in("a.jpg", "JPG"));
    assert!(!ends_in("a.jpg", "xa.jpg"));
    assert!(!ends_in("a.jpg.png", "jpg"));
    assert!(!ends_in("a.jpg", "jp"));
    assert!(!ends_in("", "j"));
    assert!(ends_in("\u{6f22}\u{5b57}", "\u{5b57}"));
    assert!(!ends_in("\u{6f22}\u{5b57}", "\u{6f22}"));
}

#[test]
fn classify_literally_by_kind_and_end() {
    assert_eq!(classify_literally(MediaKind::Image, "jpg", "a.jpg", true), Classification::Image);
    assert_eq!(classify_literally(MediaKind::Video, "avi", "a.avi", true), Classification::Video);
    assert_eq!(classify_literally(MediaKind::Doc, "ppt", "a.ppt", true), Classification::Invalid);
    assert_eq!(classify_literally(MediaKind::Image, "jpg", "a.JPG", true), Classification::Invalid);
    assert_eq!(classify_literally(MediaKind::Image, "jpg", "a.JPG", false), Classification::Image);
    assert_eq!(classify_literally(MediaKind::Image, "jpg", "a.jpg.png", true), Classification::Invalid);
    assert_eq!(classify_literally(MediaKind::Video, "avi", "a.avi.mov", true), Classification::Invalid);
    assert_eq!(classify_literally(MediaKind::Video, "avi", "a.avi.mov", false), Classification::Video);
    assert_eq!(classify_literally(MediaKind::Archive, "pdf", "a.jpg", false), Classification::Invalid);
}

#[test]
fn appended_extension_does_not_pass() {
    // each content is recognised, and a name that appends another
    // extension to the right one does not pass
    for (content, extension) in [(jpeg(), "jpg"), (png(), "png"), (avi(), "avi"), (mov(), "mov"), (pdf(), "pdf")] {
        let right = format!("file.{}", extension);
        let appended = format!("file.{}.bin", extension);
        let plain = validate_file(&right, content.clone(), false).unwrap();
        assert_eq!(validate_file(&right, content.clone(), true).unwrap(), plain);
        assert_eq!(validate_file(&appended, content, true).unwrap(), Classification::Invalid);
    }
}

#[test]
fn short_archive_frames_get_an_answer() {
    // a skippable frame that claims more bytes than the content holds
    let frame = vec![0x50, 0x2A, 0x4D, 0x18, 0xF8, 0xFF, 0xFF, 0xFF];
    assert_eq!(validate_file("a.zst", Ok(frame), false), Err(FileError::UnknownFileType));
}
