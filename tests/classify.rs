use gia_gui::classify::{classify, is_media_extension, is_media_file, option_line, FileKind};
use gia_gui::text::text_eq;

#[test]
fn upper_case_media_extension_is_media() {
    assert_eq!(classify("photo.JPG"), FileKind::Media);
    assert_eq!(option_line("photo.JPG"), "-iphoto.JPG");
}

#[test]
fn text_file_is_generic() {
    assert_eq!(classify("notes.txt"), FileKind::Generic);
    assert_eq!(option_line("notes.txt"), "-fnotes.txt");
}

#[test]
fn file_without_extension_is_generic() {
    assert_eq!(classify("README"), FileKind::Generic);
    assert_eq!(option_line("README"), "-fREADME");
}

#[test]
fn every_media_extension_is_media() {
    for ext in ["jpg", "jpeg", "png", "webp", "heic", "pdf", "ogg", "opus", "mp3", "m4a", "mp4"] {
        let path = format!("/tmp/dir/file.{}", ext);
        assert!(is_media_file(&path), "{}", path);
        let upper = format!("/tmp/dir/FILE.{}", ext.to_uppercase());
        assert!(is_media_file(&upper), "{}", upper);
        assert!(is_media_extension(ext));
    }
}

#[test]
fn near_misses_are_generic() {
    for path in ["a.jpgx", "a.mp", "a.tar.gz", "jpg", ".png", "dir.png/file", "a.", "a.md"] {
        assert_eq!(classify(path), FileKind::Generic, "{}", path);
    }
    assert!(!is_media_extension("JPG"));
    assert!(!is_media_extension(""));
}

#[test]
fn last_extension_decides() {
    assert_eq!(classify("archive.txt.pdf"), FileKind::Media);
    assert_eq!(classify("scan.pdf.txt"), FileKind::Generic);
}

#[test]
fn classifying_twice_agrees() {
    for path in ["photo.JPG", "notes.txt", "README", "/a/b/c.Opus", ""] {
        assert_eq!(classify(path), classify(path));
    }
}

#[test]
fn option_line_keeps_spaces_and_absolute_path() {
    assert_eq!(option_line("/home/me/My Pictures/cat.PNG"), "-i/home/me/My Pictures/cat.PNG");
    assert_eq!(option_line("/home/me/notes and ideas"), "-f/home/me/notes and ideas");
}

#[test]
fn text_equality() {
    assert!(text_eq("abc", "abc"));
    assert!(!text_eq("abc", "abd"));
    assert!(!text_eq("abc", "ab"));
    assert!(text_eq("", ""));
}
