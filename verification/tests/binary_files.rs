use regex_sweep::paths::is_unsupported_binary_file;

#[test]
fn unsupported_binary_files_include_pdfs_and_images() {
    for path in [
        "example.pdf",
        "photo.PNG",
        "scan.jpeg",
        "icon.ico",
        "image.tiff",
        "compressed.svgz",
    ] {
        assert!(is_unsupported_binary_file(path));
    }
}

#[test]
fn text_like_files_are_not_treated_as_unsupported_binary_files() {
    for path in [
        "notes.txt",
        "src/main.rs",
        "README.md",
        "data.json",
        "vector.svg",
    ] {
        assert!(!is_unsupported_binary_file(path));
    }
}

#[test]
fn every_listed_binary_extension_is_skipped_in_any_case() {
    for ext in [
        "pdf", "png", "jpg", "jpeg", "gif", "webp", "bmp", "ico", "tif", "tiff", "heic", "heif",
        "avif", "raw", "svgz",
    ] {
        assert!(is_unsupported_binary_file(&format!("dir/file.{ext}")));
        assert!(is_unsupported_binary_file(&format!("file.{}", ext.to_uppercase())));
    }
}

#[test]
fn files_without_extension_or_dotfiles_are_not_binary() {
    assert!(!is_unsupported_binary_file("Makefile"));
    assert!(!is_unsupported_binary_file(".png"));
    assert!(!is_unsupported_binary_file("archive.png.txt"));
    assert!(is_unsupported_binary_file("archive.txt.png"));
}
