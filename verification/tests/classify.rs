use docpipe::document::{image_media_type, FileType};

#[test]
fn classify_known_extensions() {
    assert_eq!(FileType::from_filename("report.pdf"), FileType::Pdf);
    assert_eq!(FileType::from_filename("letter.docx"), FileType::Docx);
    assert_eq!(FileType::from_filename("sheet.xlsx"), FileType::Xlsx);
    assert_eq!(FileType::from_filename("notes.txt"), FileType::Txt);
    assert_eq!(FileType::from_filename("readme.md"), FileType::Md);
}

#[test]
fn classify_is_case_insensitive() {
    assert_eq!(FileType::from_filename("REPORT.PDF"), FileType::Pdf);
    assert_eq!(FileType::from_filename("Sheet.XlSx"), FileType::Xlsx);
    assert_eq!(FileType::from_filename("a.Md"), FileType::Md);
}

#[test]
fn classify_unknown_extensions() {
    assert_eq!(FileType::from_filename("archive.zip"), FileType::Unknown);
    assert_eq!(FileType::from_filename("noext"), FileType::Unknown);
    assert_eq!(FileType::from_filename(""), FileType::Unknown);
    assert_eq!(FileType::from_filename("report.pdf.bak"), FileType::Unknown);
}

#[test]
fn classify_uses_last_dot_segment() {
    assert_eq!(FileType::from_filename("archive.tar.md"), FileType::Md);
    // A name without a dot is itself the segment that is matched.
    assert_eq!(FileType::from_filename("pdf"), FileType::Pdf);
}

#[test]
fn type_tags() {
    assert_eq!(FileType::Pdf.to_string(), "pdf");
    assert_eq!(FileType::Docx.to_string(), "docx");
    assert_eq!(FileType::Xlsx.to_string(), "xlsx");
    assert_eq!(FileType::Txt.to_string(), "txt");
    assert_eq!(FileType::Md.to_string(), "md");
    assert_eq!(FileType::Unknown.to_string(), "unknown");
}

#[test]
fn media_types() {
    assert_eq!(FileType::Pdf.media_type(), "application/pdf");
    assert_eq!(FileType::Txt.media_type(), "text/plain");
    assert_eq!(FileType::Md.media_type(), "text/markdown");
    assert_eq!(FileType::Unknown.media_type(), "application/octet-stream");
}

#[test]
fn image_media_types() {
    assert_eq!(image_media_type("page-1.png"), Some("image/png"));
    assert_eq!(image_media_type("photo.JPG"), Some("image/jpeg"));
    assert_eq!(image_media_type("photo.jpeg"), Some("image/jpeg"));
    assert_eq!(image_media_type("anim.gif"), Some("image/gif"));
    assert_eq!(image_media_type("pic.webp"), Some("image/webp"));
    assert_eq!(image_media_type("script.js"), None);
    assert_eq!(image_media_type("png"), None);
    assert_eq!(image_media_type(".png"), None);
}
