use fswp::domain::{FileEntry, FileType, Timestamp};
use fswp::preview::{
    binary_preview, contains_text, halfblock_lines, image_header_lines, pdf_preview, unpadded_rows,
    MAX_IMAGE_HEIGHT, MAX_IMAGE_WIDTH, MAX_PREVIEW_LINES,
};
use fswp::preview_content::{PreviewContent, Rgb};

fn entry(name: &str, size: u64, file_type: FileType) -> FileEntry {
    FileEntry {
        path: format!("/d/{}", name),
        name: name.to_string(),
        size,
        modified_date: Timestamp { secs: 0, nanos: 0 },
        file_type,
    }
}

fn text_lines(c: PreviewContent) -> Vec<String> {
    match c {
        PreviewContent::Text(l) => l,
        _ => panic!("expected text"),
    }
}

#[test]
fn binary_preview_describes_the_file() {
    let lines = text_lines(binary_preview(&entry("blob.bin", 4096, FileType::Binary)));
    assert_eq!(
        lines,
        vec![
            "Binary file: blob.bin".to_string(),
            "Size: 4096 bytes".to_string(),
            String::new(),
            "[Binary content not displayed]".to_string(),
        ]
    );
}

#[test]
fn image_header_shows_name_dimensions_and_size() {
    let lines = image_header_lines(&"cat.png".to_string(), 2048, 640, 480);
    assert_eq!(lines.len(), 3);
    assert_eq!(lines[0].spans[0].text, "Image: ");
    assert!(lines[0].spans[0].bold);
    assert_eq!(lines[0].spans[1].text, "cat.png");
    assert_eq!(lines[1].spans[0].text, "Dimensions: 640×480 px");
    assert_eq!(lines[1].spans[2].text, "Size: 2048 bytes");
    assert!(lines[2].spans.is_empty());
}

#[test]
fn halfblocks_pair_pixel_rows() {
    let px = |v: u8| Rgb { r: v, g: v, b: v };
    let pixels: Vec<Rgb> = (0..6).map(px).collect();
    let lines = halfblock_lines(&pixels, 2, 3);
    assert_eq!(lines.len(), 1);
    assert_eq!(lines[0].spans.len(), 2);
    assert_eq!(lines[0].spans[0].text, "▀");
    assert_eq!(lines[0].spans[0].fg, Some(px(0)));
    assert_eq!(lines[0].spans[0].bg, Some(px(2)));
    assert_eq!(lines[0].spans[1].fg, Some(px(1)));
    assert_eq!(lines[0].spans[1].bg, Some(px(3)));
}

#[test]
fn pdf_preview_with_text() {
    let e = entry("doc.pdf", 10, FileType::Pdf);
    let lines = text_lines(pdf_preview(&e, &Ok(vec!["Hello".to_string()])));
    assert_eq!(lines, vec!["PDF: doc.pdf".to_string(), "Size: 10 bytes".to_string(), String::new(), "Hello".to_string()]);
}

#[test]
fn pdf_preview_without_text() {
    let e = entry("scan.pdf", 7, FileType::Pdf);
    let lines = text_lines(pdf_preview(&e, &Ok(vec![])));
    assert_eq!(lines.len(), 6);
    assert_eq!(lines[3], "[This PDF contains no extractable text (may be scanned/image-based)]");
    assert_eq!(lines[5], "Press 'o' to open in your default PDF viewer.");
}

#[test]
fn pdf_preview_errors_name_the_cause() {
    let e = entry("x.pdf", 1, FileType::Pdf);
    let missing = text_lines(pdf_preview(&e, &Err("Pdfium library not available. Install it.".to_string())));
    assert_eq!(missing[3], "Error: Pdfium library not available. Install it.");
    assert_eq!(missing[5], "[PDF preview requires the Pdfium library. See: https://pdfium.googlesource.com/pdfium/]");
    let broken = text_lines(pdf_preview(&e, &Err("PDF loading error: bad header".to_string())));
    assert_eq!(broken[5], "[This PDF may be corrupted, password-protected, or use unsupported features]");
    assert_eq!(broken.len(), 8);
}

#[test]
fn contains_text_finds_substrings() {
    assert!(contains_text("abcdef", "cde"));
    assert!(contains_text("abc", ""));
    assert!(!contains_text("abc", "abcd"));
    assert!(!contains_text("abcabd", "abe"));
}

#[test]
fn unpadded_rows_drops_row_padding() {
    // two rows of one RGBA pixel, each padded to 6 bytes
    let raw = vec![1, 2, 3, 4, 0, 0, 5, 6, 7, 8, 0, 0];
    assert_eq!(unpadded_rows(&raw, 1, 2), vec![1, 2, 3, 4, 5, 6, 7, 8]);
    let tight = vec![1, 2, 3, 4, 5, 6, 7, 8];
    assert_eq!(unpadded_rows(&tight, 1, 2), tight);
}

#[test]
fn preview_limits() {
    assert_eq!(MAX_PREVIEW_LINES, 50);
    assert_eq!(MAX_IMAGE_WIDTH, 160);
    assert_eq!(MAX_IMAGE_HEIGHT, 100);
}
