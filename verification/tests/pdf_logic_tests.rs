use preflight_rs::pdf::{
    file_info, has_pdf_magic, is_blank_page, metadata_inspection, page_content_fact, pdf_version,
    sha256_hex, PageContentFact, PdfInspection,
};

#[test]
fn blank_page_requires_no_text_images_or_vector_drawings() {
    assert!(is_blank_page(&PageContentFact {
        page: 1,
        text_chars: 0,
        image_count: 0,
        drawing_count: 0,
    }));
    assert!(!is_blank_page(&PageContentFact {
        page: 1,
        text_chars: 1,
        image_count: 0,
        drawing_count: 0,
    }));
    assert!(!is_blank_page(&PageContentFact {
        page: 1,
        text_chars: 0,
        image_count: 1,
        drawing_count: 0,
    }));
    assert!(!is_blank_page(&PageContentFact {
        page: 1,
        text_chars: 0,
        image_count: 0,
        drawing_count: 1,
    }));
}

#[test]
fn magic_bytes_open_a_pdf() {
    assert!(has_pdf_magic(b"%PDF-1.7\n"));
    assert!(has_pdf_magic(b"%PDF"));
    assert!(!has_pdf_magic(b"%PD"));
    assert!(!has_pdf_magic(b"GIF89a"));
    assert!(!has_pdf_magic(b""));
}

#[test]
fn version_is_read_from_the_header_line() {
    assert_eq!(pdf_version(b"%PDF-1.7\n%%EOF"), Some("1.7".to_owned()));
    assert_eq!(pdf_version(b"%PDF-2.0\r\nrest"), Some("2.0".to_owned()));
    assert_eq!(pdf_version(b"%PDF-1.4"), Some("1.4".to_owned()));
    assert_eq!(pdf_version(b"%PDF-"), Some(String::new()));
    assert_eq!(pdf_version(b"%PDF1.7\n"), None);
    assert_eq!(pdf_version(b"\n%PDF-1.7"), None);
    assert_eq!(pdf_version(&[0x25, 0x50, 0x44, 0x46, 0x2d, 0xff, 0x0a]), None);
    assert_eq!(pdf_version(b""), None);
}

#[test]
fn sha256_is_lower_case_hex() {
    assert_eq!(
        sha256_hex(b"abc"),
        "ba7816bf8f01cfea414140de5dae2223b00361a396177a9cb410ff61f20015ad"
    );
    assert_eq!(
        sha256_hex(b""),
        "e3b0c44298fc1c149afbf4c8996fb92427ae41e4649b934ca495991b7852b855"
    );
}

#[test]
fn file_info_reports_size_digest_and_version() {
    let info = file_info(b"%PDF-1.7\n%%EOF");
    assert_eq!(info.bytes, 14);
    assert_eq!(info.sha256.len(), 64);
    assert_ne!(info.sha256, sha256_hex(b""));
    assert_eq!(info.pdf_version, Some("1.7".to_owned()));
    assert_eq!(file_info(b"plain").pdf_version, None);
}

#[test]
fn page_content_counts_trimmed_text_and_the_larger_image_count() {
    let fact = page_content_fact(3, "  \n Hello \t\n", 1, 2, 5);
    assert_eq!(fact.page, 3);
    assert_eq!(fact.text_chars, 5);
    assert_eq!(fact.image_count, 2);
    assert_eq!(fact.drawing_count, 5);
    let blank = page_content_fact(1, " \u{3000}\n", 0, 0, 0);
    assert!(is_blank_page(&blank));
    assert_eq!(page_content_fact(1, "héllo", 3, 1, 0).text_chars, 5);
}

#[test]
fn metadata_hides_the_page_count_of_encrypted_documents() {
    let plain: PdfInspection<()> = metadata_inspection(false, false, Some(3));
    assert!(plain.readable);
    assert_eq!(plain.page_count, Some(3));
    assert!(plain.pages.is_empty());
    let locked: PdfInspection<()> = metadata_inspection(true, true, None);
    assert_eq!(locked.page_count, None);
    assert!(locked.encrypted && locked.printing_disallowed);
    let odd: PdfInspection<()> = metadata_inspection(false, false, Some(-2));
    assert_eq!(odd.page_count, Some(0));
}

#[test]
fn a_reported_version_is_the_header_line() {
    for bytes in [&b"%PDF-1.7\r\n%%EOF"[..], b"%PDF-2.0\nrest", "%PDF-1.ä\n".as_bytes()] {
        let version = pdf_version(bytes).expect("a header line");
        assert!(has_pdf_magic(bytes));
        assert!(bytes.starts_with(format!("%PDF-{version}").as_bytes()));
        assert!(!version.contains('\n') && !version.contains('\r'));
    }
}
