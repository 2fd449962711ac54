//! Ingestion of whole packages, built in memory as real archives.
use epub_audio::epub_parser::parse_epub;
use epub_audio::store::DocumentStore;
use std::io::Cursor;
use std::io::Write;

fn build_epub(
    metadata_xml: &str,
    manifest_items: &[(&str, &str)],
    spine: &[&str],
    files: &[(&str, &[u8])],
) -> Vec<u8> {
    let cursor = Cursor::new(Vec::new());
    let mut writer = zip::ZipWriter::new(cursor);
    let opts = zip::write::SimpleFileOptions::default()
        .compression_method(zip::CompressionMethod::Stored);
    writer.start_file("mimetype", opts).unwrap();
    writer.write_all(b"application/epub+zip").unwrap();
    writer.start_file("META-INF/container.xml", opts).unwrap();
    writer
        .write_all(
            br#"<?xml version="1.0"?><container version="1.0" xmlns="urn:oasis:names:tc:opendocument:xmlns:container"><rootfiles><rootfile full-path="OEBPS/content.opf" media-type="application/oebps-package+xml"/></rootfiles></container>"#,
        )
        .unwrap();
    let mut opf = String::new();
    opf.push_str(
        r#"<?xml version="1.0"?><package xmlns="http://www.idpf.org/2007/opf" version="3.0" unique-identifier="id"><metadata xmlns:dc="http://purl.org/dc/elements/1.1/">"#,
    );
    opf.push_str(metadata_xml);
    opf.push_str("</metadata><manifest>");
    for (id, href) in manifest_items {
        opf.push_str(&format!(
            r#"<item id="{}" href="{}" media-type="application/xhtml+xml"/>"#,
            id, href
        ));
    }
    opf.push_str("</manifest><spine>");
    for id in spine {
        opf.push_str(&format!(r#"<itemref idref="{}"/>"#, id));
    }
    opf.push_str("</spine></package>");
    writer.start_file("OEBPS/content.opf", opts).unwrap();
    writer.write_all(opf.as_bytes()).unwrap();
    for (path, content) in files {
        writer.start_file(*path, opts).unwrap();
        writer.write_all(content).unwrap();
    }
    let cursor = writer.finish().unwrap();
    cursor.into_inner()
}

fn sample_metadata() -> &'static str {
    "<dc:title>Sample Book</dc:title><dc:creator>Jane Roe</dc:creator><dc:date>2001</dc:date><dc:language>en</dc:language><dc:description>About nothing.</dc:description>"
}

#[test]
fn ingestion_yields_one_chapter_per_spine_entry() {
    let data = build_epub(
        sample_metadata(),
        &[("c1.xhtml", "c1.xhtml"), ("c2.xhtml", "c2.xhtml"), ("c3.xhtml", "c3.xhtml")],
        &["c1.xhtml", "c2.xhtml", "c3.xhtml"],
        &[
            ("OEBPS/c1.xhtml", b"<html><body><p>First chapter text.</p></body></html>"),
            ("OEBPS/c2.xhtml", b"<html><body><p>Second chapter text.</p></body></html>"),
            ("OEBPS/c3.xhtml", b"<html><body><p>Third chapter text.</p></body></html>"),
        ],
    );
    let content = parse_epub(&data).unwrap();
    assert_eq!(content.chapters.len(), 3);
    assert_eq!(content.metadata.chapters.len(), 3);
    assert_eq!(content.chapters[0].title, "Chapter 1");
    assert_eq!(content.chapters[1].title, "Chapter 2");
    assert_eq!(content.chapters[2].title, "Chapter 3");
    assert_eq!(content.chapters[0].path, "c1.xhtml");
    assert_eq!(content.chapters[1].path, "c2.xhtml");
    assert_eq!(content.chapters[2].path, "c3.xhtml");
    assert_eq!(content.chapters[0].content, "First chapter text.");
    assert_eq!(content.chapters[1].content, "Second chapter text.");
    assert_eq!(content.chapters[2].content, "Third chapter text.");
    assert!(content.chapters.iter().all(|c| c.resolved));
    assert_eq!(content.metadata.title, "Sample Book");
    assert_eq!(content.metadata.author, "Jane Roe");
    assert_eq!(content.metadata.publication_date.as_deref(), Some("2001"));
    assert_eq!(content.metadata.language.as_deref(), Some("en"));
    assert_eq!(content.metadata.description.as_deref(), Some("About nothing."));
}

#[test]
fn unresolvable_entry_still_yields_its_chapter() {
    let data = build_epub(
        sample_metadata(),
        &[("c1.xhtml", "c1.xhtml")],
        &["c1.xhtml", "ghost.xhtml", "c3.xhtml"],
        &[
            ("OEBPS/c1.xhtml", b"<html><body><p>Real text.</p></body></html>"),
            ("OEBPS/c3.xhtml", b"<html><body><p>Later text.</p></body></html>"),
        ],
    );
    let content = parse_epub(&data).unwrap();
    assert_eq!(content.chapters.len(), 3);
    assert_eq!(content.chapters[1].title, "Chapter 2");
    assert_eq!(content.chapters[1].path, "ghost.xhtml");
    assert_eq!(content.chapters[1].content, "");
    assert!(!content.chapters[1].resolved);
    assert_eq!(content.chapters[0].content, "Real text.");
    assert_eq!(content.chapters[2].content, "Later text.");
}

#[test]
fn content_is_found_under_conventional_prefixes() {
    let data = build_epub(
        sample_metadata(),
        &[("a.xhtml", "a.xhtml"), ("b.xhtml", "b.xhtml"), ("c.xhtml", "c.xhtml")],
        &["a.xhtml", "b.xhtml", "c.xhtml"],
        &[
            ("a.xhtml", b"<html><body><p>At the root.</p></body></html>"),
            ("text/b.xhtml", b"<html><body><p>Under text.</p></body></html>"),
            ("OEBPS/Text/c.xhtml", b"<html><body><p>Under both.</p></body></html>"),
        ],
    );
    let content = parse_epub(&data).unwrap();
    assert_eq!(content.chapters[0].content, "At the root.");
    assert_eq!(content.chapters[1].content, "Under text.");
    assert_eq!(content.chapters[2].content, "Under both.");
}

#[test]
fn entry_with_invalid_text_is_a_resolution_gap() {
    let data = build_epub(
        sample_metadata(),
        &[("c1.xhtml", "c1.xhtml")],
        &["c1.xhtml"],
        &[("OEBPS/c1.xhtml", &[0xff, 0xfe, 0x00, 0x80])],
    );
    let content = parse_epub(&data).unwrap();
    assert_eq!(content.chapters.len(), 1);
    assert_eq!(content.chapters[0].content, "");
    assert!(!content.chapters[0].resolved);
}

#[test]
fn missing_metadata_degrades_to_defaults() {
    let data = build_epub(
        "",
        &[("c1.xhtml", "c1.xhtml")],
        &["c1.xhtml"],
        &[("OEBPS/c1.xhtml", b"<html><body><p>Text.</p></body></html>")],
    );
    let content = parse_epub(&data).unwrap();
    assert_eq!(content.metadata.title, "Unknown Title");
    assert_eq!(content.metadata.author, "Unknown Author");
    assert_eq!(content.metadata.publication_date, None);
    assert_eq!(content.metadata.language, None);
    assert_eq!(content.metadata.description, None);
}

fn build_raw_zip(entries: &[(&str, &[u8])]) -> Vec<u8> {
    let cursor = Cursor::new(Vec::new());
    let mut writer = zip::ZipWriter::new(cursor);
    let opts = zip::write::SimpleFileOptions::default()
        .compression_method(zip::CompressionMethod::Stored);
    for (path, content) in entries {
        writer.start_file(*path, opts).unwrap();
        writer.write_all(content).unwrap();
    }
    writer.finish().unwrap().into_inner()
}

#[test]
fn rootless_rootfile_path_is_an_error_not_a_crash() {
    for path in ["", "/", "//"] {
        let container = format!(
            r#"<?xml version="1.0"?><container version="1.0" xmlns="urn:oasis:names:tc:opendocument:xmlns:container"><rootfiles><rootfile full-path="{}" media-type="application/oebps-package+xml"/></rootfiles></container>"#,
            path
        );
        let data = build_raw_zip(&[
            ("mimetype", b"application/epub+zip".as_slice()),
            ("META-INF/container.xml", container.as_bytes()),
        ]);
        assert!(parse_epub(&data).is_err(), "full-path={:?}", path);
    }
}

#[test]
fn character_reference_rootfile_path_is_an_error_not_a_crash() {
    for path in ["&#47;", "&#x2F;", "&#47;&#47;"] {
        let container = format!(
            r#"<?xml version="1.0"?><container version="1.0" xmlns="urn:oasis:names:tc:opendocument:xmlns:container"><rootfiles><rootfile full-path="{}" media-type="application/oebps-package+xml"/></rootfiles></container>"#,
            path
        );
        let data = build_raw_zip(&[
            ("mimetype", b"application/epub+zip".as_slice()),
            ("META-INF/container.xml", container.as_bytes()),
        ]);
        assert!(parse_epub(&data).is_err(), "full-path={:?}", path);
    }
}

#[test]
fn nested_empty_rootfile_path_is_an_error_not_a_crash() {
    let container =
        br#"<?xml version="1.0"?><rootfile full-path="x"><rootfile full-path=""/></rootfile>"#;
    let data = build_raw_zip(&[
        ("mimetype", b"application/epub+zip".as_slice()),
        ("META-INF/container.xml", container.as_slice()),
    ]);
    assert!(parse_epub(&data).is_err());
}

#[test]
fn utf16_container_is_accepted() {
    let container = r#"<?xml version="1.0"?><container version="1.0" xmlns="urn:oasis:names:tc:opendocument:xmlns:container"><rootfiles><rootfile full-path="OEBPS/content.opf" media-type="application/oebps-package+xml"/></rootfiles></container>"#;
    let utf16: Vec<u8> = std::iter::once(0xfeffu16)
        .chain(container.encode_utf16())
        .flat_map(|u| u.to_le_bytes())
        .collect();
    let opf = br#"<?xml version="1.0"?><package xmlns="http://www.idpf.org/2007/opf" version="3.0"><metadata xmlns:dc="http://purl.org/dc/elements/1.1/"><dc:title>Wide Book</dc:title></metadata><manifest><item id="c1.xhtml" href="c1.xhtml" media-type="application/xhtml+xml"/></manifest><spine><itemref idref="c1.xhtml"/></spine></package>"#;
    let data = build_raw_zip(&[
        ("mimetype", b"application/epub+zip".as_slice()),
        ("META-INF/container.xml", &utf16),
        ("OEBPS/content.opf", opf.as_slice()),
        ("OEBPS/c1.xhtml", b"<html><body><p>Wide text.</p></body></html>".as_slice()),
    ]);
    let content = parse_epub(&data).unwrap();
    assert_eq!(content.metadata.title, "Wide Book");
    assert_eq!(content.chapters.len(), 1);
    assert_eq!(content.chapters[0].content, "Wide text.");
}

#[test]
fn single_quoted_empty_rootfile_path_is_an_error_too() {
    let container = br#"<?xml version="1.0"?><container version="1.0" xmlns="urn:oasis:names:tc:opendocument:xmlns:container"><rootfiles><rootfile full-path='' media-type="application/oebps-package+xml"/></rootfiles></container>"#;
    let data = build_raw_zip(&[
        ("mimetype", b"application/epub+zip".as_slice()),
        ("META-INF/container.xml", container.as_slice()),
    ]);
    assert!(parse_epub(&data).is_err());
}

#[test]
fn first_successful_candidate_wins() {
    let data = build_epub(
        sample_metadata(),
        &[("a.xhtml", "a.xhtml"), ("b.xhtml", "b.xhtml")],
        &["a.xhtml", "b.xhtml"],
        &[
            ("a.xhtml", b"<html><body><p>Verbatim wins.</p></body></html>"),
            ("text/a.xhtml", b"<html><body><p>Never read.</p></body></html>"),
            ("text/b.xhtml", b"<html><body><p>Text prefix wins.</p></body></html>"),
            ("OEBPS/b.xhtml", b"<html><body><p>Not this one.</p></body></html>"),
        ],
    );
    let content = parse_epub(&data).unwrap();
    assert_eq!(content.chapters[0].content, "Verbatim wins.");
    assert_eq!(content.chapters[1].content, "Text prefix wins.");
}

#[test]
fn corrupt_package_fails_ingestion_once() {
    let result = parse_epub(b"this is no archive at all");
    assert!(result.is_err());
    let message = result.err().unwrap();
    assert!(message.starts_with("Failed to parse EPUB:"));
}

#[test]
fn ingesting_twice_gives_distinct_ids_and_identical_text() {
    let data = build_epub(
        sample_metadata(),
        &[("c1.xhtml", "c1.xhtml"), ("c2.xhtml", "c2.xhtml")],
        &["c1.xhtml", "c2.xhtml"],
        &[
            ("OEBPS/c1.xhtml", b"<html><body><p>One.</p></body></html>"),
            ("OEBPS/c2.xhtml", b"<html><body><p>Two.</p></body></html>"),
        ],
    );
    let first = parse_epub(&data).unwrap();
    let second = parse_epub(&data).unwrap();
    let mut store = DocumentStore::new();
    let id1 = store.save_document(first.metadata);
    let id2 = store.save_document(second.metadata);
    assert_ne!(id1, id2);
    assert!(id2 > id1);
    let d1 = store.get_document(id1).unwrap();
    let d2 = store.get_document(id2).unwrap();
    assert_eq!(d1.metadata.chapters.len(), d2.metadata.chapters.len());
    for (a, b) in d1.metadata.chapters.iter().zip(d2.metadata.chapters.iter()) {
        assert_eq!(a.content, b.content);
        assert_eq!(a.title, b.title);
    }
}
