//! End-to-end tests: whole archives converted to text.

use std::io::Write;
use epub2txt::{epub2txt, Book, EpubError};

const CONTAINER: &str = "<?xml version=\"1.0\"?><container><rootfiles>\
         <rootfile full-path=\"OEBPS/content.opf\" media-type=\"application/oebps-package+xml\"/>\
         </rootfiles></container>";

const SAMPLE_OPF: &str = "<?xml version=\"1.0\"?><package><metadata>\
         <dc:title>Sample Book</dc:title>\
         </metadata><manifest>\
         <item id=\"c1\" href=\"c1.xhtml\"/>\
         </manifest><spine>\
         <itemref idref=\"c1\"/>\
         </spine></package>";

const SAMPLE_CHAPTER: &str = "<html><body><p>Hello world.</p></body></html>";

fn build_epub(entries: &[(&str, &str)]) -> Vec<u8> {
    let mut w = zip::ZipWriter::new(std::io::Cursor::new(Vec::new()));
    let opts =
        zip::write::SimpleFileOptions::default().compression_method(zip::CompressionMethod::Stored);
    for (name, data) in entries {
        w.start_file(*name, opts).unwrap();
        w.write_all(data.as_bytes()).unwrap();
    }
    w.finish().unwrap().into_inner()
}

fn sample_epub() -> Vec<u8> {
    build_epub(&[
        ("META-INF/container.xml", CONTAINER),
        ("OEBPS/content.opf", SAMPLE_OPF),
        ("OEBPS/c1.xhtml", SAMPLE_CHAPTER),
    ])
}

#[test]
fn end_to_end_sample_book() {
    let bytes = sample_epub();
    let mut out = String::new();
    epub2txt(&bytes, &mut out).unwrap();
    assert!(out.starts_with("title: Sample Book\nauthor: anonymous\ndescription: None\n\n\n"));
    assert!(out.contains("Hello world."));
    assert!(out.contains("\n-----\n\n"));
}

#[test]
fn output_begins_with_three_metadata_lines() {
    let bytes = sample_epub();
    let mut out = String::new();
    epub2txt(&bytes, &mut out).unwrap();
    let mut lines = out.lines();
    assert_eq!(lines.next(), Some("title: Sample Book"));
    assert_eq!(lines.next(), Some("author: anonymous"));
    assert_eq!(lines.next(), Some("description: None"));
}

#[test]
fn metadata_values_are_trimmed() {
    let opf = "<package><metadata>\
         <dc:title>  Padded Title\n</dc:title>\
         <dc:creator> An Author </dc:creator>\
         <dc:description>\tWords. </dc:description>\
         </metadata><manifest><item id=\"c1\" href=\"c1.xhtml\"/></manifest>\
         <spine><itemref idref=\"c1\"/></spine></package>";
    let bytes = build_epub(&[
        ("META-INF/container.xml", CONTAINER),
        ("OEBPS/content.opf", opf),
        ("OEBPS/c1.xhtml", SAMPLE_CHAPTER),
    ]);
    let mut out = String::new();
    epub2txt(&bytes, &mut out).unwrap();
    assert!(out.starts_with("title: Padded Title\nauthor: An Author\ndescription: Words.\n\n\n"));
}

#[test]
fn missing_title_fails_and_writes_nothing() {
    let opf = "<package><metadata></metadata>\
         <manifest><item id=\"c1\" href=\"c1.xhtml\"/></manifest>\
         <spine><itemref idref=\"c1\"/></spine></package>";
    let bytes = build_epub(&[
        ("META-INF/container.xml", CONTAINER),
        ("OEBPS/content.opf", opf),
        ("OEBPS/c1.xhtml", SAMPLE_CHAPTER),
    ]);
    let mut out = String::new();
    let r = epub2txt(&bytes, &mut out);
    assert_eq!(r, Err(EpubError::NoTitle));
    assert_eq!(out, "");
}

#[test]
fn all_itemrefs_unresolvable_fails() {
    let opf = "<package><metadata><dc:title>T</dc:title></metadata>\
         <manifest><item id=\"c1\" href=\"c1.xhtml\"/></manifest>\
         <spine><itemref idref=\"nope\"/><itemref idref=\"missing\"/></spine></package>";
    let bytes = build_epub(&[
        ("META-INF/container.xml", CONTAINER),
        ("OEBPS/content.opf", opf),
        ("OEBPS/c1.xhtml", SAMPLE_CHAPTER),
    ]);
    let mut out = String::new();
    let r = epub2txt(&bytes, &mut out);
    assert_eq!(r, Err(EpubError::EmptySpine));
    assert_eq!(out, "");
}

#[test]
fn rendering_twice_is_byte_identical() {
    let bytes = sample_epub();
    let mut first = String::new();
    epub2txt(&bytes, &mut first).unwrap();
    let mut second = String::new();
    epub2txt(&bytes, &mut second).unwrap();
    assert_eq!(first, second);
}

#[test]
fn rendering_same_book_twice_appends_identical_text() {
    let bytes = sample_epub();
    let archive = zip::ZipArchive::new(std::io::Cursor::new(bytes.clone())).unwrap();
    let mut book = Book::from_container(archive).unwrap();
    let mut first = String::new();
    book.write_to(&mut first).unwrap();
    let mut second = String::new();
    book.write_to(&mut second).unwrap();
    assert_eq!(first, second);
}

const NAV_OPF: &str = "<?xml version=\"1.0\"?><package><metadata>\
         <dc:title>Nav Book</dc:title>\
         </metadata><manifest>\
         <item id=\"ncx\" href=\"toc.ncx\"/>\
         <item id=\"c1\" href=\"c1.xhtml\"/>\
         </manifest></package>";

#[test]
fn nav_dedup_keeps_lower_order() {
    let ncx = "<ncx><navMap>\
         <navPoint id=\"n2\" playOrder=\"2\">\
         <navLabel><text>Two</text></navLabel><content src=\"c1.xhtml\"/></navPoint>\
         <navPoint id=\"n1\" playOrder=\"1\">\
         <navLabel><text>One</text></navLabel><content src=\"c1.xhtml\"/></navPoint>\
         </navMap></ncx>";
    let bytes = build_epub(&[
        ("META-INF/container.xml", CONTAINER),
        ("OEBPS/content.opf", NAV_OPF),
        ("OEBPS/toc.ncx", ncx),
        ("OEBPS/c1.xhtml", SAMPLE_CHAPTER),
    ]);
    let archive = zip::ZipArchive::new(std::io::Cursor::new(bytes.clone())).unwrap();
    let book = Book::from_container(archive).unwrap();
    assert_eq!(book.spine.len(), 1);
    assert_eq!(book.spine[0].order, 1);
    assert_eq!(book.spine[0].label.trim(), "One");
    assert_eq!(book.spine[0].path, "OEBPS/c1.xhtml");
}

#[test]
fn nav_label_prefixes_rendered_text() {
    let ncx = "<ncx><navMap>\
         <navPoint id=\"n1\" playOrder=\"1\">\
         <navLabel><text>Chapter One</text></navLabel><content src=\"c1.xhtml\"/></navPoint>\
         </navMap></ncx>";
    let bytes = build_epub(&[
        ("META-INF/container.xml", CONTAINER),
        ("OEBPS/content.opf", NAV_OPF),
        ("OEBPS/toc.ncx", ncx),
        ("OEBPS/c1.xhtml", SAMPLE_CHAPTER),
    ]);
    let mut out = String::new();
    epub2txt(&bytes, &mut out).unwrap();
    assert!(out.contains("Chapter One:\n"));
    assert!(out.contains("Hello world."));
}

#[test]
fn nav_points_without_playorder_are_skipped() {
    let ncx = "<ncx><navMap>\
         <navPoint id=\"n1\">\
         <navLabel><text>Broken</text></navLabel><content src=\"missing.xhtml\"/></navPoint>\
         <navPoint id=\"n2\" playOrder=\"7\">\
         <navLabel><text>Kept</text></navLabel><content src=\"c1.xhtml\"/></navPoint>\
         </navMap></ncx>";
    let bytes = build_epub(&[
        ("META-INF/container.xml", CONTAINER),
        ("OEBPS/content.opf", NAV_OPF),
        ("OEBPS/toc.ncx", ncx),
        ("OEBPS/c1.xhtml", SAMPLE_CHAPTER),
    ]);
    let archive = zip::ZipArchive::new(std::io::Cursor::new(bytes.clone())).unwrap();
    let book = Book::from_container(archive).unwrap();
    assert_eq!(book.spine.len(), 1);
    assert_eq!(book.spine[0].order, 7);
}

#[test]
fn no_rootfile_reports_error_and_writes_nothing() {
    let container = "<?xml version=\"1.0\"?><container><rootfiles></rootfiles></container>";
    let bytes = build_epub(&[("META-INF/container.xml", container)]);
    let mut out = String::new();
    let r = epub2txt(&bytes, &mut out);
    assert_eq!(r, Err(EpubError::NoRootfile));
    assert_eq!(r.unwrap_err().message(), "No found <rootfile>.");
    assert_eq!(out, "");
}

#[test]
fn missing_full_path_fails() {
    let container = "<?xml version=\"1.0\"?><container><rootfiles>\
         <rootfile media-type=\"application/oebps-package+xml\"/>\
         </rootfiles></container>";
    let bytes = build_epub(&[("META-INF/container.xml", container)]);
    let mut out = String::new();
    assert_eq!(epub2txt(&bytes, &mut out), Err(EpubError::NoFullPath));
}

#[test]
fn missing_package_document_fails() {
    let bytes = build_epub(&[("META-INF/container.xml", CONTAINER)]);
    let mut out = String::new();
    assert_eq!(epub2txt(&bytes, &mut out), Err(EpubError::EntryNotFound));
}

#[test]
fn missing_container_fails() {
    let bytes = build_epub(&[("OEBPS/content.opf", SAMPLE_OPF)]);
    let mut out = String::new();
    assert_eq!(epub2txt(&bytes, &mut out), Err(EpubError::EntryNotFound));
}

#[test]
fn invalid_archive_fails() {
    let bytes = b"this is no zip archive at all".to_vec();
    let mut out = String::new();
    assert_eq!(epub2txt(&bytes, &mut out), Err(EpubError::ArchiveInvalid));
}

#[test]
fn no_nav_item_means_empty_nav() {
    let opf = "<package><metadata><dc:title>T</dc:title></metadata>\
         <manifest><item id=\"c1\" href=\"c1.xhtml\"/></manifest></package>";
    let bytes = build_epub(&[
        ("META-INF/container.xml", CONTAINER),
        ("OEBPS/content.opf", opf),
        ("OEBPS/c1.xhtml", SAMPLE_CHAPTER),
    ]);
    let mut out = String::new();
    assert_eq!(epub2txt(&bytes, &mut out), Err(EpubError::EmptyNav));
}

#[test]
fn resolved_entry_missing_at_render_fails() {
    let bytes = build_epub(&[
        ("META-INF/container.xml", CONTAINER),
        ("OEBPS/content.opf", SAMPLE_OPF),
    ]);
    let mut out = String::new();
    let r = epub2txt(&bytes, &mut out);
    assert_eq!(r, Err(EpubError::EntryNotFound));
    assert_eq!(out, "");
}

#[test]
fn corrupt_entry_fails() {
    let mut bytes = sample_epub();
    let needle = b"Hello world.";
    let pos = bytes
        .windows(needle.len())
        .position(|w| w == needle)
        .unwrap();
    bytes[pos] ^= 0xff;
    let mut out = String::new();
    let r = epub2txt(&bytes, &mut out);
    assert_eq!(r, Err(EpubError::EntryCorrupt));
    assert_eq!(out, "");
}

#[test]
fn spine_order_is_document_order() {
    let opf = "<package><metadata><dc:title>T</dc:title></metadata>\
         <manifest>\
         <item id=\"b\" href=\"b.xhtml\"/>\
         <item id=\"a\" href=\"a.xhtml\"/>\
         </manifest>\
         <spine><itemref idref=\"b\"/><itemref idref=\"a\"/></spine></package>";
    let bytes = build_epub(&[
        ("META-INF/container.xml", CONTAINER),
        ("OEBPS/content.opf", opf),
        ("OEBPS/a.xhtml", "<p>alpha</p>"),
        ("OEBPS/b.xhtml", "<p>beta</p>"),
    ]);
    let archive = zip::ZipArchive::new(std::io::Cursor::new(bytes.clone())).unwrap();
    let book = Book::from_container(archive).unwrap();
    assert_eq!(book.spine.len(), 2);
    assert_eq!(book.spine[0].path, "OEBPS/b.xhtml");
    assert_eq!(book.spine[0].order, 0);
    assert_eq!(book.spine[1].path, "OEBPS/a.xhtml");
    assert_eq!(book.spine[1].order, 1);
    let mut out = String::new();
    epub2txt(&bytes, &mut out).unwrap();
    let beta = out.find("beta").unwrap();
    let alpha = out.find("alpha").unwrap();
    assert!(beta < alpha);
}

#[test]
fn percent_encoded_spine_href_resolves() {
    let opf = "<package><metadata><dc:title>T</dc:title></metadata>\
         <manifest><item id=\"c1\" href=\"chapter%201.xhtml\"/></manifest>\
         <spine><itemref idref=\"c1\"/></spine></package>";
    let bytes = build_epub(&[
        ("META-INF/container.xml", CONTAINER),
        ("OEBPS/content.opf", opf),
        ("OEBPS/chapter 1.xhtml", SAMPLE_CHAPTER),
    ]);
    let archive = zip::ZipArchive::new(std::io::Cursor::new(bytes.clone())).unwrap();
    let book = Book::from_container(archive).unwrap();
    assert_eq!(book.spine.len(), 1);
    assert_eq!(book.spine[0].path, "OEBPS/chapter 1.xhtml");
    let mut out = String::new();
    epub2txt(&bytes, &mut out).unwrap();
    assert!(out.contains("Hello world."));
}
