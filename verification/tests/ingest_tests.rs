use std::io::Write;

use azor::chunk::split_document;
use azor::ingest::{ContentType, ExtractError};
use azor::notion::{extract_from_zip, notion_url_from_path};

fn zip_of(entries: &[(&str, Option<&[u8]>)]) -> Vec<u8> {
    let mut w = zip::ZipWriter::new(std::io::Cursor::new(Vec::new()));
    let opts = zip::write::SimpleFileOptions::default();
    for (name, data) in entries {
        match data {
            Some(d) => {
                w.start_file(*name, opts).unwrap();
                w.write_all(d).unwrap();
            }
            None => {
                w.add_directory(*name, opts).unwrap();
            }
        }
    }
    w.finish().unwrap().into_inner()
}

const ID: &str = "0123456789abcdef0123456789ABCDEF";

#[test]
fn notion_urls_are_rebuilt_from_file_names() {
    assert_eq!(
        notion_url_from_path(&format!("Export/Some Page {ID}.md")).unwrap(),
        format!("https://notion.so/Some%20Page-{ID}")
    );
    assert_eq!(
        notion_url_from_path(&format!("Café & co {ID}.csv")).unwrap(),
        format!("https://notion.so/Caf%C3%A9%20%26%20co-{ID}")
    );
}

#[test]
fn files_without_a_page_id_get_no_url() {
    assert_eq!(notion_url_from_path("Some Page.md"), None);
    assert_eq!(notion_url_from_path(&format!("Some Page {ID}.txt")), None);
    assert_eq!(notion_url_from_path(&format!("SomePage{ID}.md")), None);
    assert_eq!(notion_url_from_path("Some Page 0123456789abcdef0123456789abcdeg.md"), None);
    assert_eq!(notion_url_from_path(&format!("x {ID}1.md")), None);
}

#[test]
fn documents_are_extracted_from_nested_archives() {
    let page = format!("Page {ID}.md");
    let inner = zip_of(&[(page.as_str(), Some(b"# Hello\n")), ("image.png", Some(&[0u8, 159, 146, 150]))]);
    let outer = zip_of(&[
        ("dir/", None),
        ("ExportBlock-1.zip", Some(&inner)),
        ("notes.csv", Some(b"a,b\n1,2\n")),
        ("blank.md", Some(b"  \n ")),
        ("readme.txt", Some(b"ignored")),
    ]);
    let docs = extract_from_zip(&outer).unwrap();
    assert_eq!(docs.len(), 2);
    assert_eq!(docs[0].source_path, page);
    assert_eq!(docs[0].content, "# Hello\n");
    assert_eq!(docs[0].content_type, ContentType::Markdown);
    assert_eq!(docs[0].origin_url, Some(format!("https://notion.so/Page-{ID}")));
    assert_eq!(docs[1].source_path, "notes.csv");
    assert_eq!(docs[1].content_type, ContentType::Csv);
    assert_eq!(docs[1].origin_url, None);
}

#[test]
fn invalid_utf8_documents_are_reported() {
    let data = zip_of(&[("ok.md", Some(b"fine")), ("bad.md", Some(&[0xff, 0xfe]))]);
    match extract_from_zip(&data) {
        Err(ExtractError::InvalidUtf8 { path }) => assert_eq!(path, "bad.md"),
        other => panic!("unexpected {:?}", other),
    }
}

#[test]
fn non_archives_are_rejected() {
    assert!(matches!(extract_from_zip(b"not a zip"), Err(ExtractError::Zip(_))));
    let data = zip_of(&[("broken.zip", Some(b"nope"))]);
    assert!(matches!(extract_from_zip(&data), Err(ExtractError::Zip(_))));
}

#[test]
fn content_type_names() {
    assert_eq!(ContentType::Markdown.as_str(), "markdown");
    assert_eq!(ContentType::Csv.as_str(), "csv");
}

#[test]
fn documents_are_split_into_positioned_chunks() {
    let text = "# Title\n\nFirst paragraph about billing.\n\n## Section\n\nSecond paragraph about refunds and returns.\n";
    let chunks = split_document(text, ContentType::Markdown, 8);
    assert!(chunks.len() >= 2);
    let chars: Vec<char> = text.chars().collect();
    for (i, c) in chunks.iter().enumerate() {
        assert_eq!(c.chunk_index, i);
        assert_eq!(c.char_length, c.content.chars().count());
        let at: String = chars[c.char_offset..c.char_offset + c.char_length].iter().collect();
        assert_eq!(at, c.content);
        if i > 0 {
            assert!(chunks[i - 1].char_offset + chunks[i - 1].char_length <= c.char_offset);
        }
    }
}

#[test]
fn small_documents_make_one_chunk() {
    let chunks = split_document("a,b\n1,2", ContentType::Csv, 448);
    assert_eq!(chunks.len(), 1);
    assert_eq!(chunks[0].content, "a,b\n1,2");
    assert_eq!(chunks[0].char_offset, 0);
    assert_eq!(chunks[0].char_length, 7);
    assert!(split_document("", ContentType::Markdown, 448).is_empty());
}

#[test]
fn deeply_nested_archives_are_opened() {
    let mut data = zip_of(&[("a.md", Some(b"deep text"))]);
    for _ in 0..66 {
        data = zip_of(&[("inner.zip", Some(data.as_slice()))]);
    }
    let docs = extract_from_zip(&data).unwrap();
    assert_eq!(docs.len(), 1);
    assert_eq!(docs[0].source_path, "a.md");
    assert_eq!(docs[0].content, "deep text");
}

#[test]
fn errors_deep_in_nested_archives_are_reported() {
    let mut data = zip_of(&[("bad.csv", Some(&[0xffu8, 0xfe, 0x00]))]);
    for _ in 0..66 {
        data = zip_of(&[("inner.zip", Some(data.as_slice()))]);
    }
    match extract_from_zip(&data) {
        Err(ExtractError::InvalidUtf8 { path }) => assert_eq!(path, "bad.csv"),
        other => panic!("unexpected result: {:?}", other.map(|d| d.len())),
    }
}
