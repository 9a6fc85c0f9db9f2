use pdfcore::{
    extract_text_command, find_tool, info_of_load, metadata_from_entries, pdf_info,
    validate_input_file, value_to_text,
};
use pdfcore::PdfInfo;
use pdfcore::{PdfError, PdfValue, Tool};
use std::io::Write;

fn minimal_doc() -> lopdf::Document {
    let mut doc = lopdf::Document::with_version("1.4");

    // Build a minimal, well-formed, 1-page PDF.
    let pages_id = doc.new_object_id();
    let page_id = doc.new_object_id();
    let catalog_id = doc.new_object_id();

    doc.objects.insert(
        pages_id,
        lopdf::Object::Dictionary(lopdf::Dictionary::from_iter([
            (b"Type".to_vec(), lopdf::Object::Name(b"Pages".to_vec())),
            (
                b"Kids".to_vec(),
                lopdf::Object::Array(vec![lopdf::Object::Reference(page_id)]),
            ),
            (b"Count".to_vec(), lopdf::Object::Integer(1)),
        ])),
    );

    doc.objects.insert(
        page_id,
        lopdf::Object::Dictionary(lopdf::Dictionary::from_iter([
            (b"Type".to_vec(), lopdf::Object::Name(b"Page".to_vec())),
            (b"Parent".to_vec(), lopdf::Object::Reference(pages_id)),
            (
                b"MediaBox".to_vec(),
                lopdf::Object::Array(vec![
                    lopdf::Object::Integer(0),
                    lopdf::Object::Integer(0),
                    lopdf::Object::Integer(612),
                    lopdf::Object::Integer(792),
                ]),
            ),
        ])),
    );

    doc.objects.insert(
        catalog_id,
        lopdf::Object::Dictionary(lopdf::Dictionary::from_iter([
            (b"Type".to_vec(), lopdf::Object::Name(b"Catalog".to_vec())),
            (b"Pages".to_vec(), lopdf::Object::Reference(pages_id)),
        ])),
    );

    doc.trailer.set(b"Root", lopdf::Object::Reference(catalog_id));
    doc
}

fn info(path: &str) -> Result<PdfInfo, PdfError> {
    validate_input_file(path)?;
    info_of_load(path, lopdf::Document::load(path))
}

fn saved(mut doc: lopdf::Document) -> tempfile::NamedTempFile {
    let f = tempfile::NamedTempFile::new().unwrap();
    doc.save(f.path()).unwrap();
    f
}

#[test]
fn info_reads_page_count_from_minimal_pdf() {
    let f = saved(minimal_doc());
    let i = info(f.path().to_str().unwrap()).unwrap();
    assert_eq!(i.pages, 1);
}

#[test]
fn extract_text_skips_if_missing_pdftotext() {
    if find_tool(Tool::Pdftotext, None).is_err() {
        println!("skipping: pdftotext missing");
        return;
    }
    let f = saved(minimal_doc());
    let path = f.path().to_str().unwrap();
    let cmd = extract_text_command(path, true, None, None).unwrap();
    assert!(cmd.capture);
    assert_eq!(cmd.args, vec![path.to_string(), "-".to_string()]);
}

#[test]
fn info_without_info_dictionary_has_empty_metadata() {
    let f = saved(minimal_doc());
    let i = info(f.path().to_str().unwrap()).unwrap();
    assert!(i.metadata.is_empty());
}

#[test]
fn info_reads_metadata_sorted_and_coerced() {
    let mut doc = minimal_doc();
    let info_id = doc.new_object_id();
    doc.objects.insert(
        info_id,
        lopdf::Object::Dictionary(lopdf::Dictionary::from_iter([
            (
                b"Title".to_vec(),
                lopdf::Object::String(b"Report".to_vec(), lopdf::StringFormat::Literal),
            ),
            (b"Pages".to_vec(), lopdf::Object::Integer(-12)),
            (b"Flag".to_vec(), lopdf::Object::Boolean(true)),
            (b"Kind".to_vec(), lopdf::Object::Name(b"Draft".to_vec())),
            (b"Scale".to_vec(), lopdf::Object::Real(1.5)),
            (b"List".to_vec(), lopdf::Object::Array(vec![lopdf::Object::Integer(1)])),
        ])),
    );
    doc.trailer.set(b"Info", lopdf::Object::Reference(info_id));
    let f = saved(doc);
    let i = info(f.path().to_str().unwrap()).unwrap();
    assert_eq!(i.pages, 1);
    let expected: Vec<(String, String)> = vec![
        ("Flag".to_string(), "true".to_string()),
        ("Kind".to_string(), "Draft".to_string()),
        ("Pages".to_string(), "-12".to_string()),
        ("Scale".to_string(), "1.5".to_string()),
        ("Title".to_string(), "Report".to_string()),
    ];
    assert_eq!(i.metadata, expected);
}

#[test]
fn info_on_missing_path_is_input_not_found() {
    let r = info("/definitely/not/here/file.pdf");
    assert!(matches!(r, Err(PdfError::InputNotFound(ref p)) if p == "/definitely/not/here/file.pdf"));
}

#[test]
fn info_on_garbage_is_parse_error() {
    let mut f = tempfile::NamedTempFile::new().unwrap();
    f.write_all(b"not a pdf at all").unwrap();
    f.flush().unwrap();
    let path = f.path().to_str().unwrap();
    let r = info(path);
    assert!(matches!(r, Err(PdfError::PdfParse { path: ref p, .. }) if p == path));
    let direct = info_of_load(path, Err(lopdf::Error::Header));
    assert!(matches!(
        direct,
        Err(PdfError::PdfParse { source: lopdf::Error::Header, .. })
    ));
}

#[test]
fn metadata_later_entry_wins_and_keys_sort_by_code_point() {
    let entries = vec![
        (b"b".to_vec(), PdfValue::Integer(1)),
        (b"B".to_vec(), PdfValue::Integer(2)),
        (b"a".to_vec(), PdfValue::Other),
        (b"b".to_vec(), PdfValue::Integer(3)),
        (vec![0xff], PdfValue::Boolean(false)),
    ];
    let m = metadata_from_entries(&entries);
    let expected: Vec<(String, String)> = vec![
        ("B".to_string(), "2".to_string()),
        ("b".to_string(), "3".to_string()),
        ("\u{fffd}".to_string(), "false".to_string()),
    ];
    assert_eq!(m, expected);
}

#[test]
fn pdf_info_rejects_page_count_beyond_u32() {
    let r = pdf_info(5_000_000_000, &Vec::new());
    assert!(matches!(r, Err(PdfError::InvalidArgument(ref m)) if m == "page count overflow"));
    let ok = pdf_info(4_294_967_295, &Vec::new()).unwrap();
    assert_eq!(ok.pages, 4_294_967_295);
    assert!(ok.metadata.is_empty());
}

#[test]
fn value_text_follows_coercion_table() {
    assert_eq!(value_to_text(&PdfValue::Text(b"h\xffi".to_vec())), Some("h\u{fffd}i".to_string()));
    assert_eq!(value_to_text(&PdfValue::Integer(i64::MIN)), Some("-9223372036854775808".to_string()));
    assert_eq!(value_to_text(&PdfValue::Integer(0)), Some("0".to_string()));
    assert_eq!(value_to_text(&PdfValue::Real("2.25".to_string())), Some("2.25".to_string()));
    assert_eq!(value_to_text(&PdfValue::Boolean(false)), Some("false".to_string()));
    assert_eq!(value_to_text(&PdfValue::Other), None);
}
