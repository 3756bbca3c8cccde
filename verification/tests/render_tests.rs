use docpipe::document::{DocumentMetadata, FileType, SheetData};
use docpipe::parser::{csv_rows, CapabilityOutcome, DocumentParser};
use docpipe::render::{render_pdf_html, render_simple_html, render_xlsx_html};
use docpipe::text::{decimal_string, sort_strings};

fn fixed_metadata() -> DocumentMetadata {
    DocumentMetadata {
        file_type: FileType::Txt,
        file_size: 1536,
        page_count: None,
        sheet_count: None,
        created_at: String::from("2024-05-01T10:00:00+00:00"),
    }
}

#[test]
fn escaping_is_exact() {
    let parser = DocumentParser::new();
    assert_eq!(
        parser.escape_html("<script>alert('x') && \"y\"</script>"),
        "&lt;script&gt;alert(&#x27;x&#x27;) &amp;&amp; &quot;y&quot;&lt;/script&gt;"
    );
    assert_eq!(parser.escape_html(""), "");
    assert_eq!(parser.escape_html("plain text"), "plain text");
}

#[test]
fn rendering_is_deterministic() {
    let m = fixed_metadata();
    let a = render_simple_html("body text", &m, "Text document", &None);
    let b = render_simple_html("body text", &m, "Text document", &None);
    assert_eq!(a, b);

    let sheets = vec![SheetData {
        name: String::from("S"),
        rows: vec![vec![String::from("h")], vec![String::from("v")]],
    }];
    let x1 = render_xlsx_html(&sheets, &m);
    let x2 = render_xlsx_html(&sheets, &m);
    assert_eq!(x1, x2);

    let p1 = render_pdf_html("a\n\nb", &vec![]);
    let p2 = render_pdf_html("a\n\nb", &vec![]);
    assert_eq!(p1, p2);
}

#[test]
fn rendered_text_is_never_markup() {
    let m = fixed_metadata();
    let hostile = "<img src=x onerror=alert(1)>";
    let html = render_simple_html(hostile, &m, "Text document", &None);
    assert!(!html.contains(hostile));
    assert!(html.contains("&lt;img src=x onerror=alert(1)&gt;"));
}

#[test]
fn simple_template_shows_metadata() {
    let mut m = fixed_metadata();
    m.page_count = Some(12);
    let html = render_simple_html("t", &m, "Text document", &None);
    // 1536 bytes are one and a half kibibytes.
    assert!(html.contains("File size: 1.5 KB"));
    assert!(html.contains("Pages: 12"));
    assert!(html.contains("Created: 2024-05-01T10:00:00+00:00"));
}

#[test]
fn simple_template_embeds_thumbnail_only_when_present() {
    let m = fixed_metadata();
    let without = render_simple_html("t", &m, "Text document", &None);
    assert!(!without.contains("data:image/jpeg;base64,"));
    let with = render_simple_html("t", &m, "Text document", &Some(String::from("QUJD")));
    assert!(with.contains("data:image/jpeg;base64,QUJD"));
}

#[test]
fn xlsx_template_renders_header_and_editable_cells() {
    let m = fixed_metadata();
    let sheets = vec![SheetData {
        name: String::from("Inventory"),
        rows: vec![
            vec![String::from("name"), String::from("qty")],
            vec![String::from("bolt"), String::from("12")],
        ],
    }];
    let html = render_xlsx_html(&sheets, &m);
    assert!(html.contains("<th>name</th>"));
    assert!(html.contains("<th>qty</th>"));
    assert!(html.contains("value='bolt'"));
    assert!(html.contains("value='12'"));
    assert!(html.contains("Inventory"));
}

#[test]
fn pdf_template_splits_paragraphs_and_breaks_lines() {
    let html = render_pdf_html("one\ntwo\n\nthree\n\n   \n\nfour", &vec![]);
    assert!(html.contains("<p>one<br>two</p>"));
    assert!(html.contains("<p>three</p>"));
    assert!(html.contains("<p>four</p>"));
    // The blank-only piece produces no paragraph block.
    assert!(!html.contains("<p></p>"));
}

#[test]
fn pdf_template_lists_extracted_images() {
    let html = render_pdf_html("t", &vec![String::from("page-1.png")]);
    assert!(html.contains("<img src=\"./images/page-1.png\""));
}

#[test]
fn page_count_report_parsing() {
    let parser = DocumentParser::new();
    assert_eq!(
        parser.get_pdf_page_count("Title: a\nPages: 12\nEncrypted: no\n"),
        Some(12)
    );
    assert_eq!(parser.get_pdf_page_count("Pages: +3\n"), Some(3));
    assert_eq!(parser.get_pdf_page_count("Pages:12\n"), None);
    assert_eq!(parser.get_pdf_page_count("Pages: many\n"), None);
    assert_eq!(parser.get_pdf_page_count("NoSuchField: 1\n"), None);
    assert_eq!(parser.get_pdf_page_count(""), None);
    assert_eq!(parser.get_pdf_page_count("Pages: 99999999999\n"), None);
}

#[test]
fn base64_enrichment_encodes_the_bytes() {
    // Through the public strategy: the embedded original is the base64
    // text of the bytes that were handed in, not the bytes themselves.
    let parser = DocumentParser::new();
    let m = fixed_metadata();
    let r = parser
        .parse_txt(
            &Ok(String::from("hello")),
            &Some(b"hello".to_vec()),
            m,
        )
        .unwrap();
    assert_eq!(r.original_file, Some(String::from("aGVsbG8=")));
    assert!(r.enrichment_notes.is_empty());
}

#[test]
fn docx_fallback_produces_placeholder_and_note() {
    let parser = DocumentParser::new();
    let m = fixed_metadata();
    let c = parser.parse_docx(
        &CapabilityOutcome::Failed(String::from("exit status 1")),
        &None,
        m,
    );
    assert_eq!(
        c.text,
        Some(String::from(
            "DOCX file uploaded; detailed parsing is unavailable."
        ))
    );
    assert_eq!(
        c.enrichment_notes,
        vec![String::from(
            "DOCX converter unavailable; produced placeholder content"
        )]
    );
    assert!(c.html.is_some());
}

#[test]
fn decimal_rendering() {
    assert_eq!(decimal_string(0), "0");
    assert_eq!(decimal_string(7), "7");
    assert_eq!(decimal_string(12345), "12345");
    assert_eq!(
        decimal_string(340282366920938463463374607431768211455),
        "340282366920938463463374607431768211455"
    );
}

#[test]
fn string_sorting_is_ascending_and_complete() {
    let names = vec![
        String::from("b"),
        String::from("a"),
        String::from("ab"),
        String::from("a"),
        String::from(""),
    ];
    assert_eq!(
        sort_strings(&names),
        vec![
            String::from(""),
            String::from("a"),
            String::from("a"),
            String::from("ab"),
            String::from("b"),
        ]
    );
    let empty: Vec<String> = Vec::new();
    assert_eq!(sort_strings(&empty), empty);
}

#[test]
fn cell_trimming_covers_unicode_whitespace() {
    // Cells are trimmed of any white-space character, not only ASCII:
    // here a no-break space and an ideographic space surround the value.
    let rows = csv_rows("\u{a0}a\u{a0},\u{3000}b\u{3000}\n");
    assert_eq!(rows, vec![vec![String::from("a"), String::from("b")]]);
}
