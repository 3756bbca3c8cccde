//! The per-format parsing strategies. External converters are opaque
//! capabilities invoked by the caller; each strategy here is a total,
//! verified function from the converters' outcomes to parsed content or
//! a hard parse error, enforcing the degradation policy: a missing
//! preferred capability degrades DOCX and XLSX to placeholder content,
//! while an unreadable primary extraction for PDF, TXT and MD fails the
//! job; enrichment (thumbnail, embedded images, original bytes) never
//! fails a job, only leaves a note.

use vstd::prelude::*;

use base64::Engine;

use crate::document::{ContentView, DocumentMetadata, FileType, MetadataView, ParsedContent,
    SheetData, SheetView};
use crate::errors::ParseError;
use crate::render::{render_pdf_html, render_simple_html, render_xlsx_html, push_escaped,
    spec_escape, spec_pdf_html, spec_simple_html, spec_xlsx_html};
use crate::text::{lines_str, parse_u32, sort_strings, spec_lines, spec_parse_u32, spec_sort,
    spec_split, spec_tokens, spec_trim, split_str, tokens_str, trim_str};

verus! {

/// What a base64 text encodes; named because its exact shape is the
/// base64 alphabet's business, and it depends on the bytes alone.
pub uninterp spec fn base64_of(b: Seq<u8>) -> Seq<char>;

/// Bytes small enough to base64-encode without the encoder's internal
/// size computation overflowing.
pub open spec fn encodable(b: Seq<u8>) -> bool {
    b.len() <= usize::MAX / 2
}

/// Relies on base64's `STANDARD` engine `encode`: the base64 text of
/// the given bytes, a function of the bytes alone.
#[verifier::external_body]
fn encode_base64(bytes: &Vec<u8>) -> (r: String)
    requires
        encodable(bytes@),
    ensures
        r@ == base64_of(bytes@),
{
    base64::engine::general_purpose::STANDARD.encode(bytes.as_slice())
}

/// Relies on `chrono::Utc::now` and `DateTime::to_rfc3339`: the current
/// time rendered as an RFC 3339 timestamp. The value depends on the
/// clock, so nothing is assumed of it.
#[verifier::external_body]
pub(crate) fn now_rfc3339() -> String {
    chrono::Utc::now().to_rfc3339()
}

/// One converter invocation's outcome, as the caller observed it.
pub enum CapabilityOutcome {
    /// The converter ran and produced its text.
    Produced(String),
    /// The converter ran and reported a failure.
    Failed(String),
    /// The converter could not be invoked at all.
    Unavailable(String),
}

pub ghost enum OutcomeView {
    Produced(Seq<char>),
    Failed(Seq<char>),
    Unavailable(Seq<char>),
}

impl View for CapabilityOutcome {
    type V = OutcomeView;

    open spec fn view(&self) -> OutcomeView {
        match self {
            CapabilityOutcome::Produced(s) => OutcomeView::Produced(s@),
            CapabilityOutcome::Failed(s) => OutcomeView::Failed(s@),
            CapabilityOutcome::Unavailable(s) => OutcomeView::Unavailable(s@),
        }
    }
}

/// Everything the external capabilities yielded for one stored file,
/// gathered by the caller before strategy dispatch.
pub enum ConversionInput {
    Pdf {
        text: CapabilityOutcome,
        thumbnail: Option<Vec<u8>>,
        image_names: Vec<String>,
        file_bytes: Option<Vec<u8>>,
    },
    Docx { text: CapabilityOutcome, file_bytes: Option<Vec<u8>> },
    Xlsx { csv: CapabilityOutcome, file_bytes: Option<Vec<u8>> },
    Plain { contents: Result<String, String>, file_bytes: Option<Vec<u8>> },
}

pub ghost enum InputView {
    Pdf {
        text: OutcomeView,
        thumbnail: Option<Seq<u8>>,
        image_names: Seq<Seq<char>>,
        file_bytes: Option<Seq<u8>>,
    },
    Docx { text: OutcomeView, file_bytes: Option<Seq<u8>> },
    Xlsx { csv: OutcomeView, file_bytes: Option<Seq<u8>> },
    Plain { contents: Result<Seq<char>, Seq<char>>, file_bytes: Option<Seq<u8>> },
}

impl View for ConversionInput {
    type V = InputView;

    open spec fn view(&self) -> InputView {
        match self {
            ConversionInput::Pdf { text, thumbnail, image_names, file_bytes } => InputView::Pdf {
                text: text@,
                thumbnail: thumbnail.deep_view(),
                image_names: image_names.deep_view(),
                file_bytes: file_bytes.deep_view(),
            },
            ConversionInput::Docx { text, file_bytes } => InputView::Docx {
                text: text@,
                file_bytes: file_bytes.deep_view(),
            },
            ConversionInput::Xlsx { csv, file_bytes } => InputView::Xlsx {
                csv: csv@,
                file_bytes: file_bytes.deep_view(),
            },
            ConversionInput::Plain { contents, file_bytes } => InputView::Plain {
                contents: match contents {
                    Ok(s) => Ok(s@),
                    Err(e) => Err(e@),
                },
                file_bytes: file_bytes.deep_view(),
            },
        }
    }
}

/// The input variant that each file type's strategy consumes.
pub open spec fn input_matches(t: FileType, inp: InputView) -> bool {
    match t {
        FileType::Pdf => inp is Pdf,
        FileType::Docx => inp is Docx,
        FileType::Xlsx => inp is Xlsx,
        FileType::Txt => inp is Plain,
        FileType::Md => inp is Plain,
        FileType::Unknown => false,
    }
}

/// All byte payloads of the input are small enough to encode.
pub open spec fn input_encodable(inp: InputView) -> bool {
    match inp {
        InputView::Pdf { thumbnail, file_bytes, .. } => (match thumbnail {
            Some(b) => encodable(b),
            None => true,
        }) && (match file_bytes {
            Some(b) => encodable(b),
            None => true,
        }),
        InputView::Docx { file_bytes, .. } => match file_bytes {
            Some(b) => encodable(b),
            None => true,
        },
        InputView::Xlsx { file_bytes, .. } => match file_bytes {
            Some(b) => encodable(b),
            None => true,
        },
        InputView::Plain { file_bytes, .. } => match file_bytes {
            Some(b) => encodable(b),
            None => true,
        },
    }
}

// ------------------------------------------------------------------
// Image-name filtering for the extracted-image enrichment
// ------------------------------------------------------------------
/// A directory entry that one of the page-image extractions produced.
pub open spec fn is_image_name(n: Seq<char>) -> bool {
    n.len() >= 8 && n[0] == 'p' && n[1] == 'a' && n[2] == 'g' && n[3] == 'e' && n[n.len() - 4]
        == '.' && n[n.len() - 3] == 'p' && n[n.len() - 2] == 'n' && n[n.len() - 1] == 'g'
}

/// The page-image entries of a listing, in the listing's order.
pub open spec fn filtered_images(l: Seq<Seq<char>>) -> Seq<Seq<char>>
    decreases l.len(),
{
    if l.len() == 0 {
        Seq::empty()
    } else {
        filtered_images(l.drop_last()) + (if is_image_name(l.last()) {
            seq![l.last()]
        } else {
            Seq::<Seq<char>>::empty()
        })
    }
}

fn is_image_name_exec(n: &str) -> (r: bool)
    ensures
        r == is_image_name(n@),
{
    let len = n.unicode_len();
    if len < 8 {
        return false;
    }
    n.get_char(0) == 'p' && n.get_char(1) == 'a' && n.get_char(2) == 'g' && n.get_char(3) == 'e'
        && n.get_char(len - 4) == '.' && n.get_char(len - 3) == 'p' && n.get_char(len - 2) == 'n'
        && n.get_char(len - 1) == 'g'
}

/// Keeps the page-image entries of a listing, as `filtered_images`
/// describes.
pub fn filter_image_names(names: &Vec<String>) -> (r: Vec<String>)
    ensures
        r.deep_view() == filtered_images(names.deep_view()),
{
    let ghost nv = names.deep_view();
    let mut out: Vec<String> = Vec::new();
    let n = names.len();
    let mut k: usize = 0;
    assert(out.deep_view() =~= filtered_images(nv.take(0int)));
    while k < n
        invariant
            0 <= k <= n,
            n == names@.len(),
            nv == names.deep_view(),
            nv.len() == n,
            out.deep_view() == filtered_images(nv.take(k as int)),
        decreases n - k,
    {
        let ghost prev = out.deep_view();
        assert(names[k as int]@ == nv[k as int]);
        if is_image_name_exec(names[k].as_str()) {
            out.push(names[k].clone());
        }
        proof {
            assert(nv.take(k + 1).drop_last() =~= nv.take(k as int));
            assert(nv.take(k + 1).last() == nv[k as int]);
            if is_image_name(nv[k as int]) {
                assert(out.deep_view() =~= prev.push(nv[k as int]));
                assert(out.deep_view() =~= filtered_images(nv.take(k + 1)));
            } else {
                assert(out.deep_view() =~= filtered_images(nv.take(k + 1)));
            }
        }
        k = k + 1;
    }
    assert(nv.take(n as int) =~= nv);
    out
}

// ------------------------------------------------------------------
// Page-count extraction from a pdfinfo-style report
// ------------------------------------------------------------------
/// A line that opens the page-count report field.
pub open spec fn starts_pages(l: Seq<char>) -> bool {
    l.len() >= 6 && l[0] == 'P' && l[1] == 'a' && l[2] == 'g' && l[3] == 'e' && l[4] == 's' && l[5]
        == ':'
}

/// The number in a page-count line: its second whitespace-separated
/// token, read as a decimal.
pub open spec fn pages_of_line(l: Seq<char>) -> Option<u32> {
    let ts = spec_tokens(l);
    if ts.len() >= 2 {
        spec_parse_u32(ts[1])
    } else {
        None
    }
}

/// The page count of a report: what the first page-count line holds.
pub open spec fn pages_of_lines(ls: Seq<Seq<char>>) -> Option<u32>
    decreases ls.len(),
{
    if ls.len() == 0 {
        None
    } else if starts_pages(ls[0]) {
        pages_of_line(ls[0])
    } else {
        pages_of_lines(ls.skip(1))
    }
}

/// The page count that a converter's report text states.
pub open spec fn spec_page_count(info: Seq<char>) -> Option<u32> {
    pages_of_lines(spec_lines(info))
}

fn starts_pages_exec(l: &str) -> (r: bool)
    ensures
        r == starts_pages(l@),
{
    let len = l.unicode_len();
    if len < 6 {
        return false;
    }
    l.get_char(0) == 'P' && l.get_char(1) == 'a' && l.get_char(2) == 'g' && l.get_char(3) == 'e'
        && l.get_char(4) == 's' && l.get_char(5) == ':'
}

/// Reads the page count out of a report, as `spec_page_count` describes.
pub fn parse_page_count(info: &str) -> (r: Option<u32>)
    ensures
        r == spec_page_count(info@),
{
    let ls = lines_str(info);
    let ghost lv = ls.deep_view();
    let n = ls.len();
    let mut k: usize = 0;
    assert(lv.skip(0) =~= lv);
    while k < n
        invariant
            0 <= k <= n,
            n == ls@.len(),
            lv == ls.deep_view(),
            lv.len() == n,
            spec_page_count(info@) == pages_of_lines(lv.skip(k as int)),
        decreases n - k,
    {
        assert(ls[k as int]@ == lv[k as int]);
        assert(lv.skip(k as int)[0] == lv[k as int]);
        if starts_pages_exec(ls[k].as_str()) {
            let ts = tokens_str(ls[k].as_str());
            let ghost tv = ts.deep_view();
            if ts.len() >= 2 {
                assert(ts[1int]@ == tv[1int]);
                return parse_u32(ts[1].as_str());
            } else {
                return None;
            }
        }
        assert(lv.skip(k as int).skip(1) =~= lv.skip(k + 1));
        k = k + 1;
    }
    assert(lv.skip(n as int).len() == 0);
    None
}

// ------------------------------------------------------------------
// Tabular rows from a delimited conversion
// ------------------------------------------------------------------
/// The rows of a comma-delimited text: one row per line, cells split on
/// commas and trimmed.
pub open spec fn spec_csv_rows(s: Seq<char>) -> Seq<Seq<Seq<char>>> {
    spec_lines(s).map_values(
        |l: Seq<char>| spec_split(l, ',').map_values(|c: Seq<char>| spec_trim(c)),
    )
}

/// Splits delimited text into trimmed rows, as `spec_csv_rows` describes.
pub fn csv_rows(s: &str) -> (r: Vec<Vec<String>>)
    ensures
        r.deep_view() == spec_csv_rows(s@),
{
    let ls = lines_str(s);
    let ghost lv = ls.deep_view();
    let mut out: Vec<Vec<String>> = Vec::new();
    let n = ls.len();
    let mut k: usize = 0;
    while k < n
        invariant
            0 <= k <= n,
            n == ls@.len(),
            lv == ls.deep_view(),
            lv.len() == n,
            out.deep_view() =~= lv.take(k as int).map_values(
                |l: Seq<char>| spec_split(l, ',').map_values(|c: Seq<char>| spec_trim(c)),
            ),
        decreases n - k,
    {
        assert(ls[k as int]@ == lv[k as int]);
        let cells = split_str(ls[k].as_str(), ',');
        let ghost cv = cells.deep_view();
        let mut row: Vec<String> = Vec::new();
        let cn = cells.len();
        let mut c: usize = 0;
        while c < cn
            invariant
                0 <= c <= cn,
                cn == cells@.len(),
                cv == cells.deep_view(),
                cv.len() == cn,
                row.deep_view() =~= cv.take(c as int).map_values(|x: Seq<char>| spec_trim(x)),
            decreases cn - c,
        {
            assert(cells[c as int]@ == cv[c as int]);
            let trimmed = String::from_str(trim_str(cells[c].as_str()));
            let ghost prev = row.deep_view();
            row.push(trimmed);
            proof {
                assert(row.deep_view() =~= prev.push(spec_trim(cv[c as int])));
                assert(row.deep_view() =~= cv.take(c + 1).map_values(
                    |x: Seq<char>| spec_trim(x),
                ));
            }
            c = c + 1;
        }
        assert(cv.take(cn as int) =~= cv);
        let ghost prevout = out.deep_view();
        out.push(row);
        proof {
            assert(out.deep_view() =~= prevout.push(
                spec_split(lv[k as int], ',').map_values(|x: Seq<char>| spec_trim(x)),
            ));
            assert(out.deep_view() =~= lv.take(k + 1).map_values(
                |l: Seq<char>| spec_split(l, ',').map_values(|c0: Seq<char>| spec_trim(c0)),
            ));
        }
        k = k + 1;
    }
    assert(lv.take(n as int) =~= lv);
    out
}

// ------------------------------------------------------------------
// The strategies
// ------------------------------------------------------------------
pub open spec fn map_b64(o: Option<Seq<u8>>) -> Option<Seq<char>> {
    match o {
        Some(b) => Some(base64_of(b)),
        None => None,
    }
}

/// The note left when the original bytes could not be embedded.
pub open spec fn orig_note(o: Option<Seq<u8>>) -> Seq<Seq<char>> {
    match o {
        Some(_) => Seq::<Seq<char>>::empty(),
        None => seq!["original file unavailable"@],
    }
}

/// The notes of the paginated strategy: one per enrichment that failed.
pub open spec fn pdf_notes(thumbnail: Option<Seq<u8>>, file_bytes: Option<Seq<u8>>) -> Seq<
    Seq<char>,
> {
    (match thumbnail {
        Some(_) => Seq::<Seq<char>>::empty(),
        None => seq!["thumbnail unavailable"@],
    }) + orig_note(file_bytes)
}

/// What the paginated strategy produces when the text extraction ran:
/// the image enrichment is the listing's page-image entries in ascending
/// name order.
pub open spec fn spec_pdf_content(
    txt: Seq<char>,
    thumbnail: Option<Seq<u8>>,
    image_names: Seq<Seq<char>>,
    file_bytes: Option<Seq<u8>>,
    m: MetadataView,
) -> ContentView {
    ContentView {
        text: Some(txt),
        sheets: None,
        metadata: m,
        thumbnail: map_b64(thumbnail),
        original_file: map_b64(file_bytes),
        images: Some(spec_sort(filtered_images(image_names))),
        html: Some(spec_pdf_html(txt, spec_sort(filtered_images(image_names)))),
        enrichment_notes: pdf_notes(thumbnail, file_bytes),
    }
}

/// What the word-document strategy produces when its converter ran.
pub open spec fn spec_docx_content(
    txt: Seq<char>,
    file_bytes: Option<Seq<u8>>,
    m: MetadataView,
) -> ContentView {
    ContentView {
        text: Some(txt),
        sheets: None,
        metadata: m,
        thumbnail: None,
        original_file: map_b64(file_bytes),
        images: None,
        html: Some(spec_simple_html(txt, m, "DOCX document"@, None)),
        enrichment_notes: orig_note(file_bytes),
    }
}

/// The reduced-fidelity result when a preferred converter is missing:
/// placeholder text, its rendering, and a note.
pub open spec fn spec_fallback_content(
    placeholder: Seq<char>,
    doc_type: Seq<char>,
    note: Seq<char>,
    m: MetadataView,
) -> ContentView {
    ContentView {
        text: Some(placeholder),
        sheets: None,
        metadata: m,
        thumbnail: None,
        original_file: None,
        images: None,
        html: Some(spec_simple_html(placeholder, m, doc_type, None)),
        enrichment_notes: seq![note],
    }
}

/// What the tabular strategy produces when its converter ran: one named
/// sheet holding the delimited rows.
pub open spec fn spec_xlsx_content(
    csv: Seq<char>,
    file_bytes: Option<Seq<u8>>,
    m: MetadataView,
) -> ContentView {
    let sheets = seq![SheetView { name: "Sheet1"@, rows: spec_csv_rows(csv) }];
    ContentView {
        text: None,
        sheets: Some(sheets),
        metadata: m,
        thumbnail: None,
        original_file: map_b64(file_bytes),
        images: None,
        html: Some(spec_xlsx_html(sheets, m)),
        enrichment_notes: orig_note(file_bytes),
    }
}

/// What the plain-text strategy produces when the file was readable.
pub open spec fn spec_plain_content(
    content: Seq<char>,
    doc_type: Seq<char>,
    file_bytes: Option<Seq<u8>>,
    m: MetadataView,
) -> ContentView {
    ContentView {
        text: Some(content),
        sheets: None,
        metadata: m,
        thumbnail: None,
        original_file: map_b64(file_bytes),
        images: None,
        html: Some(spec_simple_html(content, m, doc_type, None)),
        enrichment_notes: orig_note(file_bytes),
    }
}

pub open spec fn plain_doc_type(t: FileType) -> Seq<char> {
    if t == FileType::Md {
        "Markdown document"@
    } else {
        "Text document"@
    }
}

pub open spec fn plain_err_prefix(t: FileType) -> Seq<char> {
    if t == FileType::Md {
        "failed to read MD file: "@
    } else {
        "failed to read TXT file: "@
    }
}

/// The whole strategy table: what each file type's strategy yields for
/// each combination of converter outcomes, including every fallback and
/// every hard failure.
pub open spec fn spec_parse(t: FileType, inp: InputView, m: MetadataView) -> Result<
    ContentView,
    Seq<char>,
> {
    match inp {
        InputView::Pdf { text, thumbnail, image_names, file_bytes } => match text {
            OutcomeView::Produced(txt) => Ok(
                spec_pdf_content(txt, thumbnail, image_names, file_bytes, m),
            ),
            OutcomeView::Failed(e) => Err("PDF parsing error: "@ + e),
            OutcomeView::Unavailable(e) => Err("pdftotext could not be run: "@ + e),
        },
        InputView::Docx { text, file_bytes } => match text {
            OutcomeView::Produced(txt) => Ok(spec_docx_content(txt, file_bytes, m)),
            _ => Ok(
                spec_fallback_content(
                    "DOCX file uploaded; detailed parsing is unavailable."@,
                    "DOCX document"@,
                    "DOCX converter unavailable; produced placeholder content"@,
                    m,
                ),
            ),
        },
        InputView::Xlsx { csv, file_bytes } => match csv {
            OutcomeView::Produced(c) => Ok(spec_xlsx_content(c, file_bytes, m)),
            _ => Ok(
                spec_fallback_content(
                    "XLSX file uploaded; detailed parsing is unavailable."@,
                    "XLSX document"@,
                    "XLSX converter unavailable; produced placeholder content"@,
                    m,
                ),
            ),
        },
        InputView::Plain { contents, file_bytes } => match contents {
            Ok(c) => Ok(spec_plain_content(c, plain_doc_type(t), file_bytes, m)),
            Err(e) => Err(plain_err_prefix(t) + e),
        },
    }
}

/// The format strategy registry: dispatches a detected file type to its
/// strategy over the gathered converter outcomes.
pub struct DocumentParser;

impl DocumentParser {
    pub fn new() -> (p: DocumentParser) {
        DocumentParser
    }

    /// Escapes user-controlled text for embedding in markup, as
    /// `spec_escape` describes.
    pub fn escape_html(&self, text: &str) -> (r: String)
        ensures
            r@ == spec_escape(text@),
    {
        let mut out = String::new();
        push_escaped(&mut out, text);
        assert(out@ =~= spec_escape(text@));
        out
    }

    /// Reads the page count out of a page-count report, as
    /// `spec_page_count` describes.
    pub fn get_pdf_page_count(&self, info: &str) -> (r: Option<u32>)
        ensures
            r == spec_page_count(info@),
    {
        parse_page_count(info)
    }

    /// Computes the per-document metadata snapshot, before strategy
    /// dispatch: the page count is read from the report only for the
    /// paginated format, and the creation timestamp is taken from the
    /// clock.
    pub fn extract_metadata(&self, file_type: FileType, file_size: u64, pdf_info: Option<&str>)
        -> (m: DocumentMetadata)
        ensures
            m@.file_type == file_type,
            m@.file_size == file_size,
            m@.page_count == (if file_type == FileType::Pdf {
                match pdf_info {
                    Some(s) => spec_page_count(s@),
                    None => None::<u32>,
                }
            } else {
                None::<u32>
            }),
            m@.sheet_count is None,
    {
        let page_count: Option<u32> = if file_type == FileType::Pdf {
            match pdf_info {
                Some(s) => parse_page_count(s),
                None => None,
            }
        } else {
            None
        };
        DocumentMetadata {
            file_type,
            file_size,
            page_count,
            sheet_count: None,
            created_at: now_rfc3339(),
        }
    }

    /// The paginated strategy: the text extraction is essential and its
    /// failure is a hard error; thumbnail, embedded images and original
    /// bytes are best-effort enrichment.
    pub fn parse_pdf(
        &self,
        text: &CapabilityOutcome,
        thumbnail: &Option<Vec<u8>>,
        image_names: &Vec<String>,
        file_bytes: &Option<Vec<u8>>,
        metadata: DocumentMetadata,
    ) -> (r: Result<ParsedContent, ParseError>)
        requires
            (match thumbnail.deep_view() {
                Some(b) => encodable(b),
                None => true,
            }),
            (match file_bytes.deep_view() {
                Some(b) => encodable(b),
                None => true,
            }),
        ensures
            match r {
                Ok(c) => text@ matches OutcomeView::Produced(txt) && c@ == spec_pdf_content(
                    txt,
                    thumbnail.deep_view(),
                    image_names.deep_view(),
                    file_bytes.deep_view(),
                    metadata@,
                ),
                Err(e) => match text@ {
                    OutcomeView::Produced(_) => false,
                    OutcomeView::Failed(msg) => e.message@ == "PDF parsing error: "@ + msg,
                    OutcomeView::Unavailable(msg) => e.message@ == "pdftotext could not be run: "@
                        + msg,
                },
            },
    {
        match text {
            CapabilityOutcome::Produced(txt) => {
                let thumb: Option<String> = match thumbnail {
                    Some(b) => {
                        proof {
                            assert(b.deep_view() =~= b@);
                        }
                        Some(encode_base64(b))
                    },
                    None => None,
                };
                let orig: Option<String> = match file_bytes {
                    Some(b) => {
                        proof {
                            assert(b.deep_view() =~= b@);
                        }
                        Some(encode_base64(b))
                    },
                    None => None,
                };
                let filtered = filter_image_names(image_names);
                let images = sort_strings(&filtered);
                let html = render_pdf_html(txt.as_str(), &images);
                let mut notes: Vec<String> = Vec::new();
                match thumbnail {
                    None => {
                        notes.push(String::from_str("thumbnail unavailable"));
                    },
                    Some(_) => {},
                }
                match file_bytes {
                    None => {
                        notes.push(String::from_str("original file unavailable"));
                    },
                    Some(_) => {},
                }
                let c = ParsedContent {
                    text: Some(txt.clone()),
                    sheets: None,
                    metadata,
                    thumbnail: thumb,
                    original_file: orig,
                    images: Some(images),
                    html: Some(html),
                    enrichment_notes: notes,
                };
                proof {
                    assert(c.enrichment_notes.deep_view() =~= pdf_notes(
                        thumbnail.deep_view(),
                        file_bytes.deep_view(),
                    ));
                }
                Ok(c)
            },
            CapabilityOutcome::Failed(e) => {
                let mut m = String::from_str("PDF parsing error: ");
                m.append(e.as_str());
                Err(ParseError::new(m))
            },
            CapabilityOutcome::Unavailable(e) => {
                let mut m = String::from_str("pdftotext could not be run: ");
                m.append(e.as_str());
                Err(ParseError::new(m))
            },
        }
    }

    /// The word-document strategy: a failed or missing converter
    /// degrades to placeholder content rather than failing the job.
    pub fn parse_docx(
        &self,
        text: &CapabilityOutcome,
        file_bytes: &Option<Vec<u8>>,
        metadata: DocumentMetadata,
    ) -> (c: ParsedContent)
        requires
            (match file_bytes.deep_view() {
                Some(b) => encodable(b),
                None => true,
            }),
        ensures
            c@ == (match text@ {
                OutcomeView::Produced(txt) => spec_docx_content(
                    txt,
                    file_bytes.deep_view(),
                    metadata@,
                ),
                _ => spec_fallback_content(
                    "DOCX file uploaded; detailed parsing is unavailable."@,
                    "DOCX document"@,
                    "DOCX converter unavailable; produced placeholder content"@,
                    metadata@,
                ),
            }),
    {
        match text {
            CapabilityOutcome::Produced(txt) => {
                let orig: Option<String> = match file_bytes {
                    Some(b) => {
                        proof {
                            assert(b.deep_view() =~= b@);
                        }
                        Some(encode_base64(b))
                    },
                    None => None,
                };
                let html = render_simple_html(txt.as_str(), &metadata, "DOCX document", &None);
                let mut notes: Vec<String> = Vec::new();
                match file_bytes {
                    None => {
                        notes.push(String::from_str("original file unavailable"));
                    },
                    Some(_) => {},
                }
                let c = ParsedContent {
                    text: Some(txt.clone()),
                    sheets: None,
                    metadata,
                    thumbnail: None,
                    original_file: orig,
                    images: None,
                    html: Some(html),
                    enrichment_notes: notes,
                };
                proof {
                    assert(c.enrichment_notes.deep_view() =~= orig_note(file_bytes.deep_view()));
                }
                c
            },
            _ => self.parse_docx_fallback(metadata),
        }
    }

    /// The word-document fallback: placeholder text and a note that
    /// detailed parsing is unavailable.
    pub fn parse_docx_fallback(&self, metadata: DocumentMetadata) -> (c: ParsedContent)
        ensures
            c@ == spec_fallback_content(
                "DOCX file uploaded; detailed parsing is unavailable."@,
                "DOCX document"@,
                "DOCX converter unavailable; produced placeholder content"@,
                metadata@,
            ),
    {
        let placeholder = String::from_str("DOCX file uploaded; detailed parsing is unavailable.");
        let html = render_simple_html(placeholder.as_str(), &metadata, "DOCX document", &None);
        let mut notes: Vec<String> = Vec::new();
        notes.push(String::from_str("DOCX converter unavailable; produced placeholder content"));
        let c = ParsedContent {
            text: Some(placeholder),
            sheets: None,
            metadata,
            thumbnail: None,
            original_file: None,
            images: None,
            html: Some(html),
            enrichment_notes: notes,
        };
        proof {
            assert(c.enrichment_notes.deep_view() =~= seq![
                "DOCX converter unavailable; produced placeholder content"@,
            ]);
        }
        c
    }

    /// The tabular strategy: delimited output becomes one named sheet of
    /// trimmed rows; a failed or missing converter degrades to
    /// placeholder content.
    pub fn parse_xlsx(
        &self,
        csv: &CapabilityOutcome,
        file_bytes: &Option<Vec<u8>>,
        metadata: DocumentMetadata,
    ) -> (c: ParsedContent)
        requires
            (match file_bytes.deep_view() {
                Some(b) => encodable(b),
                None => true,
            }),
        ensures
            c@ == (match csv@ {
                OutcomeView::Produced(text) => spec_xlsx_content(
                    text,
                    file_bytes.deep_view(),
                    metadata@,
                ),
                _ => spec_fallback_content(
                    "XLSX file uploaded; detailed parsing is unavailable."@,
                    "XLSX document"@,
                    "XLSX converter unavailable; produced placeholder content"@,
                    metadata@,
                ),
            }),
    {
        match csv {
            CapabilityOutcome::Produced(text) => {
                let rows = csv_rows(text.as_str());
                let sheet = SheetData { name: String::from_str("Sheet1"), rows };
                let mut sheets: Vec<SheetData> = Vec::new();
                sheets.push(sheet);
                proof {
                    assert(sheets.deep_view() =~= seq![
                        SheetView { name: "Sheet1"@, rows: spec_csv_rows(text@) },
                    ]);
                }
                let html = render_xlsx_html(&sheets, &metadata);
                let orig: Option<String> = match file_bytes {
                    Some(b) => {
                        proof {
                            assert(b.deep_view() =~= b@);
                        }
                        Some(encode_base64(b))
                    },
                    None => None,
                };
                let mut notes: Vec<String> = Vec::new();
                match file_bytes {
                    None => {
                        notes.push(String::from_str("original file unavailable"));
                    },
                    Some(_) => {},
                }
                let c = ParsedContent {
                    text: None,
                    sheets: Some(sheets),
                    metadata,
                    thumbnail: None,
                    original_file: orig,
                    images: None,
                    html: Some(html),
                    enrichment_notes: notes,
                };
                proof {
                    assert(c.enrichment_notes.deep_view() =~= orig_note(file_bytes.deep_view()));
                }
                c
            },
            _ => self.parse_xlsx_fallback(metadata),
        }
    }

    /// The tabular fallback: placeholder text and a note that detailed
    /// parsing is unavailable.
    pub fn parse_xlsx_fallback(&self, metadata: DocumentMetadata) -> (c: ParsedContent)
        ensures
            c@ == spec_fallback_content(
                "XLSX file uploaded; detailed parsing is unavailable."@,
                "XLSX document"@,
                "XLSX converter unavailable; produced placeholder content"@,
                metadata@,
            ),
    {
        let placeholder = String::from_str("XLSX file uploaded; detailed parsing is unavailable.");
        let html = render_simple_html(placeholder.as_str(), &metadata, "XLSX document", &None);
        let mut notes: Vec<String> = Vec::new();
        notes.push(String::from_str("XLSX converter unavailable; produced placeholder content"));
        let c = ParsedContent {
            text: Some(placeholder),
            sheets: None,
            metadata,
            thumbnail: None,
            original_file: None,
            images: None,
            html: Some(html),
            enrichment_notes: notes,
        };
        proof {
            assert(c.enrichment_notes.deep_view() =~= seq![
                "XLSX converter unavailable; produced placeholder content"@,
            ]);
        }
        c
    }

    /// The plain-text strategy for TXT: the file contents are the
    /// primary extraction, so a read failure is a hard error.
    pub fn parse_txt(
        &self,
        contents: &Result<String, String>,
        file_bytes: &Option<Vec<u8>>,
        metadata: DocumentMetadata,
    ) -> (r: Result<ParsedContent, ParseError>)
        requires
            (match file_bytes.deep_view() {
                Some(b) => encodable(b),
                None => true,
            }),
        ensures
            match r {
                Ok(c) => contents matches Ok(s) && c@ == spec_plain_content(
                    s@,
                    "Text document"@,
                    file_bytes.deep_view(),
                    metadata@,
                ),
                Err(e) => contents matches Err(msg) && e.message@ == "failed to read TXT file: "@
                    + msg@,
            },
    {
        self.parse_plain(contents, file_bytes, metadata, false)
    }

    /// The plain-text strategy for MD: the file contents are the
    /// primary extraction, so a read failure is a hard error.
    pub fn parse_md(
        &self,
        contents: &Result<String, String>,
        file_bytes: &Option<Vec<u8>>,
        metadata: DocumentMetadata,
    ) -> (r: Result<ParsedContent, ParseError>)
        requires
            (match file_bytes.deep_view() {
                Some(b) => encodable(b),
                None => true,
            }),
        ensures
            match r {
                Ok(c) => contents matches Ok(s) && c@ == spec_plain_content(
                    s@,
                    "Markdown document"@,
                    file_bytes.deep_view(),
                    metadata@,
                ),
                Err(e) => contents matches Err(msg) && e.message@ == "failed to read MD file: "@
                    + msg@,
            },
    {
        self.parse_plain(contents, file_bytes, metadata, true)
    }

    fn parse_plain(
        &self,
        contents: &Result<String, String>,
        file_bytes: &Option<Vec<u8>>,
        metadata: DocumentMetadata,
        markdown: bool,
    ) -> (r: Result<ParsedContent, ParseError>)
        requires
            (match file_bytes.deep_view() {
                Some(b) => encodable(b),
                None => true,
            }),
        ensures
            match r {
                Ok(c) => contents matches Ok(s) && c@ == spec_plain_content(
                    s@,
                    if markdown {
                        "Markdown document"@
                    } else {
                        "Text document"@
                    },
                    file_bytes.deep_view(),
                    metadata@,
                ),
                Err(e) => contents matches Err(msg) && e.message@ == (if markdown {
                    "failed to read MD file: "@
                } else {
                    "failed to read TXT file: "@
                }) + msg@,
            },
    {
        match contents {
            Ok(s) => {
                let doc_type: &str = if markdown {
                    "Markdown document"
                } else {
                    "Text document"
                };
                let html = render_simple_html(s.as_str(), &metadata, doc_type, &None);
                let orig: Option<String> = match file_bytes {
                    Some(b) => {
                        proof {
                            assert(b.deep_view() =~= b@);
                        }
                        Some(encode_base64(b))
                    },
                    None => None,
                };
                let mut notes: Vec<String> = Vec::new();
                match file_bytes {
                    None => {
                        notes.push(String::from_str("original file unavailable"));
                    },
                    Some(_) => {},
                }
                let c = ParsedContent {
                    text: Some(s.clone()),
                    sheets: None,
                    metadata,
                    thumbnail: None,
                    original_file: orig,
                    images: None,
                    html: Some(html),
                    enrichment_notes: notes,
                };
                proof {
                    assert(c.enrichment_notes.deep_view() =~= orig_note(file_bytes.deep_view()));
                }
                Ok(c)
            },
            Err(msg) => {
                let mut m = String::from_str(
                    if markdown {
                        "failed to read MD file: "
                    } else {
                        "failed to read TXT file: "
                    },
                );
                m.append(msg.as_str());
                Err(ParseError::new(m))
            },
        }
    }

    /// Dispatches a detected file type to its strategy over the gathered
    /// converter outcomes, as `spec_parse` describes. The metadata
    /// snapshot must have been computed for the dispatched type, so the
    /// content always carries the tag of its own format. The unknown type
    /// never reaches this registry: it is rejected upstream, at enqueue.
    pub fn parse_document(
        &self,
        file_type: FileType,
        input: &ConversionInput,
        metadata: DocumentMetadata,
    ) -> (r: Result<ParsedContent, ParseError>)
        requires
            input_matches(file_type, input@),
            input_encodable(input@),
            metadata@.file_type == file_type,
        ensures
            match r {
                Ok(c) => spec_parse(file_type, input@, metadata@) == Ok::<_, Seq<char>>(c@),
                Err(e) => spec_parse(file_type, input@, metadata@) == Err::<ContentView, _>(
                    e.message@,
                ),
            },
    {
        match input {
            ConversionInput::Pdf { text, thumbnail, image_names, file_bytes } => self.parse_pdf(
                text,
                thumbnail,
                image_names,
                file_bytes,
                metadata,
            ),
            ConversionInput::Docx { text, file_bytes } => Ok(
                self.parse_docx(text, file_bytes, metadata),
            ),
            ConversionInput::Xlsx { csv, file_bytes } => Ok(
                self.parse_xlsx(csv, file_bytes, metadata),
            ),
            ConversionInput::Plain { contents, file_bytes } => {
                if file_type == FileType::Md {
                    self.parse_md(contents, file_bytes, metadata)
                } else {
                    self.parse_txt(contents, file_bytes, metadata)
                }
            },
        }
    }
}

} // verus!
