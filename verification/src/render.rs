//! The HTML renderer: pure functions from parsed content and metadata to
//! markup. Each template is a spec-level concatenation, so rendering is
//! deterministic by contract, and all user-controlled text passes through
//! the escaper, whose output provably carries no markup characters.

use vstd::prelude::*;

use crate::document::{MetadataView, SheetData, SheetView};
use crate::text::{digit_char, push_char, push_decimal, spec_digits, spec_trim, trim_str};

verus! {

/// The expansion of one character under HTML escaping.
pub open spec fn escape_char(c: char) -> Seq<char> {
    if c == '&' {
        "&amp;"@
    } else if c == '<' {
        "&lt;"@
    } else if c == '>' {
        "&gt;"@
    } else if c == '"' {
        "&quot;"@
    } else if c == '\'' {
        "&#x27;"@
    } else {
        seq![c]
    }
}

/// The input with ampersands, angle brackets and quotes expanded to
/// entities.
pub open spec fn spec_escape(s: Seq<char>) -> Seq<char>
    decreases s.len(),
{
    if s.len() == 0 {
        Seq::empty()
    } else {
        spec_escape(s.drop_last()) + escape_char(s.last())
    }
}

/// Escaped text is never parsed as markup: no angle bracket and no quote
/// survives escaping.
pub proof fn lemma_escape_safe(s: Seq<char>)
    ensures
        forall|i: int|
            0 <= i < spec_escape(s).len() ==> #[trigger] spec_escape(s)[i] != '<' && spec_escape(
                s,
            )[i] != '>' && spec_escape(s)[i] != '"' && spec_escape(s)[i] != '\'',
    decreases s.len(),
{
    reveal_strlit("&amp;");
    reveal_strlit("&lt;");
    reveal_strlit("&gt;");
    reveal_strlit("&quot;");
    reveal_strlit("&#x27;");
    if s.len() > 0 {
        lemma_escape_safe(s.drop_last());
        let p = spec_escape(s.drop_last());
        let e = escape_char(s.last());
        assert forall|k: int| 0 <= k < e.len() implies e[k] != '<' && e[k] != '>' && e[k] != '"'
            && e[k] != '\'' by {}
        assert forall|i: int| 0 <= i < spec_escape(s).len() implies #[trigger] spec_escape(s)[i]
            != '<' && spec_escape(s)[i] != '>' && spec_escape(s)[i] != '"' && spec_escape(s)[i]
            != '\'' by {
            if i < p.len() {
                assert(spec_escape(s)[i] == p[i]);
            } else {
                assert(spec_escape(s)[i] == e[i - p.len()]);
            }
        }
    }
}

/// Appends the escaped text, as `spec_escape` describes.
pub fn push_escaped(out: &mut String, text: &str)
    ensures
        final(out)@ == old(out)@ + spec_escape(text@),
{
    let n = text.unicode_len();
    let ghost base = out@;
    let mut i: usize = 0;
    while i < n
        invariant
            0 <= i <= n,
            n == text@.len(),
            out@ == base + spec_escape(text@.take(i as int)),
        decreases n - i,
    {
        let c = text.get_char(i);
        match c {
            '&' => out.append("&amp;"),
            '<' => out.append("&lt;"),
            '>' => out.append("&gt;"),
            '"' => out.append("&quot;"),
            '\'' => out.append("&#x27;"),
            _ => push_char(out, c),
        }
        proof {
            assert(text@.take(i + 1).drop_last() =~= text@.take(i as int));
            assert(text@.take(i + 1).last() == text@[i as int]);
            assert(out@ =~= base + spec_escape(text@.take(i + 1)));
        }
        i = i + 1;
    }
    assert(text@.take(n as int) =~= text@);
}

/// A file size in tenths of kibibytes: whole part, a dot, one tenth digit.
pub open spec fn spec_kb(size: u64) -> Seq<char> {
    spec_digits((size / 1024) as nat) + seq!['.'] + seq![
        digit_char(((size % 1024) * 10 / 1024) as nat),
    ]
}

fn push_kb(out: &mut String, size: u64)
    ensures
        final(out)@ == old(out)@ + spec_kb(size),
{
    push_decimal(out, (size / 1024) as u128);
    push_char(out, '.');
    let tenth = ((size % 1024) * 10 / 1024) as u8;
    let c: char = match tenth {
        0 => '0',
        1 => '1',
        2 => '2',
        3 => '3',
        4 => '4',
        5 => '5',
        6 => '6',
        7 => '7',
        8 => '8',
        _ => '9',
    };
    push_char(out, c);
    assert(final(out)@ =~= old(out)@ + spec_kb(size));
}

/// The metadata line of a rendered document: file size, the page count
/// when one is known, and the creation timestamp.
pub open spec fn spec_meta_line(m: MetadataView) -> Seq<char> {
    "            File size: "@ + spec_kb(m.file_size) + " KB"@ + (match m.page_count {
        None => Seq::<char>::empty(),
        Some(n) => " | Pages: "@ + spec_digits(n as nat),
    }) + " | Created: "@ + m.created_at + "\n"@
}

fn push_meta_line(out: &mut String, m: &crate::document::DocumentMetadata)
    ensures
        final(out)@ == old(out)@ + spec_meta_line(m@),
{
    out.append("            File size: ");
    push_kb(out, m.file_size);
    out.append(" KB");
    match m.page_count {
        None => {},
        Some(n) => {
            out.append(" | Pages: ");
            push_decimal(out, n as u128);
        },
    }
    out.append(" | Created: ");
    out.append(m.created_at.as_str());
    out.append("\n");
    assert(final(out)@ =~= old(out)@ + spec_meta_line(m@));
}

/// The fixed head of the generic single-body template, with the document
/// kind in the title.
pub open spec fn spec_simple_head(doc_type: Seq<char>) -> Seq<char> {
    "<!DOCTYPE html>\n<html lang='en'>\n<head>\n    <meta charset='UTF-8'>\n    <title>"@
        + doc_type + " - editable document</title>\n    <style>\n"@ + spec_simple_css()
        + "    </style>\n</head>\n<body>\n    <div class='header'>\n        <div class='title'>"@
        + doc_type + "</div>\n        <div class='metadata'>\n"@
}

pub open spec fn spec_simple_css() -> Seq<char> {
    "        body { font-family: Arial, sans-serif; max-width: 800px; margin: 20px auto; padding: 20px; line-height: 1.6; }\n        .header { border-bottom: 2px solid #333; padding-bottom: 10px; margin-bottom: 20px; }\n        .thumbnail img { max-width: 300px; border: 1px solid #ddd; }\n        .content { white-space: pre-wrap; background: #f9f9f9; padding: 20px; }\n        .editable { border: none; width: 100%; resize: vertical; }\n"@
}

fn push_simple_head(out: &mut String, doc_type: &str)
    ensures
        final(out)@ == old(out)@ + spec_simple_head(doc_type@),
{
    out.append("<!DOCTYPE html>\n<html lang='en'>\n<head>\n    <meta charset='UTF-8'>\n    <title>");
    out.append(doc_type);
    out.append(" - editable document</title>\n    <style>\n");
    out.append(
        "        body { font-family: Arial, sans-serif; max-width: 800px; margin: 20px auto; padding: 20px; line-height: 1.6; }\n        .header { border-bottom: 2px solid #333; padding-bottom: 10px; margin-bottom: 20px; }\n        .thumbnail img { max-width: 300px; border: 1px solid #ddd; }\n        .content { white-space: pre-wrap; background: #f9f9f9; padding: 20px; }\n        .editable { border: none; width: 100%; resize: vertical; }\n",
    );
    out.append(
        "    </style>\n</head>\n<body>\n    <div class='header'>\n        <div class='title'>",
    );
    out.append(doc_type);
    out.append("</div>\n        <div class='metadata'>\n");
    assert(final(out)@ =~= old(out)@ + spec_simple_head(doc_type@));
}

/// The thumbnail block: present only when a thumbnail was produced.
pub open spec fn spec_thumb_block(t: Option<Seq<char>>) -> Seq<char> {
    match t {
        None => Seq::<char>::empty(),
        Some(b) => "    <div class='thumbnail'>\n        <img src='data:image/jpeg;base64,"@ + b
            + "' alt='document thumbnail' />\n    </div>\n"@,
    }
}

fn push_thumb_block(out: &mut String, t: &Option<String>)
    ensures
        final(out)@ == old(out)@ + spec_thumb_block(t.deep_view()),
{
    match t {
        None => {
            assert(final(out)@ =~= old(out)@ + spec_thumb_block(t.deep_view()));
        },
        Some(b) => {
            out.append("    <div class='thumbnail'>\n        <img src='data:image/jpeg;base64,");
            out.append(b.as_str());
            out.append("' alt='document thumbnail' />\n    </div>\n");
            assert(final(out)@ =~= old(out)@ + spec_thumb_block(t.deep_view()));
        },
    }
}

/// The generic single-body template: a document kind in the head, the
/// metadata line, an optional thumbnail, and the escaped text in an
/// editable area. A pure function of its inputs.
pub open spec fn spec_simple_html(
    text: Seq<char>,
    m: MetadataView,
    doc_type: Seq<char>,
    thumbnail: Option<Seq<char>>,
) -> Seq<char> {
    spec_simple_head(doc_type) + spec_meta_line(m) + "        </div>\n    </div>\n"@
        + spec_thumb_block(thumbnail)
        + "    <div class='content'>\n        <textarea class='editable' rows='30'>\n"@
        + spec_escape(text) + "        </textarea>\n    </div>\n</body>\n</html>\n"@
}

/// Renders the generic single-body template, as `spec_simple_html`
/// describes.
pub fn render_simple_html(
    text: &str,
    m: &crate::document::DocumentMetadata,
    doc_type: &str,
    thumbnail: &Option<String>,
) -> (r: String)
    ensures
        r@ == spec_simple_html(text@, m@, doc_type@, thumbnail.deep_view()),
{
    let mut out = String::new();
    push_simple_head(&mut out, doc_type);
    push_meta_line(&mut out, m);
    out.append("        </div>\n    </div>\n");
    push_thumb_block(&mut out, thumbnail);
    out.append("    <div class='content'>\n        <textarea class='editable' rows='30'>\n");
    push_escaped(&mut out, text);
    out.append("        </textarea>\n    </div>\n</body>\n</html>\n");
    assert(out@ =~= spec_simple_html(text@, m@, doc_type@, thumbnail.deep_view()));
    out
}

// ------------------------------------------------------------------
// The tabular template: one table per sheet, the first row as header
// cells, every later row as editable cells.
// ------------------------------------------------------------------
pub open spec fn spec_cell_html(c: Seq<char>, header: bool) -> Seq<char> {
    if header {
        "                <th>"@ + spec_escape(c) + "</th>\n"@
    } else {
        "                <td><input type='text' class='editable-cell' value='"@ + spec_escape(c)
            + "' /></td>\n"@
    }
}

pub open spec fn spec_cells_upto(row: Seq<Seq<char>>, n: int, header: bool) -> Seq<char>
    decreases n,
{
    if n <= 0 {
        Seq::empty()
    } else {
        spec_cells_upto(row, n - 1, header) + spec_cell_html(row[n - 1], header)
    }
}

pub open spec fn spec_row_html(row: Seq<Seq<char>>, header: bool) -> Seq<char> {
    "            <tr>\n"@ + spec_cells_upto(row, row.len() as int, header) + "            </tr>\n"@
}

pub open spec fn spec_rows_upto(rows: Seq<Seq<Seq<char>>>, n: int) -> Seq<char>
    decreases n,
{
    if n <= 0 {
        Seq::empty()
    } else {
        spec_rows_upto(rows, n - 1) + spec_row_html(rows[n - 1], n - 1 == 0)
    }
}

pub open spec fn spec_sheet_html(sh: SheetView) -> Seq<char> {
    "    <div class='sheet'>\n        <div class='sheet-title'>"@ + spec_escape(sh.name)
        + "</div>\n        <table>\n"@ + spec_rows_upto(sh.rows, sh.rows.len() as int)
        + "        </table>\n    </div>\n"@
}

pub open spec fn spec_sheets_upto(l: Seq<SheetView>, n: int) -> Seq<char>
    decreases n,
{
    if n <= 0 {
        Seq::empty()
    } else {
        spec_sheets_upto(l, n - 1) + spec_sheet_html(l[n - 1])
    }
}

pub open spec fn spec_xlsx_head(m: MetadataView, sheet_count: nat) -> Seq<char> {
    "<!DOCTYPE html>\n<html lang='en'>\n<head>\n    <meta charset='UTF-8'>\n    <title>XLSX document - editable spreadsheet</title>\n    <style>\n"@
        + spec_xlsx_css()
        + "    </style>\n</head>\n<body>\n    <div class='header'>\n        <div class='title'>XLSX spreadsheet</div>\n        <div class='metadata'>\n            File size: "@
        + spec_kb(m.file_size) + " KB | Sheets: "@ + spec_digits(sheet_count) + " | Created: "@
        + m.created_at + "\n        </div>\n    </div>\n"@
}

pub open spec fn spec_xlsx_css() -> Seq<char> {
    "        body { font-family: Arial, sans-serif; margin: 20px; }\n        .header { border-bottom: 2px solid #333; padding-bottom: 10px; margin-bottom: 20px; }\n        table { border-collapse: collapse; width: 100%; margin-bottom: 20px; }\n        th, td { border: 1px solid #ddd; padding: 8px; text-align: left; }\n        th { background-color: #f5f5f5; }\n        .editable-cell { border: none; background: transparent; width: 100%; }\n"@
}

/// The tabular template: a pure function of the sheets and metadata.
pub open spec fn spec_xlsx_html(sheets: Seq<SheetView>, m: MetadataView) -> Seq<char> {
    spec_xlsx_head(m, sheets.len()) + spec_sheets_upto(sheets, sheets.len() as int)
        + "</body>\n</html>\n"@
}

fn push_cell(out: &mut String, c: &str, header: bool)
    ensures
        final(out)@ == old(out)@ + spec_cell_html(c@, header),
{
    if header {
        out.append("                <th>");
        push_escaped(out, c);
        out.append("</th>\n");
    } else {
        out.append("                <td><input type='text' class='editable-cell' value='");
        push_escaped(out, c);
        out.append("' /></td>\n");
    }
    assert(final(out)@ =~= old(out)@ + spec_cell_html(c@, header));
}

fn push_row(out: &mut String, row: &Vec<String>, header: bool)
    ensures
        final(out)@ == old(out)@ + spec_row_html(row.deep_view(), header),
{
    let ghost rv = row.deep_view();
    out.append("            <tr>\n");
    let ghost base = out@;
    let n = row.len();
    let mut k: usize = 0;
    while k < n
        invariant
            0 <= k <= n,
            n == row.len(),
            rv == row.deep_view(),
            rv.len() == n,
            out@ == base + spec_cells_upto(rv, k as int, header),
        decreases n - k,
    {
        push_cell(out, row[k].as_str(), header);
        proof {
            assert(row[k as int]@ == rv[k as int]);
            assert(out@ =~= base + spec_cells_upto(rv, k + 1, header));
        }
        k = k + 1;
    }
    out.append("            </tr>\n");
    assert(final(out)@ =~= old(out)@ + spec_row_html(rv, header));
}

fn push_sheet_html(out: &mut String, sh: &SheetData)
    ensures
        final(out)@ == old(out)@ + spec_sheet_html(sh@),
{
    out.append("    <div class='sheet'>\n        <div class='sheet-title'>");
    push_escaped(out, sh.name.as_str());
    out.append("</div>\n        <table>\n");
    let ghost rows = sh.rows.deep_view();
    let ghost base = out@;
    let n = sh.rows.len();
    let mut k: usize = 0;
    while k < n
        invariant
            0 <= k <= n,
            n == sh.rows@.len(),
            rows == sh.rows.deep_view(),
            rows.len() == n,
            out@ == base + spec_rows_upto(rows, k as int),
        decreases n - k,
    {
        push_row(out, &sh.rows[k], k == 0);
        proof {
            assert(sh.rows[k as int].deep_view() == rows[k as int]);
            assert(out@ =~= base + spec_rows_upto(rows, k + 1));
        }
        k = k + 1;
    }
    out.append("        </table>\n    </div>\n");
    assert(final(out)@ =~= old(out)@ + spec_sheet_html(sh@));
}

/// Renders the tabular template, as `spec_xlsx_html` describes.
pub fn render_xlsx_html(sheets: &Vec<SheetData>, m: &crate::document::DocumentMetadata) -> (r:
    String)
    ensures
        r@ == spec_xlsx_html(sheets.deep_view(), m@),
{
    let ghost sv = sheets.deep_view();
    let mut out = String::new();
    out.append(
        "<!DOCTYPE html>\n<html lang='en'>\n<head>\n    <meta charset='UTF-8'>\n    <title>XLSX document - editable spreadsheet</title>\n    <style>\n",
    );
    out.append(
        "        body { font-family: Arial, sans-serif; margin: 20px; }\n        .header { border-bottom: 2px solid #333; padding-bottom: 10px; margin-bottom: 20px; }\n        table { border-collapse: collapse; width: 100%; margin-bottom: 20px; }\n        th, td { border: 1px solid #ddd; padding: 8px; text-align: left; }\n        th { background-color: #f5f5f5; }\n        .editable-cell { border: none; background: transparent; width: 100%; }\n",
    );
    out.append(
        "    </style>\n</head>\n<body>\n    <div class='header'>\n        <div class='title'>XLSX spreadsheet</div>\n        <div class='metadata'>\n            File size: ",
    );
    push_kb(&mut out, m.file_size);
    out.append(" KB | Sheets: ");
    push_decimal(&mut out, sheets.len() as u128);
    out.append(" | Created: ");
    out.append(m.created_at.as_str());
    out.append("\n        </div>\n    </div>\n");
    assert(out@ =~= spec_xlsx_head(m@, sv.len()));
    let ghost base = out@;
    let n = sheets.len();
    let mut k: usize = 0;
    while k < n
        invariant
            0 <= k <= n,
            n == sheets@.len(),
            sv == sheets.deep_view(),
            sv.len() == n,
            out@ == base + spec_sheets_upto(sv, k as int),
        decreases n - k,
    {
        push_sheet_html(&mut out, &sheets[k]);
        proof {
            assert(sheets[k as int].deep_view() == sv[k as int]);
            assert(out@ =~= base + spec_sheets_upto(sv, k + 1));
        }
        k = k + 1;
    }
    out.append("</body>\n</html>\n");
    assert(out@ =~= spec_xlsx_html(sv, m@));
    out
}

// ------------------------------------------------------------------
// The paginated-document template: paragraphs split on blank lines,
// escaped with line breaks kept, then the extracted images.
// ------------------------------------------------------------------
/// The index of the first blank-line separator (two newlines), if any.
pub open spec fn find_2nl(s: Seq<char>) -> Option<int>
    decreases s.len(),
{
    if s.len() < 2 {
        None
    } else if s[0] == '\n' && s[1] == '\n' {
        Some(0int)
    } else {
        match find_2nl(s.skip(1)) {
            None => None,
            Some(j) => Some(j + 1),
        }
    }
}

proof fn lemma_find_2nl(s: Seq<char>)
    ensures
        match find_2nl(s) {
            None => true,
            Some(i) => 0 <= i && i + 2 <= s.len() && s[i] == '\n' && s[i + 1] == '\n',
        },
    decreases s.len(),
{
    if s.len() >= 2 && !(s[0] == '\n' && s[1] == '\n') {
        lemma_find_2nl(s.skip(1));
        if find_2nl(s.skip(1)) is Some {
            let j = find_2nl(s.skip(1))->Some_0;
            assert(s.skip(1)[j] == s[j + 1]);
            assert(s.skip(1)[j + 1] == s[j + 2]);
        }
    }
}

/// The pieces of `s` between blank-line separators, left to right.
pub open spec fn spec_paragraph_split(s: Seq<char>) -> Seq<Seq<char>>
    decreases s.len(),
    via spec_paragraph_split_decreases
{
    match find_2nl(s) {
        None => seq![s],
        Some(i) => seq![s.take(i)] + spec_paragraph_split(s.skip(i + 2)),
    }
}

#[via_fn]
proof fn spec_paragraph_split_decreases(s: Seq<char>) {
    lemma_find_2nl(s);
}

/// A paragraph's body: escaped, with each newline turned into a line
/// break tag.
pub open spec fn spec_para_body(p: Seq<char>) -> Seq<char>
    decreases p.len(),
{
    if p.len() == 0 {
        Seq::empty()
    } else {
        spec_para_body(p.drop_last()) + (if p.last() == '\n' {
            "<br>"@
        } else {
            escape_char(p.last())
        })
    }
}

pub open spec fn spec_para_html(p: Seq<char>) -> Seq<char> {
    "<p>"@ + spec_para_body(spec_trim(p)) + "</p>\n"@
}

/// The paragraph blocks of the first `n` pieces; a piece that trims to
/// nothing produces no block.
pub open spec fn spec_paras_upto(ps: Seq<Seq<char>>, n: int) -> Seq<char>
    decreases n,
{
    if n <= 0 {
        Seq::empty()
    } else {
        spec_paras_upto(ps, n - 1) + (if spec_trim(ps[n - 1]).len() == 0 {
            Seq::<char>::empty()
        } else {
            spec_para_html(ps[n - 1])
        })
    }
}

pub open spec fn spec_image_html(name: Seq<char>) -> Seq<char> {
    "<img src=\"./images/"@ + name + "\" alt=\"extracted image\">\n"@
}

pub open spec fn spec_images_upto(l: Seq<Seq<char>>, n: int) -> Seq<char>
    decreases n,
{
    if n <= 0 {
        Seq::empty()
    } else {
        spec_images_upto(l, n - 1) + spec_image_html(l[n - 1])
    }
}

pub open spec fn spec_pdf_head() -> Seq<char> {
    "<!DOCTYPE html>\n<html lang='en'>\n<head>\n    <meta charset='UTF-8'>\n    <title>PDF preview</title>\n    <style>\n        body { font-family: Arial, sans-serif; margin: 2em; }\n        p { margin: 1em 0; }\n        img { max-width: 100%; display: block; margin: 1em 0; }\n    </style>\n</head>\n<body>\n"@
}

/// The paginated-document template: a pure function of the extracted
/// text and the image names.
pub open spec fn spec_pdf_html(text: Seq<char>, images: Seq<Seq<char>>) -> Seq<char> {
    spec_pdf_head() + spec_paras_upto(
        spec_paragraph_split(text),
        spec_paragraph_split(text).len() as int,
    ) + spec_images_upto(images, images.len() as int) + "</body>\n</html>\n"@
}

fn find_2nl_exec(s: &str) -> (r: Option<usize>)
    ensures
        match r {
            None => find_2nl(s@) is None,
            Some(i) => find_2nl(s@) == Some(i as int),
        },
{
    let n = s.unicode_len();
    if n < 2 {
        return None;
    }
    let mut i: usize = 0;
    assert(s@.skip(0) =~= s@);
    while i + 1 < n
        invariant
            0 <= i,
            i + 1 <= n,
            n == s@.len(),
            n >= 2,
            find_2nl(s@) == match find_2nl(s@.skip(i as int)) {
                None => None::<int>,
                Some(j) => Some(j + i),
            },
        decreases n - i,
    {
        assert(s@.skip(i as int)[0] == s@[i as int]);
        assert(s@.skip(i as int)[1] == s@[i + 1]);
        if s.get_char(i) == '\n' && s.get_char(i + 1) == '\n' {
            return Some(i);
        }
        assert(s@.skip(i as int).skip(1) =~= s@.skip(i + 1));
        i = i + 1;
    }
    assert(s@.skip(i as int).len() < 2);
    None
}

fn split_paragraphs(s: &str) -> (r: Vec<String>)
    ensures
        r.deep_view() == spec_paragraph_split(s@),
    decreases s@.len(),
{
    proof {
        lemma_find_2nl(s@);
    }
    match find_2nl_exec(s) {
        None => {
            let mut v: Vec<String> = Vec::new();
            v.push(String::from_str(s));
            assert(v.deep_view() =~= spec_paragraph_split(s@));
            v
        },
        Some(i) => {
            let n = s.unicode_len();
            let head = String::from_str(s.substring_char(0, i));
            let rest = s.substring_char(i + 2, n);
            assert(rest@ =~= s@.skip(i + 2));
            let mut v = split_paragraphs(rest);
            v.insert(0, head);
            proof {
                assert(head@ =~= s@.take(i as int));
                assert(v.deep_view() =~= spec_paragraph_split(s@));
            }
            v
        },
    }
}

fn push_para_body(out: &mut String, p: &str)
    ensures
        final(out)@ == old(out)@ + spec_para_body(p@),
{
    let n = p.unicode_len();
    let ghost base = out@;
    let mut i: usize = 0;
    while i < n
        invariant
            0 <= i <= n,
            n == p@.len(),
            out@ == base + spec_para_body(p@.take(i as int)),
        decreases n - i,
    {
        let c = p.get_char(i);
        if c == '\n' {
            out.append("<br>");
        } else {
            match c {
                '&' => out.append("&amp;"),
                '<' => out.append("&lt;"),
                '>' => out.append("&gt;"),
                '"' => out.append("&quot;"),
                '\'' => out.append("&#x27;"),
                _ => push_char(out, c),
            }
        }
        proof {
            assert(p@.take(i + 1).drop_last() =~= p@.take(i as int));
            assert(p@.take(i + 1).last() == p@[i as int]);
            assert(out@ =~= base + spec_para_body(p@.take(i + 1)));
        }
        i = i + 1;
    }
    assert(p@.take(n as int) =~= p@);
}

/// Renders the paginated-document template, as `spec_pdf_html` describes.
pub fn render_pdf_html(text: &str, images: &Vec<String>) -> (r: String)
    ensures
        r@ == spec_pdf_html(text@, images.deep_view()),
{
    let mut out = String::new();
    out.append(
        "<!DOCTYPE html>\n<html lang='en'>\n<head>\n    <meta charset='UTF-8'>\n    <title>PDF preview</title>\n    <style>\n        body { font-family: Arial, sans-serif; margin: 2em; }\n        p { margin: 1em 0; }\n        img { max-width: 100%; display: block; margin: 1em 0; }\n    </style>\n</head>\n<body>\n",
    );
    assert(out@ =~= spec_pdf_head());
    let paras = split_paragraphs(text);
    let ghost pv = paras.deep_view();
    let ghost base = out@;
    let n = paras.len();
    let mut k: usize = 0;
    while k < n
        invariant
            0 <= k <= n,
            n == paras@.len(),
            pv == paras.deep_view(),
            pv.len() == n,
            out@ == base + spec_paras_upto(pv, k as int),
        decreases n - k,
    {
        let trimmed = trim_str(paras[k].as_str());
        assert(paras[k as int]@ == pv[k as int]);
        if trimmed.unicode_len() > 0 {
            out.append("<p>");
            push_para_body(&mut out, trimmed);
            out.append("</p>\n");
        }
        assert(out@ =~= base + spec_paras_upto(pv, k + 1));
        k = k + 1;
    }
    let ghost base2 = out@;
    let ghost iv = images.deep_view();
    let m = images.len();
    let mut k2: usize = 0;
    while k2 < m
        invariant
            0 <= k2 <= m,
            m == images@.len(),
            iv == images.deep_view(),
            iv.len() == m,
            out@ == base2 + spec_images_upto(iv, k2 as int),
        decreases m - k2,
    {
        out.append("<img src=\"./images/");
        out.append(images[k2].as_str());
        out.append("\" alt=\"extracted image\">\n");
        proof {
            assert(images[k2 as int]@ == iv[k2 as int]);
            assert(out@ =~= base2 + spec_images_upto(iv, k2 + 1));
        }
        k2 = k2 + 1;
    }
    out.append("</body>\n</html>\n");
    assert(out@ =~= spec_pdf_html(text@, iv));
    out
}

} // verus!
