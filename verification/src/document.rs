//! The document model: file-type classification from a filename, parsed
//! content, sheet data and per-document metadata, each with its
//! mathematical view.

use vstd::prelude::*;

use crate::text::{lower_char, lower_char_exec, push_char};

verus! {

/// The closed set of recognized document formats. `Unknown` is a valid
/// classification but no job may be created for it.
#[derive(Clone, Copy, Debug, PartialEq, Eq, Structural)]
pub enum FileType {
    Pdf,
    Docx,
    Xlsx,
    Txt,
    Md,
    Unknown,
}

/// Every character ASCII-lowered.
pub open spec fn lowered(s: Seq<char>) -> Seq<char> {
    s.map_values(|c: char| lower_char(c))
}

/// The index of the last dot in `name`, if any.
pub open spec fn last_dot(name: Seq<char>) -> Option<int>
    decreases name.len(),
{
    if name.len() == 0 {
        None
    } else if name[name.len() - 1] == '.' {
        Some(name.len() - 1)
    } else {
        last_dot(name.drop_last())
    }
}

/// The last dot-delimited segment of `name`: the characters after the last
/// dot, or the whole name when it has no dot.
pub open spec fn spec_extension(name: Seq<char>) -> Seq<char> {
    match last_dot(name) {
        None => name,
        Some(i) => name.skip(i + 1),
    }
}

/// The file type that a filename's extension denotes, compared
/// case-insensitively.
pub open spec fn spec_classify(name: Seq<char>) -> FileType {
    let e = lowered(spec_extension(name));
    if e == "pdf"@ {
        FileType::Pdf
    } else if e == "docx"@ {
        FileType::Docx
    } else if e == "xlsx"@ {
        FileType::Xlsx
    } else if e == "txt"@ {
        FileType::Txt
    } else if e == "md"@ {
        FileType::Md
    } else {
        FileType::Unknown
    }
}

/// Classification matches the extension: each recognized extension,
/// compared case-insensitively, yields its format, and every other
/// extension yields `Unknown`.
pub proof fn lemma_classify_matches(name: Seq<char>)
    ensures
        spec_classify(name) == FileType::Pdf <==> lowered(spec_extension(name)) == "pdf"@,
        spec_classify(name) == FileType::Docx <==> lowered(spec_extension(name)) == "docx"@,
        spec_classify(name) == FileType::Xlsx <==> lowered(spec_extension(name)) == "xlsx"@,
        spec_classify(name) == FileType::Txt <==> lowered(spec_extension(name)) == "txt"@,
        spec_classify(name) == FileType::Md <==> lowered(spec_extension(name)) == "md"@,
        spec_classify(name) == FileType::Unknown <==> (lowered(spec_extension(name)) != "pdf"@
            && lowered(spec_extension(name)) != "docx"@ && lowered(spec_extension(name))
            != "xlsx"@ && lowered(spec_extension(name)) != "txt"@ && lowered(
            spec_extension(name),
        ) != "md"@),
{
    reveal_strlit("pdf");
    reveal_strlit("docx");
    reveal_strlit("xlsx");
    reveal_strlit("txt");
    reveal_strlit("md");
    assert("pdf"@.len() == 3 && "docx"@.len() == 4 && "xlsx"@.len() == 4 && "txt"@.len() == 3
        && "md"@.len() == 2);
    assert("pdf"@ != "txt"@) by {
        assert("pdf"@[0] == 'p' && "txt"@[0] == 't');
    }
    assert("docx"@ != "xlsx"@) by {
        assert("docx"@[0] == 'd' && "xlsx"@[0] == 'x');
    }
}

/// ASCII-lowers a string, as `lowered` describes.
pub fn lower_ascii(s: &str) -> (r: String)
    ensures
        r@ == lowered(s@),
{
    let n = s.unicode_len();
    let mut out = String::new();
    let mut i: usize = 0;
    while i < n
        invariant
            0 <= i <= n,
            n == s@.len(),
            out@ =~= lowered(s@.take(i as int)),
        decreases n - i,
    {
        push_char(&mut out, lower_char_exec(s.get_char(i)));
        assert(out@ =~= lowered(s@.take(i + 1)));
        i = i + 1;
    }
    assert(s@.take(n as int) =~= s@);
    out
}

/// The last dot-delimited segment of a name, as `spec_extension`
/// describes.
pub fn extension_of<'a>(filename: &'a str) -> (ext: &'a str)
    ensures
        ext@ == spec_extension(filename@),
{
    let n = filename.unicode_len();
    let mut j: usize = n;
    assert(filename@.take(n as int) =~= filename@);
    while j > 0 && filename.get_char(j - 1) != '.'
        invariant
            0 <= j <= n,
            n == filename@.len(),
            last_dot(filename@) == last_dot(filename@.take(j as int)),
        decreases j,
    {
        let ghost t = filename@.take(j as int);
        assert(t[t.len() - 1] == filename@[j - 1]);
        assert(t.drop_last() =~= filename@.take(j - 1));
        j = j - 1;
    }
    let ext: &str = if j == 0 {
        proof {
            let ghost t = filename@.take(0int);
            assert(last_dot(t) is None);
            assert(filename@.skip(0) =~= filename@);
        }
        filename
    } else {
        let ghost t = filename@.take(j as int);
        assert(t[t.len() - 1] == filename@[j - 1]);
        assert(last_dot(filename@) == Some(j - 1));
        filename.substring_char(j, n)
    };
    assert(ext@ == spec_extension(filename@));
    ext
}

impl FileType {
    /// Classifies a filename by its extension, as `spec_classify` describes.
    pub fn from_filename(filename: &str) -> (t: FileType)
        ensures
            t == spec_classify(filename@),
    {
        let ext = extension_of(filename);
        let low = lower_ascii(ext);
        if low == String::from_str("pdf") {
            FileType::Pdf
        } else if low == String::from_str("docx") {
            FileType::Docx
        } else if low == String::from_str("xlsx") {
            FileType::Xlsx
        } else if low == String::from_str("txt") {
            FileType::Txt
        } else if low == String::from_str("md") {
            FileType::Md
        } else {
            FileType::Unknown
        }
    }

    /// The lower-case tag under which this type is reported and persisted.
    pub open spec fn spec_tag(self) -> Seq<char> {
        match self {
            FileType::Pdf => "pdf"@,
            FileType::Docx => "docx"@,
            FileType::Xlsx => "xlsx"@,
            FileType::Txt => "txt"@,
            FileType::Md => "md"@,
            FileType::Unknown => "unknown"@,
        }
    }

    /// The tag of this type, as `spec_tag` describes.
    pub fn to_string(&self) -> (r: &'static str)
        ensures
            r@ == self.spec_tag(),
    {
        match self {
            FileType::Pdf => "pdf",
            FileType::Docx => "docx",
            FileType::Xlsx => "xlsx",
            FileType::Txt => "txt",
            FileType::Md => "md",
            FileType::Unknown => "unknown",
        }
    }
}

impl FileType {
    /// The media type under which a stored original of this type is
    /// served.
    pub open spec fn spec_media_type(self) -> Seq<char> {
        match self {
            FileType::Pdf => "application/pdf"@,
            FileType::Docx =>
                "application/vnd.openxmlformats-officedocument.wordprocessingml.document"@,
            FileType::Xlsx =>
                "application/vnd.openxmlformats-officedocument.spreadsheetml.sheet"@,
            FileType::Txt => "text/plain"@,
            FileType::Md => "text/markdown"@,
            FileType::Unknown => "application/octet-stream"@,
        }
    }

    /// The media type of this file type, as `spec_media_type` describes.
    pub fn media_type(&self) -> (r: &'static str)
        ensures
            r@ == self.spec_media_type(),
    {
        match self {
            FileType::Pdf => "application/pdf",
            FileType::Docx =>
                "application/vnd.openxmlformats-officedocument.wordprocessingml.document",
            FileType::Xlsx =>
                "application/vnd.openxmlformats-officedocument.spreadsheetml.sheet",
            FileType::Txt => "text/plain",
            FileType::Md => "text/markdown",
            FileType::Unknown => "application/octet-stream",
        }
    }
}

/// The media type under which an image file may be served, by its
/// extension, compared case-insensitively; a name without a proper
/// extension, or with one outside the allowed image formats, is
/// refused.
pub open spec fn spec_image_media_type(name: Seq<char>) -> Option<Seq<char>> {
    match last_dot(name) {
        None => None,
        Some(i) => if i == 0 {
            None
        } else {
            let e = lowered(name.skip(i + 1));
            if e == "png"@ {
                Some("image/png"@)
            } else if e == "jpg"@ || e == "jpeg"@ {
                Some("image/jpeg"@)
            } else if e == "gif"@ {
                Some("image/gif"@)
            } else if e == "webp"@ {
                Some("image/webp"@)
            } else {
                None
            }
        },
    }
}

/// Decides the media type for serving an image file, as
/// `spec_image_media_type` describes.
pub fn image_media_type(name: &str) -> (r: Option<&'static str>)
    ensures
        match r {
            Some(s) => spec_image_media_type(name@) == Some(s@),
            None => spec_image_media_type(name@) is None,
        },
{
    let n = name.unicode_len();
    let mut j: usize = n;
    assert(name@.take(n as int) =~= name@);
    while j > 0 && name.get_char(j - 1) != '.'
        invariant
            0 <= j <= n,
            n == name@.len(),
            last_dot(name@) == last_dot(name@.take(j as int)),
        decreases j,
    {
        let ghost t = name@.take(j as int);
        assert(t[t.len() - 1] == name@[j - 1]);
        assert(t.drop_last() =~= name@.take(j - 1));
        j = j - 1;
    }
    if j == 0 {
        proof {
            let ghost t = name@.take(0int);
            assert(last_dot(t) is None);
        }
        return None;
    }
    let ghost t = name@.take(j as int);
    proof {
        assert(t[t.len() - 1] == name@[j - 1]);
        assert(last_dot(name@) == Some(j - 1));
    }
    if j == 1 {
        return None;
    }
    let ext = name.substring_char(j, n);
    assert(ext@ =~= name@.skip(j as int));
    let low = lower_ascii(ext);
    if low == String::from_str("png") {
        Some("image/png")
    } else if low == String::from_str("jpg") || low == String::from_str("jpeg") {
        Some("image/jpeg")
    } else if low == String::from_str("gif") {
        Some("image/gif")
    } else if low == String::from_str("webp") {
        Some("image/webp")
    } else {
        None
    }
}

/// One sheet of tabular content: a name and rows of cell strings.
#[derive(Debug)]
pub struct SheetData {
    pub name: String,
    pub rows: Vec<Vec<String>>,
}

pub ghost struct SheetView {
    pub name: Seq<char>,
    pub rows: Seq<Seq<Seq<char>>>,
}

impl View for SheetData {
    type V = SheetView;

    open spec fn view(&self) -> SheetView {
        SheetView { name: self.name@, rows: self.rows.deep_view() }
    }
}

impl DeepView for SheetData {
    type V = SheetView;

    open spec fn deep_view(&self) -> SheetView {
        self@
    }
}

/// A read-only snapshot computed once per job before strategy dispatch.
#[derive(Debug)]
pub struct DocumentMetadata {
    pub file_type: FileType,
    pub file_size: u64,
    pub page_count: Option<u32>,
    pub sheet_count: Option<u32>,
    pub created_at: String,
}

pub ghost struct MetadataView {
    pub file_type: FileType,
    pub file_size: u64,
    pub page_count: Option<u32>,
    pub sheet_count: Option<u32>,
    pub created_at: Seq<char>,
}

impl View for DocumentMetadata {
    type V = MetadataView;

    open spec fn view(&self) -> MetadataView {
        MetadataView {
            file_type: self.file_type,
            file_size: self.file_size,
            page_count: self.page_count,
            sheet_count: self.sheet_count,
            created_at: self.created_at@,
        }
    }
}

/// What a format strategy produces for one document: the primary content,
/// the metadata snapshot, best-effort enrichment artifacts, and notes for
/// each enrichment step that failed without failing the job.
#[derive(Debug)]
pub struct ParsedContent {
    pub text: Option<String>,
    pub sheets: Option<Vec<SheetData>>,
    pub metadata: DocumentMetadata,
    pub thumbnail: Option<String>,
    pub original_file: Option<String>,
    pub images: Option<Vec<String>>,
    pub html: Option<String>,
    pub enrichment_notes: Vec<String>,
}

pub ghost struct ContentView {
    pub text: Option<Seq<char>>,
    pub sheets: Option<Seq<SheetView>>,
    pub metadata: MetadataView,
    pub thumbnail: Option<Seq<char>>,
    pub original_file: Option<Seq<char>>,
    pub images: Option<Seq<Seq<char>>>,
    pub html: Option<Seq<char>>,
    pub enrichment_notes: Seq<Seq<char>>,
}

impl View for ParsedContent {
    type V = ContentView;

    open spec fn view(&self) -> ContentView {
        ContentView {
            text: self.text.deep_view(),
            sheets: self.sheets.deep_view(),
            metadata: self.metadata@,
            thumbnail: self.thumbnail.deep_view(),
            original_file: self.original_file.deep_view(),
            images: self.images.deep_view(),
            html: self.html.deep_view(),
            enrichment_notes: self.enrichment_notes.deep_view(),
        }
    }
}

} // verus!
