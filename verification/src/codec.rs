//! The textual serialization that every job record round-trips through on
//! its way to and from the backing store. Encoding is total over
//! well-formed records; decoding validates the representation and the
//! record invariant, so a store can fail with a data-integrity error
//! instead of ever returning a malformed job.
//!
//! The format is length-prefixed text: a number is its decimal digits
//! followed by `;`, a string is its character count followed by its
//! characters, an option is a `0` or `1` tag, a list is a count followed
//! by its items, and statuses and file types are one-character tags.

use vstd::prelude::*;

use vstd::slice::slice_subrange;

use crate::document::{ContentView, DocumentMetadata, FileType, MetadataView, ParsedContent,
    SheetData, SheetView};
use crate::job::{job_wf, Job, JobResult, JobResultView, JobStatus, JobView, ResultInfo,
    ResultInfoView};
use crate::text::{digit_val, is_digit, push_char, push_decimal, spec_digits};

verus! {

// ------------------------------------------------------------------
// Spec-level encoders
// ------------------------------------------------------------------
pub open spec fn enc_num(n: nat) -> Seq<char> {
    spec_digits(n) + seq![';']
}

pub open spec fn enc_str(s: Seq<char>) -> Seq<char> {
    enc_num(s.len()) + s
}

pub open spec fn enc_opt_str(o: Option<Seq<char>>) -> Seq<char> {
    match o {
        None => seq!['0'],
        Some(s) => seq!['1'] + enc_str(s),
    }
}

pub open spec fn enc_opt_num(o: Option<u32>) -> Seq<char> {
    match o {
        None => seq!['0'],
        Some(n) => seq!['1'] + enc_num(n as nat),
    }
}

pub open spec fn status_char(s: JobStatus) -> char {
    match s {
        JobStatus::Queued => 'Q',
        JobStatus::Processing => 'P',
        JobStatus::Completed => 'C',
        JobStatus::Failed => 'F',
    }
}

pub open spec fn ftype_char(t: FileType) -> char {
    match t {
        FileType::Pdf => 'p',
        FileType::Docx => 'd',
        FileType::Xlsx => 'x',
        FileType::Txt => 't',
        FileType::Md => 'm',
        FileType::Unknown => 'u',
    }
}

pub open spec fn enc_str_items(l: Seq<Seq<char>>) -> Seq<char>
    decreases l.len(),
{
    if l.len() == 0 {
        Seq::empty()
    } else {
        enc_str_items(l.drop_last()) + enc_str(l.last())
    }
}

pub open spec fn enc_str_list(l: Seq<Seq<char>>) -> Seq<char> {
    enc_num(l.len()) + enc_str_items(l)
}

pub open spec fn enc_row_items(l: Seq<Seq<Seq<char>>>) -> Seq<char>
    decreases l.len(),
{
    if l.len() == 0 {
        Seq::empty()
    } else {
        enc_row_items(l.drop_last()) + enc_str_list(l.last())
    }
}

pub open spec fn enc_rows(l: Seq<Seq<Seq<char>>>) -> Seq<char> {
    enc_num(l.len()) + enc_row_items(l)
}

pub open spec fn enc_sheet(sh: SheetView) -> Seq<char> {
    enc_str(sh.name) + enc_rows(sh.rows)
}

pub open spec fn enc_sheet_items(l: Seq<SheetView>) -> Seq<char>
    decreases l.len(),
{
    if l.len() == 0 {
        Seq::empty()
    } else {
        enc_sheet_items(l.drop_last()) + enc_sheet(l.last())
    }
}

pub open spec fn enc_sheets(l: Seq<SheetView>) -> Seq<char> {
    enc_num(l.len()) + enc_sheet_items(l)
}

pub open spec fn enc_opt_sheets(o: Option<Seq<SheetView>>) -> Seq<char> {
    match o {
        None => seq!['0'],
        Some(l) => seq!['1'] + enc_sheets(l),
    }
}

pub open spec fn enc_opt_str_list(o: Option<Seq<Seq<char>>>) -> Seq<char> {
    match o {
        None => seq!['0'],
        Some(l) => seq!['1'] + enc_str_list(l),
    }
}

pub open spec fn enc_meta(m: MetadataView) -> Seq<char> {
    seq![ftype_char(m.file_type)] + enc_num(m.file_size as nat) + enc_opt_num(m.page_count)
        + enc_opt_num(m.sheet_count) + enc_str(m.created_at)
}

pub open spec fn enc_content(c: ContentView) -> Seq<char> {
    enc_opt_str(c.text) + enc_opt_sheets(c.sheets) + enc_meta(c.metadata) + enc_opt_str(
        c.thumbnail,
    ) + enc_opt_str(c.original_file) + enc_opt_str_list(c.images) + enc_opt_str(c.html)
        + enc_str_list(c.enrichment_notes)
}

pub open spec fn enc_result(r: JobResultView) -> Seq<char> {
    enc_str(r.filename) + enc_str(r.file_type) + enc_content(r.content) + enc_str(
        r.metadata.processed_at,
    ) + enc_str(r.metadata.source_path)
}

pub open spec fn enc_opt_result(o: Option<JobResultView>) -> Seq<char> {
    match o {
        None => seq!['0'],
        Some(r) => seq!['1'] + enc_result(r),
    }
}

pub open spec fn enc_job(j: JobView) -> Seq<char> {
    enc_num(j.id as nat) + seq![status_char(j.status)] + enc_num(j.progress as nat) + enc_opt_str(
        j.message,
    ) + enc_opt_result(j.result)
}

/// The persisted text of a job record.
pub open spec fn spec_encode(j: JobView) -> Seq<char> {
    enc_job(j)
}

// ------------------------------------------------------------------
// Boundedness: every length that the format writes fits in a `u128`.
// Views of values held in memory satisfy this trivially; the round-trip
// law needs it stated.
// ------------------------------------------------------------------
pub open spec fn str_ok(s: Seq<char>) -> bool {
    s.len() <= u128::MAX
}

pub open spec fn opt_str_ok(o: Option<Seq<char>>) -> bool {
    match o {
        None => true,
        Some(s) => str_ok(s),
    }
}

pub open spec fn str_list_ok(l: Seq<Seq<char>>) -> bool {
    l.len() <= u128::MAX && forall|k: int| 0 <= k < l.len() ==> str_ok(#[trigger] l[k])
}

pub open spec fn rows_ok(l: Seq<Seq<Seq<char>>>) -> bool {
    l.len() <= u128::MAX && forall|k: int| 0 <= k < l.len() ==> str_list_ok(#[trigger] l[k])
}

pub open spec fn sheet_ok(sh: SheetView) -> bool {
    str_ok(sh.name) && rows_ok(sh.rows)
}

pub open spec fn sheets_ok(l: Seq<SheetView>) -> bool {
    l.len() <= u128::MAX && forall|k: int| 0 <= k < l.len() ==> sheet_ok(#[trigger] l[k])
}

pub open spec fn meta_ok(m: MetadataView) -> bool {
    str_ok(m.created_at)
}

pub open spec fn content_ok(c: ContentView) -> bool {
    &&& opt_str_ok(c.text)
    &&& match c.sheets {
        None => true,
        Some(l) => sheets_ok(l),
    }
    &&& meta_ok(c.metadata)
    &&& opt_str_ok(c.thumbnail)
    &&& opt_str_ok(c.original_file)
    &&& match c.images {
        None => true,
        Some(l) => str_list_ok(l),
    }
    &&& opt_str_ok(c.html)
    &&& str_list_ok(c.enrichment_notes)
}

pub open spec fn result_ok(r: JobResultView) -> bool {
    &&& str_ok(r.filename)
    &&& str_ok(r.file_type)
    &&& content_ok(r.content)
    &&& str_ok(r.metadata.processed_at)
    &&& str_ok(r.metadata.source_path)
}

/// Every component of the record is small enough for its length prefix.
pub open spec fn job_bounded(j: JobView) -> bool {
    &&& opt_str_ok(j.message)
    &&& match j.result {
        None => true,
        Some(r) => result_ok(r),
    }
}

// ------------------------------------------------------------------
// Spec-level decoders, each consuming a prefix and yielding the rest
// ------------------------------------------------------------------
pub open spec fn dec_num_rec(s: Seq<char>, acc: nat) -> Option<(nat, Seq<char>)>
    decreases s.len(),
{
    if s.len() == 0 {
        None
    } else if s[0] == ';' {
        Some((acc, s.skip(1)))
    } else if is_digit(s[0]) {
        if acc * 10 + digit_val(s[0]) > u128::MAX {
            None
        } else {
            dec_num_rec(s.skip(1), acc * 10 + digit_val(s[0]))
        }
    } else {
        None
    }
}

pub open spec fn dec_num(s: Seq<char>) -> Option<(nat, Seq<char>)> {
    if s.len() > 0 && is_digit(s[0]) {
        dec_num_rec(s, 0)
    } else {
        None
    }
}

pub open spec fn dec_str(s: Seq<char>) -> Option<(Seq<char>, Seq<char>)> {
    match dec_num(s) {
        None => None,
        Some((n, r)) => if n <= r.len() {
            Some((r.take(n as int), r.skip(n as int)))
        } else {
            None
        },
    }
}

pub open spec fn dec_opt_str(s: Seq<char>) -> Option<(Option<Seq<char>>, Seq<char>)> {
    if s.len() == 0 {
        None
    } else if s[0] == '0' {
        Some((None, s.skip(1)))
    } else if s[0] == '1' {
        match dec_str(s.skip(1)) {
            None => None,
            Some((x, r)) => Some((Some(x), r)),
        }
    } else {
        None
    }
}

pub open spec fn dec_opt_num(s: Seq<char>) -> Option<(Option<u32>, Seq<char>)> {
    if s.len() == 0 {
        None
    } else if s[0] == '0' {
        Some((None, s.skip(1)))
    } else if s[0] == '1' {
        match dec_num(s.skip(1)) {
            None => None,
            Some((n, r)) => if n <= u32::MAX {
                Some((Some(n as u32), r))
            } else {
                None
            },
        }
    } else {
        None
    }
}

pub open spec fn dec_status(s: Seq<char>) -> Option<(JobStatus, Seq<char>)> {
    if s.len() == 0 {
        None
    } else if s[0] == 'Q' {
        Some((JobStatus::Queued, s.skip(1)))
    } else if s[0] == 'P' {
        Some((JobStatus::Processing, s.skip(1)))
    } else if s[0] == 'C' {
        Some((JobStatus::Completed, s.skip(1)))
    } else if s[0] == 'F' {
        Some((JobStatus::Failed, s.skip(1)))
    } else {
        None
    }
}

pub open spec fn dec_ftype(s: Seq<char>) -> Option<(FileType, Seq<char>)> {
    if s.len() == 0 {
        None
    } else if s[0] == 'p' {
        Some((FileType::Pdf, s.skip(1)))
    } else if s[0] == 'd' {
        Some((FileType::Docx, s.skip(1)))
    } else if s[0] == 'x' {
        Some((FileType::Xlsx, s.skip(1)))
    } else if s[0] == 't' {
        Some((FileType::Txt, s.skip(1)))
    } else if s[0] == 'm' {
        Some((FileType::Md, s.skip(1)))
    } else if s[0] == 'u' {
        Some((FileType::Unknown, s.skip(1)))
    } else {
        None
    }
}

pub open spec fn dec_str_items(s: Seq<char>, n: nat) -> Option<(Seq<Seq<char>>, Seq<char>)>
    decreases n,
{
    if n == 0 {
        Some((Seq::empty(), s))
    } else {
        match dec_str(s) {
            None => None,
            Some((x, r)) => match dec_str_items(r, (n - 1) as nat) {
                None => None,
                Some((items, rest)) => Some((seq![x] + items, rest)),
            },
        }
    }
}

pub open spec fn dec_str_list(s: Seq<char>) -> Option<(Seq<Seq<char>>, Seq<char>)> {
    match dec_num(s) {
        None => None,
        Some((n, r)) => dec_str_items(r, n),
    }
}

pub open spec fn dec_row_items(s: Seq<char>, n: nat) -> Option<(Seq<Seq<Seq<char>>>, Seq<char>)>
    decreases n,
{
    if n == 0 {
        Some((Seq::empty(), s))
    } else {
        match dec_str_list(s) {
            None => None,
            Some((x, r)) => match dec_row_items(r, (n - 1) as nat) {
                None => None,
                Some((items, rest)) => Some((seq![x] + items, rest)),
            },
        }
    }
}

pub open spec fn dec_rows(s: Seq<char>) -> Option<(Seq<Seq<Seq<char>>>, Seq<char>)> {
    match dec_num(s) {
        None => None,
        Some((n, r)) => dec_row_items(r, n),
    }
}

pub open spec fn dec_sheet(s: Seq<char>) -> Option<(SheetView, Seq<char>)> {
    match dec_str(s) {
        None => None,
        Some((name, r)) => match dec_rows(r) {
            None => None,
            Some((rows, rest)) => Some((SheetView { name, rows }, rest)),
        },
    }
}

pub open spec fn dec_sheet_items(s: Seq<char>, n: nat) -> Option<(Seq<SheetView>, Seq<char>)>
    decreases n,
{
    if n == 0 {
        Some((Seq::empty(), s))
    } else {
        match dec_sheet(s) {
            None => None,
            Some((x, r)) => match dec_sheet_items(r, (n - 1) as nat) {
                None => None,
                Some((items, rest)) => Some((seq![x] + items, rest)),
            },
        }
    }
}

pub open spec fn dec_sheets(s: Seq<char>) -> Option<(Seq<SheetView>, Seq<char>)> {
    match dec_num(s) {
        None => None,
        Some((n, r)) => dec_sheet_items(r, n),
    }
}

pub open spec fn dec_opt_sheets(s: Seq<char>) -> Option<(Option<Seq<SheetView>>, Seq<char>)> {
    if s.len() == 0 {
        None
    } else if s[0] == '0' {
        Some((None, s.skip(1)))
    } else if s[0] == '1' {
        match dec_sheets(s.skip(1)) {
            None => None,
            Some((x, r)) => Some((Some(x), r)),
        }
    } else {
        None
    }
}

pub open spec fn dec_opt_str_list(s: Seq<char>) -> Option<(Option<Seq<Seq<char>>>, Seq<char>)> {
    if s.len() == 0 {
        None
    } else if s[0] == '0' {
        Some((None, s.skip(1)))
    } else if s[0] == '1' {
        match dec_str_list(s.skip(1)) {
            None => None,
            Some((x, r)) => Some((Some(x), r)),
        }
    } else {
        None
    }
}

pub open spec fn dec_meta(s: Seq<char>) -> Option<(MetadataView, Seq<char>)> {
    match dec_ftype(s) {
        None => None,
        Some((file_type, r1)) => match dec_num(r1) {
            None => None,
            Some((size, r2)) => if size > u64::MAX {
                None
            } else {
                match dec_opt_num(r2) {
                    None => None,
                    Some((page_count, r3)) => match dec_opt_num(r3) {
                        None => None,
                        Some((sheet_count, r4)) => match dec_str(r4) {
                            None => None,
                            Some((created_at, rest)) => Some(
                                (
                                    MetadataView {
                                        file_type,
                                        file_size: size as u64,
                                        page_count,
                                        sheet_count,
                                        created_at,
                                    },
                                    rest,
                                ),
                            ),
                        },
                    },
                }
            },
        },
    }
}

pub open spec fn dec_content(s: Seq<char>) -> Option<(ContentView, Seq<char>)> {
    match dec_opt_str(s) {
        None => None,
        Some((text, r1)) => match dec_opt_sheets(r1) {
            None => None,
            Some((sheets, r2)) => match dec_meta(r2) {
                None => None,
                Some((metadata, r3)) => match dec_opt_str(r3) {
                    None => None,
                    Some((thumbnail, r4)) => match dec_opt_str(r4) {
                        None => None,
                        Some((original_file, r5)) => match dec_opt_str_list(r5) {
                            None => None,
                            Some((images, r6)) => match dec_opt_str(r6) {
                                None => None,
                                Some((html, r7)) => match dec_str_list(r7) {
                                    None => None,
                                    Some((enrichment_notes, rest)) => Some(
                                        (
                                            ContentView {
                                                text,
                                                sheets,
                                                metadata,
                                                thumbnail,
                                                original_file,
                                                images,
                                                html,
                                                enrichment_notes,
                                            },
                                            rest,
                                        ),
                                    ),
                                },
                            },
                        },
                    },
                },
            },
        },
    }
}

pub open spec fn dec_result(s: Seq<char>) -> Option<(JobResultView, Seq<char>)> {
    match dec_str(s) {
        None => None,
        Some((filename, r1)) => match dec_str(r1) {
            None => None,
            Some((file_type, r2)) => match dec_content(r2) {
                None => None,
                Some((content, r3)) => match dec_str(r3) {
                    None => None,
                    Some((processed_at, r4)) => match dec_str(r4) {
                        None => None,
                        Some((source_path, rest)) => Some(
                            (
                                JobResultView {
                                    filename,
                                    file_type,
                                    content,
                                    metadata: ResultInfoView { processed_at, source_path },
                                },
                                rest,
                            ),
                        ),
                    },
                },
            },
        },
    }
}

pub open spec fn dec_opt_result(s: Seq<char>) -> Option<(Option<JobResultView>, Seq<char>)> {
    if s.len() == 0 {
        None
    } else if s[0] == '0' {
        Some((None, s.skip(1)))
    } else if s[0] == '1' {
        match dec_result(s.skip(1)) {
            None => None,
            Some((x, r)) => Some((Some(x), r)),
        }
    } else {
        None
    }
}

pub open spec fn dec_job(s: Seq<char>) -> Option<(JobView, Seq<char>)> {
    match dec_num(s) {
        None => None,
        Some((id, r1)) => match dec_status(r1) {
            None => None,
            Some((status, r2)) => match dec_num(r2) {
                None => None,
                Some((progress, r3)) => if progress > 100 {
                    None
                } else {
                    match dec_opt_str(r3) {
                        None => None,
                        Some((message, r4)) => match dec_opt_result(r4) {
                            None => None,
                            Some((result, rest)) => Some(
                                (
                                    JobView {
                                        id: id as u128,
                                        status,
                                        progress: progress as u8,
                                        message,
                                        result,
                                    },
                                    rest,
                                ),
                            ),
                        },
                    }
                },
            },
        },
    }
}

/// The job that a stored text denotes, when the whole text is one
/// well-formed record; decoding fails on anything else.
pub open spec fn spec_decode(s: Seq<char>) -> Option<JobView> {
    match dec_job(s) {
        None => None,
        Some((j, rest)) => if rest.len() == 0 && job_wf(j) {
            Some(j)
        } else {
            None
        },
    }
}

// ------------------------------------------------------------------
// Round trip: decoding what was encoded yields the record unchanged
// ------------------------------------------------------------------
spec fn pow10(k: nat) -> nat
    decreases k,
{
    if k == 0 {
        1
    } else {
        10 * pow10((k - 1) as nat)
    }
}

proof fn lemma_pow10_pos(k: nat)
    ensures
        pow10(k) >= 1,
    decreases k,
{
    if k > 0 {
        lemma_pow10_pos((k - 1) as nat);
    }
}

proof fn lemma_digits_first(n: nat)
    ensures
        spec_digits(n).len() >= 1,
        is_digit(spec_digits(n)[0]),
    decreases n,
{
    if n >= 10 {
        lemma_digits_first(n / 10);
        assert(spec_digits(n)[0] == spec_digits(n / 10)[0]);
    } else {
        crate::text::lemma_digit_char_val(n);
    }
}

proof fn lemma_dec_digits(n: nat, acc: nat, tail: Seq<char>)
    requires
        acc * pow10(spec_digits(n).len()) + n <= u128::MAX,
    ensures
        dec_num_rec(spec_digits(n) + tail, acc) == dec_num_rec(
            tail,
            (acc * pow10(spec_digits(n).len()) + n) as nat,
        ),
    decreases n,
{
    if n < 10 {
        crate::text::lemma_digit_char_val(n);
        let c = crate::text::digit_char(n);
        assert(spec_digits(n) + tail =~= seq![c] + tail);
        assert((seq![c] + tail)[0] == c);
        assert(pow10(0) == 1);
        assert(pow10(1) == 10);
        assert((seq![c] + tail).skip(1) =~= tail);
        assert(acc * 10 + n <= u128::MAX);
    } else {
        let d1 = spec_digits(n / 10);
        let c = crate::text::digit_char(n % 10);
        crate::text::lemma_digit_char_val(n % 10);
        let l1 = d1.len();
        assert(spec_digits(n) =~= d1 + seq![c]);
        assert(spec_digits(n) + tail =~= d1 + (seq![c] + tail));
        assert(pow10(l1 + 1) == 10 * pow10(l1));
        lemma_pow10_pos(l1);
        assert(acc * pow10(l1) + n / 10 <= acc * (10 * pow10(l1)) + n) by (nonlinear_arith)
            requires
                pow10(l1) >= 1,
                n >= 10,
                acc >= 0,
        {}
        lemma_dec_digits(n / 10, acc, seq![c] + tail);
        let a1 = acc * pow10(l1) + n / 10;
        assert((seq![c] + tail)[0] == c);
        assert((seq![c] + tail).skip(1) =~= tail);
        assert(a1 * 10 + n % 10 == acc * pow10(l1 + 1) + n) by (nonlinear_arith)
            requires
                a1 == acc * pow10(l1) + n / 10,
                pow10(l1 + 1) == 10 * pow10(l1),
                n >= 0,
        {}
        assert(spec_digits(n).len() == l1 + 1);
    }
}

proof fn lemma_rt_num(n: nat, tail: Seq<char>)
    requires
        n <= u128::MAX,
    ensures
        dec_num(enc_num(n) + tail) == Some((n, tail)),
{
    lemma_digits_first(n);
    assert(enc_num(n) + tail =~= spec_digits(n) + (seq![';'] + tail));
    assert((spec_digits(n) + (seq![';'] + tail))[0] == spec_digits(n)[0]);
    lemma_pow10_pos(spec_digits(n).len());
    assert(0 * pow10(spec_digits(n).len()) == 0) by (nonlinear_arith) {}
    lemma_dec_digits(n, 0, seq![';'] + tail);
    assert((seq![';'] + tail)[0] == ';');
    assert((seq![';'] + tail).skip(1) =~= tail);
}

proof fn lemma_rt_str(s: Seq<char>, tail: Seq<char>)
    requires
        str_ok(s),
    ensures
        dec_str(enc_str(s) + tail) == Some((s, tail)),
{
    assert(enc_str(s) + tail =~= enc_num(s.len()) + (s + tail));
    lemma_rt_num(s.len(), s + tail);
    assert((s + tail).take(s.len() as int) =~= s);
    assert((s + tail).skip(s.len() as int) =~= tail);
}

proof fn lemma_rt_opt_str(o: Option<Seq<char>>, tail: Seq<char>)
    requires
        opt_str_ok(o),
    ensures
        dec_opt_str(enc_opt_str(o) + tail) == Some((o, tail)),
{
    match o {
        None => {
            assert(enc_opt_str(o) + tail =~= seq!['0'] + tail);
            assert((seq!['0'] + tail)[0] == '0');
            assert((seq!['0'] + tail).skip(1) =~= tail);
        },
        Some(s) => {
            assert(enc_opt_str(o) + tail =~= seq!['1'] + (enc_str(s) + tail));
            let w = seq!['1'] + (enc_str(s) + tail);
            assert(w[0] == '1');
            assert(w.skip(1) =~= enc_str(s) + tail);
            lemma_rt_str(s, tail);
        },
    }
}

proof fn lemma_rt_opt_num(o: Option<u32>, tail: Seq<char>)
    ensures
        dec_opt_num(enc_opt_num(o) + tail) == Some((o, tail)),
{
    match o {
        None => {
            assert(enc_opt_num(o) + tail =~= seq!['0'] + tail);
            assert((seq!['0'] + tail)[0] == '0');
            assert((seq!['0'] + tail).skip(1) =~= tail);
        },
        Some(n) => {
            assert(enc_opt_num(o) + tail =~= seq!['1'] + (enc_num(n as nat) + tail));
            let w = seq!['1'] + (enc_num(n as nat) + tail);
            assert(w[0] == '1');
            assert(w.skip(1) =~= enc_num(n as nat) + tail);
            lemma_rt_num(n as nat, tail);
        },
    }
}

proof fn lemma_rt_status(st: JobStatus, tail: Seq<char>)
    ensures
        dec_status(seq![status_char(st)] + tail) == Some((st, tail)),
{
    assert((seq![status_char(st)] + tail)[0] == status_char(st));
    assert((seq![status_char(st)] + tail).skip(1) =~= tail);
}

proof fn lemma_rt_ftype(t: FileType, tail: Seq<char>)
    ensures
        dec_ftype(seq![ftype_char(t)] + tail) == Some((t, tail)),
{
    assert((seq![ftype_char(t)] + tail)[0] == ftype_char(t));
    assert((seq![ftype_char(t)] + tail).skip(1) =~= tail);
}

proof fn lemma_enc_str_items_front(l: Seq<Seq<char>>)
    requires
        l.len() > 0,
    ensures
        enc_str_items(l) == enc_str(l[0]) + enc_str_items(l.skip(1)),
    decreases l.len(),
{
    if l.len() == 1 {
        assert(l.drop_last() =~= Seq::<Seq<char>>::empty());
        assert(l.skip(1) =~= Seq::<Seq<char>>::empty());
        assert(enc_str_items(l) =~= enc_str(l[0]) + enc_str_items(l.skip(1)));
    } else {
        lemma_enc_str_items_front(l.drop_last());
        assert(l.drop_last()[0] == l[0]);
        assert(l.skip(1).drop_last() =~= l.drop_last().skip(1));
        assert(l.skip(1).last() == l.last());
        assert(enc_str_items(l.skip(1)) == enc_str_items(l.drop_last().skip(1)) + enc_str(
            l.last(),
        ));
        assert(enc_str_items(l) =~= enc_str(l[0]) + enc_str_items(l.skip(1)));
    }
}

proof fn lemma_rt_str_items(l: Seq<Seq<char>>, tail: Seq<char>)
    requires
        forall|k: int| 0 <= k < l.len() ==> str_ok(#[trigger] l[k]),
    ensures
        dec_str_items(enc_str_items(l) + tail, l.len()) == Some((l, tail)),
    decreases l.len(),
{
    if l.len() == 0 {
        assert(enc_str_items(l) + tail =~= tail);
        assert(l =~= Seq::<Seq<char>>::empty());
    } else {
        lemma_enc_str_items_front(l);
        assert(enc_str_items(l) + tail =~= enc_str(l[0]) + (enc_str_items(l.skip(1)) + tail));
        lemma_rt_str(l[0], enc_str_items(l.skip(1)) + tail);
        assert(forall|k: int| 0 <= k < l.skip(1).len() ==> #[trigger] l.skip(1)[k] == l[k + 1]);
        lemma_rt_str_items(l.skip(1), tail);
        assert(seq![l[0]] + l.skip(1) =~= l);
    }
}

proof fn lemma_rt_str_list(l: Seq<Seq<char>>, tail: Seq<char>)
    requires
        str_list_ok(l),
    ensures
        dec_str_list(enc_str_list(l) + tail) == Some((l, tail)),
{
    assert(enc_str_list(l) + tail =~= enc_num(l.len()) + (enc_str_items(l) + tail));
    lemma_rt_num(l.len(), enc_str_items(l) + tail);
    lemma_rt_str_items(l, tail);
}

proof fn lemma_enc_row_items_front(l: Seq<Seq<Seq<char>>>)
    requires
        l.len() > 0,
    ensures
        enc_row_items(l) == enc_str_list(l[0]) + enc_row_items(l.skip(1)),
    decreases l.len(),
{
    if l.len() == 1 {
        assert(l.drop_last() =~= Seq::<Seq<Seq<char>>>::empty());
        assert(l.skip(1) =~= Seq::<Seq<Seq<char>>>::empty());
        assert(enc_row_items(l) =~= enc_str_list(l[0]) + enc_row_items(l.skip(1)));
    } else {
        lemma_enc_row_items_front(l.drop_last());
        assert(l.drop_last()[0] == l[0]);
        assert(l.skip(1).drop_last() =~= l.drop_last().skip(1));
        assert(l.skip(1).last() == l.last());
        assert(enc_row_items(l.skip(1)) == enc_row_items(l.drop_last().skip(1)) + enc_str_list(
            l.last(),
        ));
        assert(enc_row_items(l) =~= enc_str_list(l[0]) + enc_row_items(l.skip(1)));
    }
}

proof fn lemma_rt_row_items(l: Seq<Seq<Seq<char>>>, tail: Seq<char>)
    requires
        forall|k: int| 0 <= k < l.len() ==> str_list_ok(#[trigger] l[k]),
    ensures
        dec_row_items(enc_row_items(l) + tail, l.len()) == Some((l, tail)),
    decreases l.len(),
{
    if l.len() == 0 {
        assert(enc_row_items(l) + tail =~= tail);
        assert(l =~= Seq::<Seq<Seq<char>>>::empty());
    } else {
        lemma_enc_row_items_front(l);
        assert(enc_row_items(l) + tail =~= enc_str_list(l[0]) + (enc_row_items(l.skip(1)) + tail));
        lemma_rt_str_list(l[0], enc_row_items(l.skip(1)) + tail);
        assert(forall|k: int| 0 <= k < l.skip(1).len() ==> #[trigger] l.skip(1)[k] == l[k + 1]);
        lemma_rt_row_items(l.skip(1), tail);
        assert(seq![l[0]] + l.skip(1) =~= l);
    }
}

proof fn lemma_rt_rows(l: Seq<Seq<Seq<char>>>, tail: Seq<char>)
    requires
        rows_ok(l),
    ensures
        dec_rows(enc_rows(l) + tail) == Some((l, tail)),
{
    assert(enc_rows(l) + tail =~= enc_num(l.len()) + (enc_row_items(l) + tail));
    lemma_rt_num(l.len(), enc_row_items(l) + tail);
    lemma_rt_row_items(l, tail);
}

proof fn lemma_rt_sheet(sh: SheetView, tail: Seq<char>)
    requires
        sheet_ok(sh),
    ensures
        dec_sheet(enc_sheet(sh) + tail) == Some((sh, tail)),
{
    assert(enc_sheet(sh) + tail =~= enc_str(sh.name) + (enc_rows(sh.rows) + tail));
    lemma_rt_str(sh.name, enc_rows(sh.rows) + tail);
    lemma_rt_rows(sh.rows, tail);
}

proof fn lemma_enc_sheet_items_front(l: Seq<SheetView>)
    requires
        l.len() > 0,
    ensures
        enc_sheet_items(l) == enc_sheet(l[0]) + enc_sheet_items(l.skip(1)),
    decreases l.len(),
{
    if l.len() == 1 {
        assert(l.drop_last() =~= Seq::<SheetView>::empty());
        assert(l.skip(1) =~= Seq::<SheetView>::empty());
        assert(enc_sheet_items(l) =~= enc_sheet(l[0]) + enc_sheet_items(l.skip(1)));
    } else {
        lemma_enc_sheet_items_front(l.drop_last());
        assert(l.drop_last()[0] == l[0]);
        assert(l.skip(1).drop_last() =~= l.drop_last().skip(1));
        assert(l.skip(1).last() == l.last());
        assert(enc_sheet_items(l.skip(1)) == enc_sheet_items(l.drop_last().skip(1)) + enc_sheet(
            l.last(),
        ));
        assert(enc_sheet_items(l) =~= enc_sheet(l[0]) + enc_sheet_items(l.skip(1)));
    }
}

proof fn lemma_rt_sheet_items(l: Seq<SheetView>, tail: Seq<char>)
    requires
        forall|k: int| 0 <= k < l.len() ==> sheet_ok(#[trigger] l[k]),
    ensures
        dec_sheet_items(enc_sheet_items(l) + tail, l.len()) == Some((l, tail)),
    decreases l.len(),
{
    if l.len() == 0 {
        assert(enc_sheet_items(l) + tail =~= tail);
        assert(l =~= Seq::<SheetView>::empty());
    } else {
        lemma_enc_sheet_items_front(l);
        assert(enc_sheet_items(l) + tail =~= enc_sheet(l[0]) + (enc_sheet_items(l.skip(1))
            + tail));
        lemma_rt_sheet(l[0], enc_sheet_items(l.skip(1)) + tail);
        assert(forall|k: int| 0 <= k < l.skip(1).len() ==> #[trigger] l.skip(1)[k] == l[k + 1]);
        lemma_rt_sheet_items(l.skip(1), tail);
        assert(seq![l[0]] + l.skip(1) =~= l);
    }
}

proof fn lemma_rt_sheets(l: Seq<SheetView>, tail: Seq<char>)
    requires
        sheets_ok(l),
    ensures
        dec_sheets(enc_sheets(l) + tail) == Some((l, tail)),
{
    assert(enc_sheets(l) + tail =~= enc_num(l.len()) + (enc_sheet_items(l) + tail));
    lemma_rt_num(l.len(), enc_sheet_items(l) + tail);
    lemma_rt_sheet_items(l, tail);
}

proof fn lemma_rt_opt_sheets(o: Option<Seq<SheetView>>, tail: Seq<char>)
    requires
        match o {
            None => true,
            Some(l) => sheets_ok(l),
        },
    ensures
        dec_opt_sheets(enc_opt_sheets(o) + tail) == Some((o, tail)),
{
    match o {
        None => {
            assert(enc_opt_sheets(o) + tail =~= seq!['0'] + tail);
            assert((seq!['0'] + tail)[0] == '0');
            assert((seq!['0'] + tail).skip(1) =~= tail);
        },
        Some(l) => {
            assert(enc_opt_sheets(o) + tail =~= seq!['1'] + (enc_sheets(l) + tail));
            let w = seq!['1'] + (enc_sheets(l) + tail);
            assert(w[0] == '1');
            assert(w.skip(1) =~= enc_sheets(l) + tail);
            lemma_rt_sheets(l, tail);
        },
    }
}

proof fn lemma_rt_opt_str_list(o: Option<Seq<Seq<char>>>, tail: Seq<char>)
    requires
        match o {
            None => true,
            Some(l) => str_list_ok(l),
        },
    ensures
        dec_opt_str_list(enc_opt_str_list(o) + tail) == Some((o, tail)),
{
    match o {
        None => {
            assert(enc_opt_str_list(o) + tail =~= seq!['0'] + tail);
            assert((seq!['0'] + tail)[0] == '0');
            assert((seq!['0'] + tail).skip(1) =~= tail);
        },
        Some(l) => {
            assert(enc_opt_str_list(o) + tail =~= seq!['1'] + (enc_str_list(l) + tail));
            let w = seq!['1'] + (enc_str_list(l) + tail);
            assert(w[0] == '1');
            assert(w.skip(1) =~= enc_str_list(l) + tail);
            lemma_rt_str_list(l, tail);
        },
    }
}

proof fn lemma_rt_meta(m: MetadataView, tail: Seq<char>)
    requires
        meta_ok(m),
    ensures
        dec_meta(enc_meta(m) + tail) == Some((m, tail)),
{
    let t1 = enc_num(m.file_size as nat) + (enc_opt_num(m.page_count) + (enc_opt_num(m.sheet_count)
        + (enc_str(m.created_at) + tail)));
    assert(enc_meta(m) + tail =~= seq![ftype_char(m.file_type)] + t1);
    lemma_rt_ftype(m.file_type, t1);
    lemma_rt_num(
        m.file_size as nat,
        enc_opt_num(m.page_count) + (enc_opt_num(m.sheet_count) + (enc_str(m.created_at) + tail)),
    );
    lemma_rt_opt_num(
        m.page_count,
        enc_opt_num(m.sheet_count) + (enc_str(m.created_at) + tail),
    );
    lemma_rt_opt_num(m.sheet_count, enc_str(m.created_at) + tail);
    lemma_rt_str(m.created_at, tail);
}

#[verifier::rlimit(100)]
#[verifier::spinoff_prover]
proof fn lemma_rt_content(c: ContentView, tail: Seq<char>)
    requires
        content_ok(c),
    ensures
        dec_content(enc_content(c) + tail) == Some((c, tail)),
{
    let t7 = enc_str_list(c.enrichment_notes) + tail;
    let t6 = enc_opt_str(c.html) + t7;
    let t5 = enc_opt_str_list(c.images) + t6;
    let t4 = enc_opt_str(c.original_file) + t5;
    let t3 = enc_opt_str(c.thumbnail) + t4;
    let t2 = enc_meta(c.metadata) + t3;
    let t1 = enc_opt_sheets(c.sheets) + t2;
    assert(enc_content(c) + tail =~= enc_opt_str(c.text) + t1);
    lemma_rt_opt_str(c.text, t1);
    lemma_rt_opt_sheets(c.sheets, t2);
    lemma_rt_meta(c.metadata, t3);
    lemma_rt_opt_str(c.thumbnail, t4);
    lemma_rt_opt_str(c.original_file, t5);
    lemma_rt_opt_str_list(c.images, t6);
    lemma_rt_opt_str(c.html, t7);
    lemma_rt_str_list(c.enrichment_notes, tail);
}

#[verifier::rlimit(100)]
#[verifier::spinoff_prover]
proof fn lemma_rt_result(r: JobResultView, tail: Seq<char>)
    requires
        result_ok(r),
    ensures
        dec_result(enc_result(r) + tail) == Some((r, tail)),
{
    let t4 = enc_str(r.metadata.source_path) + tail;
    let t3 = enc_str(r.metadata.processed_at) + t4;
    let t2 = enc_content(r.content) + t3;
    let t1 = enc_str(r.file_type) + t2;
    assert(enc_result(r) + tail =~= enc_str(r.filename) + t1);
    lemma_rt_str(r.filename, t1);
    lemma_rt_str(r.file_type, t2);
    lemma_rt_content(r.content, t3);
    lemma_rt_str(r.metadata.processed_at, t4);
    lemma_rt_str(r.metadata.source_path, tail);
    assert(ResultInfoView {
        processed_at: r.metadata.processed_at,
        source_path: r.metadata.source_path,
    } == r.metadata);
}

proof fn lemma_rt_opt_result(o: Option<JobResultView>, tail: Seq<char>)
    requires
        match o {
            None => true,
            Some(r) => result_ok(r),
        },
    ensures
        dec_opt_result(enc_opt_result(o) + tail) == Some((o, tail)),
{
    match o {
        None => {
            assert(enc_opt_result(o) + tail =~= seq!['0'] + tail);
            assert((seq!['0'] + tail)[0] == '0');
            assert((seq!['0'] + tail).skip(1) =~= tail);
        },
        Some(r) => {
            assert(enc_opt_result(o) + tail =~= seq!['1'] + (enc_result(r) + tail));
            let w = seq!['1'] + (enc_result(r) + tail);
            assert(w[0] == '1');
            assert(w.skip(1) =~= enc_result(r) + tail);
            lemma_rt_result(r, tail);
        },
    }
}

#[verifier::rlimit(80)]
proof fn lemma_rt_job(j: JobView, tail: Seq<char>)
    requires
        job_bounded(j),
        j.progress <= 100,
    ensures
        dec_job(enc_job(j) + tail) == Some((j, tail)),
{
    let t4 = enc_opt_result(j.result) + tail;
    let t3 = enc_opt_str(j.message) + t4;
    let t2 = enc_num(j.progress as nat) + t3;
    let t1 = seq![status_char(j.status)] + t2;
    assert(enc_job(j) + tail =~= enc_num(j.id as nat) + t1);
    lemma_rt_num(j.id as nat, t1);
    lemma_rt_status(j.status, t2);
    lemma_rt_num(j.progress as nat, t3);
    lemma_rt_opt_str(j.message, t4);
    lemma_rt_opt_result(j.result, tail);
}

/// The round trip of the record codec: a well-formed, bounded record
/// decodes from its own encoding unchanged.
pub proof fn lemma_encode_decode(j: JobView)
    requires
        job_wf(j),
        job_bounded(j),
    ensures
        spec_decode(spec_encode(j)) == Some(j),
{
    lemma_rt_job(j, Seq::empty());
    assert(enc_job(j) + Seq::<char>::empty() =~= enc_job(j));
}

// ------------------------------------------------------------------
// Executable encoder
// ------------------------------------------------------------------
fn push_num(out: &mut String, n: u128)
    ensures
        final(out)@ == old(out)@ + enc_num(n as nat),
{
    push_decimal(out, n);
    push_char(out, ';');
    assert(final(out)@ =~= old(out)@ + enc_num(n as nat));
}

fn push_len_str(out: &mut String, s: &str)
    ensures
        final(out)@ == old(out)@ + enc_str(s@),
        str_ok(s@),
{
    let n = s.unicode_len();
    push_num(out, n as u128);
    out.append(s);
    assert(final(out)@ =~= old(out)@ + enc_str(s@));
}

fn push_opt_str(out: &mut String, o: &Option<String>)
    ensures
        final(out)@ == old(out)@ + enc_opt_str(o.deep_view()),
        opt_str_ok(o.deep_view()),
{
    match o {
        None => {
            push_char(out, '0');
            assert(final(out)@ =~= old(out)@ + enc_opt_str(o.deep_view()));
        },
        Some(s) => {
            push_char(out, '1');
            push_len_str(out, s.as_str());
            assert(final(out)@ =~= old(out)@ + enc_opt_str(o.deep_view()));
        },
    }
}

fn push_opt_num(out: &mut String, o: &Option<u32>)
    ensures
        final(out)@ == old(out)@ + enc_opt_num(*o),
{
    match o {
        None => {
            push_char(out, '0');
            assert(final(out)@ =~= old(out)@ + enc_opt_num(*o));
        },
        Some(n) => {
            push_char(out, '1');
            push_num(out, *n as u128);
            assert(final(out)@ =~= old(out)@ + enc_opt_num(*o));
        },
    }
}

fn push_status(out: &mut String, st: JobStatus)
    ensures
        final(out)@ == old(out)@ + seq![status_char(st)],
{
    let c: char = match st {
        JobStatus::Queued => 'Q',
        JobStatus::Processing => 'P',
        JobStatus::Completed => 'C',
        JobStatus::Failed => 'F',
    };
    push_char(out, c);
    assert(final(out)@ =~= old(out)@ + seq![status_char(st)]);
}

fn push_ftype(out: &mut String, t: FileType)
    ensures
        final(out)@ == old(out)@ + seq![ftype_char(t)],
{
    let c: char = match t {
        FileType::Pdf => 'p',
        FileType::Docx => 'd',
        FileType::Xlsx => 'x',
        FileType::Txt => 't',
        FileType::Md => 'm',
        FileType::Unknown => 'u',
    };
    push_char(out, c);
    assert(final(out)@ =~= old(out)@ + seq![ftype_char(t)]);
}

fn push_str_list(out: &mut String, l: &Vec<String>)
    ensures
        final(out)@ == old(out)@ + enc_str_list(l.deep_view()),
        str_list_ok(l.deep_view()),
{
    let ghost dv = l.deep_view();
    let n = l.len();
    push_num(out, n as u128);
    let ghost base = out@;
    let mut k: usize = 0;
    while k < n
        invariant
            0 <= k <= n,
            n == l.len(),
            dv == l.deep_view(),
            dv.len() == n,
            out@ == base + enc_str_items(dv.take(k as int)),
            forall|m: int| 0 <= m < k ==> str_ok(#[trigger] dv[m]),
        decreases n - k,
    {
        push_len_str(out, l[k].as_str());
        proof {
            assert(l[k as int]@ == dv[k as int]);
            assert(dv.take(k + 1).drop_last() =~= dv.take(k as int));
            assert(dv.take(k + 1).last() == dv[k as int]);
            assert(out@ =~= base + enc_str_items(dv.take(k + 1)));
        }
        k = k + 1;
    }
    assert(dv.take(n as int) =~= dv);
    assert(final(out)@ =~= old(out)@ + enc_str_list(dv));
}

fn push_rows(out: &mut String, rows: &Vec<Vec<String>>)
    ensures
        final(out)@ == old(out)@ + enc_rows(rows.deep_view()),
        rows_ok(rows.deep_view()),
{
    let ghost dv = rows.deep_view();
    let n = rows.len();
    push_num(out, n as u128);
    let ghost base = out@;
    let mut k: usize = 0;
    while k < n
        invariant
            0 <= k <= n,
            n == rows.len(),
            dv == rows.deep_view(),
            dv.len() == n,
            out@ == base + enc_row_items(dv.take(k as int)),
            forall|m: int| 0 <= m < k ==> str_list_ok(#[trigger] dv[m]),
        decreases n - k,
    {
        push_str_list(out, &rows[k]);
        proof {
            assert(rows[k as int].deep_view() == dv[k as int]);
            assert(dv.take(k + 1).drop_last() =~= dv.take(k as int));
            assert(dv.take(k + 1).last() == dv[k as int]);
            assert(out@ =~= base + enc_row_items(dv.take(k + 1)));
        }
        k = k + 1;
    }
    assert(dv.take(n as int) =~= dv);
    assert(final(out)@ =~= old(out)@ + enc_rows(dv));
}

fn push_sheet(out: &mut String, sh: &SheetData)
    ensures
        final(out)@ == old(out)@ + enc_sheet(sh@),
        sheet_ok(sh@),
{
    push_len_str(out, sh.name.as_str());
    push_rows(out, &sh.rows);
    assert(final(out)@ =~= old(out)@ + enc_sheet(sh@));
}

fn push_sheets(out: &mut String, l: &Vec<SheetData>)
    ensures
        final(out)@ == old(out)@ + enc_sheets(l.deep_view()),
        sheets_ok(l.deep_view()),
{
    let ghost dv = l.deep_view();
    let n = l.len();
    push_num(out, n as u128);
    let ghost base = out@;
    let mut k: usize = 0;
    while k < n
        invariant
            0 <= k <= n,
            n == l.len(),
            dv == l.deep_view(),
            dv.len() == n,
            out@ == base + enc_sheet_items(dv.take(k as int)),
            forall|m: int| 0 <= m < k ==> sheet_ok(#[trigger] dv[m]),
        decreases n - k,
    {
        push_sheet(out, &l[k]);
        proof {
            assert(l[k as int].deep_view() == dv[k as int]);
            assert(dv.take(k + 1).drop_last() =~= dv.take(k as int));
            assert(dv.take(k + 1).last() == dv[k as int]);
            assert(out@ =~= base + enc_sheet_items(dv.take(k + 1)));
        }
        k = k + 1;
    }
    assert(dv.take(n as int) =~= dv);
    assert(final(out)@ =~= old(out)@ + enc_sheets(dv));
}

fn push_opt_sheets(out: &mut String, o: &Option<Vec<SheetData>>)
    ensures
        final(out)@ == old(out)@ + enc_opt_sheets(o.deep_view()),
        match o.deep_view() {
            None => true,
            Some(l) => sheets_ok(l),
        },
{
    match o {
        None => {
            push_char(out, '0');
            assert(final(out)@ =~= old(out)@ + enc_opt_sheets(o.deep_view()));
        },
        Some(l) => {
            push_char(out, '1');
            push_sheets(out, l);
            assert(final(out)@ =~= old(out)@ + enc_opt_sheets(o.deep_view()));
        },
    }
}

fn push_opt_str_list(out: &mut String, o: &Option<Vec<String>>)
    ensures
        final(out)@ == old(out)@ + enc_opt_str_list(o.deep_view()),
        match o.deep_view() {
            None => true,
            Some(l) => str_list_ok(l),
        },
{
    match o {
        None => {
            push_char(out, '0');
            assert(final(out)@ =~= old(out)@ + enc_opt_str_list(o.deep_view()));
        },
        Some(l) => {
            push_char(out, '1');
            push_str_list(out, l);
            assert(final(out)@ =~= old(out)@ + enc_opt_str_list(o.deep_view()));
        },
    }
}

fn push_meta(out: &mut String, m: &DocumentMetadata)
    ensures
        final(out)@ == old(out)@ + enc_meta(m@),
        meta_ok(m@),
{
    push_ftype(out, m.file_type);
    push_num(out, m.file_size as u128);
    push_opt_num(out, &m.page_count);
    push_opt_num(out, &m.sheet_count);
    push_len_str(out, m.created_at.as_str());
    assert(final(out)@ =~= old(out)@ + enc_meta(m@));
}

#[verifier::rlimit(100)]
#[verifier::spinoff_prover]
fn push_content(out: &mut String, c: &ParsedContent)
    ensures
        final(out)@ == old(out)@ + enc_content(c@),
        content_ok(c@),
{
    push_opt_str(out, &c.text);
    push_opt_sheets(out, &c.sheets);
    push_meta(out, &c.metadata);
    push_opt_str(out, &c.thumbnail);
    push_opt_str(out, &c.original_file);
    push_opt_str_list(out, &c.images);
    push_opt_str(out, &c.html);
    push_str_list(out, &c.enrichment_notes);
    assert(final(out)@ =~= old(out)@ + enc_content(c@));
}

fn push_result(out: &mut String, r: &JobResult)
    ensures
        final(out)@ == old(out)@ + enc_result(r@),
        result_ok(r@),
{
    push_len_str(out, r.filename.as_str());
    push_len_str(out, r.file_type.as_str());
    push_content(out, &r.content);
    push_len_str(out, r.metadata.processed_at.as_str());
    push_len_str(out, r.metadata.source_path.as_str());
    assert(final(out)@ =~= old(out)@ + enc_result(r@));
}

fn push_opt_result(out: &mut String, o: &Option<JobResult>)
    ensures
        final(out)@ == old(out)@ + enc_opt_result(
            match o {
                Some(ref r) => Some(r@),
                None => None,
            },
        ),
        match o {
            Some(ref r) => result_ok(r@),
            None => true,
        },
{
    match o {
        None => {
            push_char(out, '0');
            assert(final(out)@ =~= old(out)@ + seq!['0']);
        },
        Some(r) => {
            push_char(out, '1');
            push_result(out, r);
            assert(final(out)@ =~= old(out)@ + (seq!['1'] + enc_result(r@)));
        },
    }
}

/// Encodes a job record as the persisted text, as `spec_encode`
/// describes; every encoded component is bounded.
pub fn encode_record(job: &Job) -> (r: String)
    ensures
        r@ == spec_encode(job@),
        job_bounded(job@),
{
    let mut out = String::new();
    push_num(&mut out, job.id);
    push_status(&mut out, job.status);
    push_num(&mut out, job.progress as u128);
    push_opt_str(&mut out, &job.message);
    push_opt_result(&mut out, &job.result);
    assert(out@ =~= spec_encode(job@));
    out
}

// ------------------------------------------------------------------
// Executable decoder
// ------------------------------------------------------------------
/// Copies a character slice into a fresh string.
fn chars_to_string(cs: &[char]) -> (r: String)
    ensures
        r@ == cs@,
{
    let n = cs.len();
    let mut out = String::new();
    let mut i: usize = 0;
    while i < n
        invariant
            0 <= i <= n,
            n == cs@.len(),
            out@ =~= cs@.take(i as int),
        decreases n - i,
    {
        push_char(&mut out, cs[i]);
        assert(out@ =~= cs@.take(i + 1));
        i = i + 1;
    }
    assert(cs@.take(n as int) =~= cs@);
    out
}

/// Copies a string's characters into a vector.
fn str_to_chars(s: &str) -> (r: Vec<char>)
    ensures
        r@ == s@,
{
    let n = s.unicode_len();
    let mut v: Vec<char> = Vec::new();
    let mut i: usize = 0;
    while i < n
        invariant
            0 <= i <= n,
            n == s@.len(),
            v@ =~= s@.take(i as int),
        decreases n - i,
    {
        v.push(s.get_char(i));
        assert(v@ =~= s@.take(i + 1));
        i = i + 1;
    }
    assert(s@.take(n as int) =~= s@);
    v
}

fn dec_num_exec<'a>(s: &'a [char]) -> (r: Option<(u128, &'a [char])>)
    ensures
        match r {
            None => dec_num(s@) is None,
            Some((n, rest)) => dec_num(s@) == Some((n as nat, rest@)),
        },
{
    let len = s.len();
    if len == 0 {
        return None;
    }
    let c0 = s[0];
    let c0v = c0 as u32;
    if c0v < 48 || c0v > 57 {
        return None;
    }
    let mut acc: u128 = 0;
    let mut i: usize = 0;
    assert(s@.skip(0) =~= s@);
    while i < len
        invariant
            0 <= i <= len,
            len == s@.len(),
            len > 0,
            is_digit(s@[0]),
            dec_num_rec(s@, 0) == dec_num_rec(s@.skip(i as int), acc as nat),
        decreases len - i,
    {
        let c = s[i];
        assert(s@.skip(i as int)[0] == s@[i as int]);
        if c == ';' {
            let rest = slice_subrange(s, i + 1, len);
            assert(s@.skip(i as int).skip(1) =~= s@.skip(i + 1));
            return Some((acc, rest));
        }
        let cv = c as u32;
        if cv < 48 || cv > 57 {
            assert(dec_num_rec(s@.skip(i as int), acc as nat) is None);
            return None;
        }
        let d = (cv - 48) as u128;
        assert(digit_val(s@[i as int]) == d as nat);
        proof {
            vstd::arithmetic::div_mod::lemma_fundamental_div_mod(u128::MAX as int, 10);
            vstd::arithmetic::div_mod::lemma_mod_bound(u128::MAX as int, 10);
        }
        if acc > u128::MAX / 10 {
            assert(acc * 10 + d > u128::MAX);
            return None;
        }
        assert(acc * 10 <= (u128::MAX / 10) * 10);
        assert((u128::MAX / 10) * 10 <= u128::MAX);
        let t = acc * 10;
        if d > u128::MAX - t {
            assert(acc * 10 + digit_val(s@[i as int]) > u128::MAX);
            return None;
        }
        assert(s@.skip(i as int).skip(1) =~= s@.skip(i + 1));
        acc = t + d;
        i = i + 1;
    }
    assert(s@.skip(len as int).len() == 0);
    None
}

fn dec_str_exec<'a>(s: &'a [char]) -> (r: Option<(String, &'a [char])>)
    ensures
        match r {
            None => dec_str(s@) is None,
            Some((x, rest)) => dec_str(s@) == Some((x@, rest@)),
        },
{
    match dec_num_exec(s) {
        None => None,
        Some((n, r1)) => {
            if n > r1.len() as u128 {
                None
            } else {
                let ln = n as usize;
                let piece = chars_to_string(slice_subrange(r1, 0, ln));
                let rest = slice_subrange(r1, ln, r1.len());
                assert(piece@ =~= r1@.take(n as int));
                assert(rest@ =~= r1@.skip(n as int));
                Some((piece, rest))
            }
        },
    }
}

fn dec_opt_str_exec<'a>(s: &'a [char]) -> (r: Option<(Option<String>, &'a [char])>)
    ensures
        match r {
            None => dec_opt_str(s@) is None,
            Some((x, rest)) => dec_opt_str(s@) == Some((x.deep_view(), rest@)),
        },
{
    let len = s.len();
    if len == 0 {
        return None;
    }
    let c = s[0];
    if c == '0' {
        let rest = slice_subrange(s, 1, len);
        return Some((None, rest));
    }
    if c == '1' {
        let tail = slice_subrange(s, 1, len);
        match dec_str_exec(tail) {
            None => None,
            Some((x, rest)) => Some((Some(x), rest)),
        }
    } else {
        None
    }
}

fn dec_opt_num_exec<'a>(s: &'a [char]) -> (r: Option<(Option<u32>, &'a [char])>)
    ensures
        match r {
            None => dec_opt_num(s@) is None,
            Some((x, rest)) => dec_opt_num(s@) == Some((x, rest@)),
        },
{
    let len = s.len();
    if len == 0 {
        return None;
    }
    let c = s[0];
    if c == '0' {
        let rest = slice_subrange(s, 1, len);
        return Some((None, rest));
    }
    if c == '1' {
        let tail = slice_subrange(s, 1, len);
        match dec_num_exec(tail) {
            None => None,
            Some((n, rest)) => {
                if n > u32::MAX as u128 {
                    None
                } else {
                    Some((Some(n as u32), rest))
                }
            },
        }
    } else {
        None
    }
}

fn dec_status_exec<'a>(s: &'a [char]) -> (r: Option<(JobStatus, &'a [char])>)
    ensures
        match r {
            None => dec_status(s@) is None,
            Some((x, rest)) => dec_status(s@) == Some((x, rest@)),
        },
{
    let len = s.len();
    if len == 0 {
        return None;
    }
    let c = s[0];
    let rest = slice_subrange(s, 1, len);
    if c == 'Q' {
        Some((JobStatus::Queued, rest))
    } else if c == 'P' {
        Some((JobStatus::Processing, rest))
    } else if c == 'C' {
        Some((JobStatus::Completed, rest))
    } else if c == 'F' {
        Some((JobStatus::Failed, rest))
    } else {
        None
    }
}

fn dec_ftype_exec<'a>(s: &'a [char]) -> (r: Option<(FileType, &'a [char])>)
    ensures
        match r {
            None => dec_ftype(s@) is None,
            Some((x, rest)) => dec_ftype(s@) == Some((x, rest@)),
        },
{
    let len = s.len();
    if len == 0 {
        return None;
    }
    let c = s[0];
    let rest = slice_subrange(s, 1, len);
    if c == 'p' {
        Some((FileType::Pdf, rest))
    } else if c == 'd' {
        Some((FileType::Docx, rest))
    } else if c == 'x' {
        Some((FileType::Xlsx, rest))
    } else if c == 't' {
        Some((FileType::Txt, rest))
    } else if c == 'm' {
        Some((FileType::Md, rest))
    } else if c == 'u' {
        Some((FileType::Unknown, rest))
    } else {
        None
    }
}

fn dec_str_items_exec<'a>(s: &'a [char], n: u128) -> (r: Option<(Vec<String>, &'a [char])>)
    ensures
        match r {
            None => dec_str_items(s@, n as nat) is None,
            Some((items, rest)) => dec_str_items(s@, n as nat) == Some(
                (items.deep_view(), rest@),
            ),
        },
    decreases n,
{
    if n == 0 {
        let items: Vec<String> = Vec::new();
        assert(items.deep_view() =~= Seq::<Seq<char>>::empty());
        return Some((items, s));
    }
    match dec_str_exec(s) {
        None => None,
        Some((x, r1)) => {
            match dec_str_items_exec(r1, n - 1) {
                None => None,
                Some((tail_items, rest)) => {
                    let ghost xv = x@;
                    let ghost tv = tail_items.deep_view();
                    let mut items = tail_items;
                    items.insert(0, x);
                    assert(items.deep_view() =~= seq![xv] + tv);
                    Some((items, rest))
                },
            }
        },
    }
}

fn dec_str_list_exec<'a>(s: &'a [char]) -> (r: Option<(Vec<String>, &'a [char])>)
    ensures
        match r {
            None => dec_str_list(s@) is None,
            Some((items, rest)) => dec_str_list(s@) == Some((items.deep_view(), rest@)),
        },
{
    match dec_num_exec(s) {
        None => None,
        Some((n, r1)) => dec_str_items_exec(r1, n),
    }
}

fn dec_row_items_exec<'a>(s: &'a [char], n: u128) -> (r: Option<(Vec<Vec<String>>, &'a [char])>)
    ensures
        match r {
            None => dec_row_items(s@, n as nat) is None,
            Some((items, rest)) => dec_row_items(s@, n as nat) == Some(
                (items.deep_view(), rest@),
            ),
        },
    decreases n,
{
    if n == 0 {
        let items: Vec<Vec<String>> = Vec::new();
        assert(items.deep_view() =~= Seq::<Seq<Seq<char>>>::empty());
        return Some((items, s));
    }
    match dec_str_list_exec(s) {
        None => None,
        Some((x, r1)) => {
            match dec_row_items_exec(r1, n - 1) {
                None => None,
                Some((tail_items, rest)) => {
                    let ghost xv = x.deep_view();
                    let ghost tv = tail_items.deep_view();
                    let mut items = tail_items;
                    items.insert(0, x);
                    assert(items.deep_view() =~= seq![xv] + tv);
                    Some((items, rest))
                },
            }
        },
    }
}

fn dec_rows_exec<'a>(s: &'a [char]) -> (r: Option<(Vec<Vec<String>>, &'a [char])>)
    ensures
        match r {
            None => dec_rows(s@) is None,
            Some((items, rest)) => dec_rows(s@) == Some((items.deep_view(), rest@)),
        },
{
    match dec_num_exec(s) {
        None => None,
        Some((n, r1)) => dec_row_items_exec(r1, n),
    }
}

fn dec_sheet_exec<'a>(s: &'a [char]) -> (r: Option<(SheetData, &'a [char])>)
    ensures
        match r {
            None => dec_sheet(s@) is None,
            Some((sh, rest)) => dec_sheet(s@) == Some((sh@, rest@)),
        },
{
    match dec_str_exec(s) {
        None => None,
        Some((name, r1)) => {
            match dec_rows_exec(r1) {
                None => None,
                Some((rows, rest)) => Some((SheetData { name, rows }, rest)),
            }
        },
    }
}

fn dec_sheet_items_exec<'a>(s: &'a [char], n: u128) -> (r: Option<(Vec<SheetData>, &'a [char])>)
    ensures
        match r {
            None => dec_sheet_items(s@, n as nat) is None,
            Some((items, rest)) => dec_sheet_items(s@, n as nat) == Some(
                (items.deep_view(), rest@),
            ),
        },
    decreases n,
{
    if n == 0 {
        let items: Vec<SheetData> = Vec::new();
        assert(items.deep_view() =~= Seq::<SheetView>::empty());
        return Some((items, s));
    }
    match dec_sheet_exec(s) {
        None => None,
        Some((x, r1)) => {
            match dec_sheet_items_exec(r1, n - 1) {
                None => None,
                Some((tail_items, rest)) => {
                    let ghost xv = x@;
                    let ghost tv = tail_items.deep_view();
                    let mut items = tail_items;
                    items.insert(0, x);
                    assert(items.deep_view() =~= seq![xv] + tv);
                    Some((items, rest))
                },
            }
        },
    }
}

fn dec_sheets_exec<'a>(s: &'a [char]) -> (r: Option<(Vec<SheetData>, &'a [char])>)
    ensures
        match r {
            None => dec_sheets(s@) is None,
            Some((items, rest)) => dec_sheets(s@) == Some((items.deep_view(), rest@)),
        },
{
    match dec_num_exec(s) {
        None => None,
        Some((n, r1)) => dec_sheet_items_exec(r1, n),
    }
}

fn dec_opt_sheets_exec<'a>(s: &'a [char]) -> (r: Option<(Option<Vec<SheetData>>, &'a [char])>)
    ensures
        match r {
            None => dec_opt_sheets(s@) is None,
            Some((x, rest)) => dec_opt_sheets(s@) == Some((x.deep_view(), rest@)),
        },
{
    let len = s.len();
    if len == 0 {
        return None;
    }
    let c = s[0];
    if c == '0' {
        let rest = slice_subrange(s, 1, len);
        return Some((None, rest));
    }
    if c == '1' {
        let tail = slice_subrange(s, 1, len);
        match dec_sheets_exec(tail) {
            None => None,
            Some((x, rest)) => Some((Some(x), rest)),
        }
    } else {
        None
    }
}

fn dec_opt_str_list_exec<'a>(s: &'a [char]) -> (r: Option<(Option<Vec<String>>, &'a [char])>)
    ensures
        match r {
            None => dec_opt_str_list(s@) is None,
            Some((x, rest)) => dec_opt_str_list(s@) == Some((x.deep_view(), rest@)),
        },
{
    let len = s.len();
    if len == 0 {
        return None;
    }
    let c = s[0];
    if c == '0' {
        let rest = slice_subrange(s, 1, len);
        return Some((None, rest));
    }
    if c == '1' {
        let tail = slice_subrange(s, 1, len);
        match dec_str_list_exec(tail) {
            None => None,
            Some((x, rest)) => Some((Some(x), rest)),
        }
    } else {
        None
    }
}

fn dec_meta_exec<'a>(s: &'a [char]) -> (r: Option<(DocumentMetadata, &'a [char])>)
    ensures
        match r {
            None => dec_meta(s@) is None,
            Some((m, rest)) => dec_meta(s@) == Some((m@, rest@)),
        },
{
    match dec_ftype_exec(s) {
        None => None,
        Some((file_type, r1)) => {
            match dec_num_exec(r1) {
                None => None,
                Some((size, r2)) => {
                    if size > u64::MAX as u128 {
                        None
                    } else {
                        match dec_opt_num_exec(r2) {
                            None => None,
                            Some((page_count, r3)) => {
                                match dec_opt_num_exec(r3) {
                                    None => None,
                                    Some((sheet_count, r4)) => {
                                        match dec_str_exec(r4) {
                                            None => None,
                                            Some((created_at, rest)) => Some(
                                                (
                                                    DocumentMetadata {
                                                        file_type,
                                                        file_size: size as u64,
                                                        page_count,
                                                        sheet_count,
                                                        created_at,
                                                    },
                                                    rest,
                                                ),
                                            ),
                                        }
                                    },
                                }
                            },
                        }
                    }
                },
            }
        },
    }
}

#[verifier::rlimit(100)]
#[verifier::spinoff_prover]
fn dec_content_exec<'a>(s: &'a [char]) -> (r: Option<(ParsedContent, &'a [char])>)
    ensures
        match r {
            None => dec_content(s@) is None,
            Some((c, rest)) => dec_content(s@) == Some((c@, rest@)),
        },
{
    match dec_opt_str_exec(s) {
        None => None,
        Some((text, r1)) => match dec_opt_sheets_exec(r1) {
            None => None,
            Some((sheets, r2)) => match dec_meta_exec(r2) {
                None => None,
                Some((metadata, r3)) => match dec_opt_str_exec(r3) {
                    None => None,
                    Some((thumbnail, r4)) => match dec_opt_str_exec(r4) {
                        None => None,
                        Some((original_file, r5)) => match dec_opt_str_list_exec(r5) {
                            None => None,
                            Some((images, r6)) => match dec_opt_str_exec(r6) {
                                None => None,
                                Some((html, r7)) => match dec_str_list_exec(r7) {
                                    None => None,
                                    Some((enrichment_notes, rest)) => Some(
                                        (
                                            ParsedContent {
                                                text,
                                                sheets,
                                                metadata,
                                                thumbnail,
                                                original_file,
                                                images,
                                                html,
                                                enrichment_notes,
                                            },
                                            rest,
                                        ),
                                    ),
                                },
                            },
                        },
                    },
                },
            },
        },
    }
}

#[verifier::rlimit(100)]
#[verifier::spinoff_prover]
fn dec_result_exec<'a>(s: &'a [char]) -> (r: Option<(JobResult, &'a [char])>)
    ensures
        match r {
            None => dec_result(s@) is None,
            Some((x, rest)) => dec_result(s@) == Some((x@, rest@)),
        },
{
    match dec_str_exec(s) {
        None => None,
        Some((filename, r1)) => match dec_str_exec(r1) {
            None => None,
            Some((file_type, r2)) => match dec_content_exec(r2) {
                None => None,
                Some((content, r3)) => match dec_str_exec(r3) {
                    None => None,
                    Some((processed_at, r4)) => match dec_str_exec(r4) {
                        None => None,
                        Some((source_path, rest)) => Some(
                            (
                                JobResult {
                                    filename,
                                    file_type,
                                    content,
                                    metadata: ResultInfo { processed_at, source_path },
                                },
                                rest,
                            ),
                        ),
                    },
                },
            },
        },
    }
}

fn dec_opt_result_exec<'a>(s: &'a [char]) -> (r: Option<(Option<JobResult>, &'a [char])>)
    ensures
        match r {
            None => dec_opt_result(s@) is None,
            Some((x, rest)) => dec_opt_result(s@) == Some(
                (
                    match x {
                        Some(ref jr) => Some(jr@),
                        None => None,
                    },
                    rest@,
                ),
            ),
        },
{
    let len = s.len();
    if len == 0 {
        return None;
    }
    let c = s[0];
    if c == '0' {
        let rest = slice_subrange(s, 1, len);
        return Some((None, rest));
    }
    if c == '1' {
        let tail = slice_subrange(s, 1, len);
        match dec_result_exec(tail) {
            None => None,
            Some((x, rest)) => Some((Some(x), rest)),
        }
    } else {
        None
    }
}

#[verifier::rlimit(100)]
#[verifier::spinoff_prover]
fn dec_job_exec<'a>(s: &'a [char]) -> (r: Option<(Job, &'a [char])>)
    ensures
        match r {
            None => dec_job(s@) is None,
            Some((j, rest)) => dec_job(s@) == Some((j@, rest@)),
        },
{
    match dec_num_exec(s) {
        None => None,
        Some((id, r1)) => match dec_status_exec(r1) {
            None => None,
            Some((status, r2)) => match dec_num_exec(r2) {
                None => None,
                Some((progress, r3)) => {
                    if progress > 100 {
                        None
                    } else {
                        match dec_opt_str_exec(r3) {
                            None => None,
                            Some((message, r4)) => match dec_opt_result_exec(r4) {
                                None => None,
                                Some((result, rest)) => Some(
                                    (
                                        Job { id, status, progress: progress as u8, message, result },
                                        rest,
                                    ),
                                ),
                            },
                        }
                    }
                },
            },
        },
    }
}

/// Decodes a stored text into the job record it denotes, as
/// `spec_decode` describes: the whole text must be one record and the
/// record invariant must hold, else decoding reports nothing.
pub fn decode_record(s: &str) -> (r: Option<Job>)
    ensures
        match r {
            None => spec_decode(s@) is None,
            Some(job) => spec_decode(s@) == Some(job@),
        },
{
    let chars = str_to_chars(s);
    match dec_job_exec(chars.as_slice()) {
        None => None,
        Some((job, rest)) => {
            if rest.len() != 0 {
                return None;
            }
            let completed = match job.status {
                JobStatus::Completed => true,
                _ => false,
            };
            if job.result.is_some() != completed {
                return None;
            }
            if job.progress > 100 {
                return None;
            }
            Some(job)
        },
    }
}

} // verus!
