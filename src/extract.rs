//! Per-format text extraction, on the bytes of a file: the Word XML scan,
//! the scanned-PDF decision and page count, the spreadsheet rendering and
//! the image probe. Reading files from disk is left to the caller.
use vstd::prelude::*;
use crate::text::{
    chars_of, has_prefix, is_text, is_white, opt_text, push_all, push_str, starts_with,
    string_of, trim_chars, trimmed, white_space,
};

verus! {

// ---------------------------------------------------------------------------
// Word

/// The state of the scan over `word/document.xml`.
pub ghost struct XmlScan {
    pub in_tag: bool,
    pub tag: Seq<char>,
    pub collecting: bool,
    pub out: Seq<char>,
}

/// One character of the scan: `<` opens a tag; `>` closes it, where a
/// closing paragraph tag (`/w:p...`) adds a line break, `w:t` (with or
/// without attributes) starts collecting text and `/w:t` stops; characters
/// inside a tag make up its name; characters outside are collected while
/// collecting is on.
pub open spec fn xml_step(st: XmlScan, c: char) -> XmlScan {
    if c == '<' {
        XmlScan { in_tag: true, tag: Seq::empty(), ..st }
    } else if c == '>' && st.in_tag {
        let out = if starts_with(st.tag, "/w:p"@) { st.out.push('\n') } else { st.out };
        let opens = st.tag == "w:t"@ || starts_with(st.tag, "w:t "@);
        let collecting = if st.tag == "/w:t"@ { false } else if opens { true } else { st.collecting };
        XmlScan { in_tag: false, tag: Seq::empty(), collecting, out }
    } else if st.in_tag {
        XmlScan { tag: st.tag.push(c), ..st }
    } else if st.collecting {
        XmlScan { out: st.out.push(c), ..st }
    } else {
        st
    }
}

/// The scan state after the characters of `s`.
pub open spec fn xml_scan(s: Seq<char>) -> XmlScan
    decreases s.len(),
{
    if s.len() == 0 {
        XmlScan { in_tag: false, tag: Seq::empty(), collecting: false, out: Seq::empty() }
    } else {
        xml_step(xml_scan(s.drop_last()), s.last())
    }
}

/// The state of the blank-line collapse: the current line, the output, and
/// whether the last line written was blank.
pub ghost struct Collapse {
    pub line: Seq<char>,
    pub out: Seq<char>,
    pub prev_blank: bool,
}

/// Write one line: trimmed and followed by a break; a blank line only where
/// the previous line was not blank.
pub open spec fn emit_line(st: Collapse) -> Collapse {
    let t = trimmed(st.line);
    if t.len() == 0 {
        Collapse {
            line: Seq::empty(),
            out: if st.prev_blank { st.out } else { st.out.push('\n') },
            prev_blank: true,
        }
    } else {
        Collapse { line: Seq::empty(), out: st.out + t.push('\n'), prev_blank: false }
    }
}

pub open spec fn collapse_step(st: Collapse, c: char) -> Collapse {
    if c == '\n' {
        emit_line(st)
    } else {
        Collapse { line: st.line.push(c), ..st }
    }
}

pub open spec fn collapse_scan(s: Seq<char>) -> Collapse
    decreases s.len(),
{
    if s.len() == 0 {
        Collapse { line: Seq::empty(), out: Seq::empty(), prev_blank: false }
    } else {
        collapse_step(collapse_scan(s.drop_last()), s.last())
    }
}

/// The lines of `s` (split at line breaks, a last empty piece dropped), each
/// trimmed and followed by a break, with each run of blank lines written as
/// one break.
pub open spec fn collapse_blank_lines(s: Seq<char>) -> Seq<char> {
    let st = collapse_scan(s);
    if st.line.len() > 0 {
        emit_line(st).out
    } else {
        st.out
    }
}

/// The text of a Word document's XML.
pub open spec fn xml_text_of(xml: Seq<char>) -> Seq<char> {
    collapse_blank_lines(xml_scan(xml).out)
}

fn emit_line_exec(line: &Vec<char>, out: &mut Vec<char>, prev_blank: &mut bool)
    ensures
        ({
            let st = emit_line(Collapse { line: line@, out: old(out)@, prev_blank: *old(prev_blank) });
            final(out)@ == st.out && *final(prev_blank) == st.prev_blank
        }),
{
    let t = trim_chars(line);
    if t.len() == 0 {
        if !*prev_blank {
            out.push('\n');
        }
        *prev_blank = true;
    } else {
        push_all(out, &t);
        out.push('\n');
        *prev_blank = false;
        assert(out@ =~= old(out)@ + trimmed(line@).push('\n'));
    }
}

fn collapse_exec(s: &Vec<char>) -> (r: Vec<char>)
    ensures
        r@ == collapse_blank_lines(s@),
{
    let mut line: Vec<char> = Vec::new();
    let mut out: Vec<char> = Vec::new();
    let mut prev_blank = false;
    let mut i: usize = 0;
    while i < s.len()
        invariant
            i <= s@.len(),
            collapse_scan(s@.subrange(0, i as int)) == (Collapse {
                line: line@,
                out: out@,
                prev_blank,
            }),
        decreases s@.len() - i,
    {
        assert(s@.subrange(0, i + 1).drop_last() =~= s@.subrange(0, i as int));
        let c = s[i];
        if c == '\n' {
            emit_line_exec(&line, &mut out, &mut prev_blank);
            line = Vec::new();
        } else {
            line.push(c);
        }
        i = i + 1;
    }
    assert(s@.subrange(0, s@.len() as int) =~= s@);
    if line.len() > 0 {
        emit_line_exec(&line, &mut out, &mut prev_blank);
    }
    out
}

/// Extract the text of `word/document.xml`: the contents of the `w:t`
/// elements, a line break after each paragraph, lines trimmed and runs of
/// blank lines collapsed.
pub fn extract_text_from_xml(xml: &str) -> (r: String)
    ensures
        r@ == xml_text_of(xml@),
{
    let s = chars_of(xml);
    let mut in_tag = false;
    let mut tag: Vec<char> = Vec::new();
    let mut collecting = false;
    let mut out: Vec<char> = Vec::new();
    let mut i: usize = 0;
    while i < s.len()
        invariant
            i <= s@.len(),
            s@ == xml@,
            xml_scan(s@.subrange(0, i as int)) == (XmlScan {
                in_tag,
                tag: tag@,
                collecting,
                out: out@,
            }),
        decreases s@.len() - i,
    {
        assert(s@.subrange(0, i + 1).drop_last() =~= s@.subrange(0, i as int));
        let c = s[i];
        if c == '<' {
            in_tag = true;
            tag = Vec::new();
        } else if c == '>' && in_tag {
            in_tag = false;
            if has_prefix(&tag, "/w:p") {
                out.push('\n');
            }
            let opens = is_text(&tag, "w:t") || has_prefix(&tag, "w:t ");
            if is_text(&tag, "/w:t") {
                collecting = false;
            } else if opens {
                collecting = true;
            }
            tag = Vec::new();
        } else if in_tag {
            tag.push(c);
        } else if collecting {
            out.push(c);
        }
        i = i + 1;
        proof {
            assert(tag@ =~= xml_scan(s@.subrange(0, i as int)).tag);
            assert(out@ =~= xml_scan(s@.subrange(0, i as int)).out);
        }
    }
    assert(s@.subrange(0, s@.len() as int) =~= s@);
    let r = collapse_exec(&out);
    string_of(&r)
}

/// The text of a `.docx` file's `word/document.xml`, where the bytes are a
/// ZIP archive that holds that entry as UTF-8.
pub uninterp spec fn docx_xml_of(archive: Seq<u8>) -> Option<Seq<char>>;

/// Why a Word document could not be read.
#[derive(Debug, Clone, Copy, PartialEq, Eq, Structural)]
pub enum WordError {
    /// The bytes are not a ZIP archive, or it holds no readable `word/document.xml`.
    NotDocx,
}

/// Relies on the zip crate (`ZipArchive::new`, `by_name`) and `Read::read_to_string`.
#[verifier::external_body]
fn read_document_xml(bytes: &Vec<u8>) -> (r: Option<String>)
    ensures
        opt_text(r) == docx_xml_of(bytes@),
{
    let mut archive = zip::ZipArchive::new(std::io::Cursor::new(bytes.as_slice())).ok()?;
    let mut entry = archive.by_name("word/document.xml").ok()?;
    let mut xml = String::new();
    std::io::Read::read_to_string(&mut entry, &mut xml).ok()?;
    Some(xml)
}

/// The text of a Word document.
pub struct ExtractedWord {
    pub text: String,
}

/// Extract the text of a `.docx` file from its bytes.
pub fn extract_word_text(bytes: &Vec<u8>) -> (r: Result<ExtractedWord, WordError>)
    ensures
        docx_xml_of(bytes@) is None <==> r is Err,
        r matches Ok(w) ==> docx_xml_of(bytes@) matches Some(x) && w.text@ == trimmed(
            xml_text_of(x),
        ),
{
    match read_document_xml(bytes) {
        Some(xml) => {
            let t = extract_text_from_xml(xml.as_str());
            let tc = chars_of(t.as_str());
            Ok(ExtractedWord { text: string_of(&trim_chars(&tc)) })
        },
        None => Err(WordError::NotDocx),
    }
}

// ---------------------------------------------------------------------------
// PDF

/// The marker counted to estimate the pages of a PDF.
pub open spec fn page_marker() -> Seq<u8> {
    seq![47u8, 84u8, 121u8, 112u8, 101u8, 32u8, 47u8, 80u8, 97u8, 103u8, 101u8]
}

/// `p` occurs in `h` at position `i`.
pub open spec fn bytes_at(h: Seq<u8>, p: Seq<u8>, i: int) -> bool {
    0 <= i && i + p.len() <= h.len() && h.subrange(i, i + p.len()) == p
}

/// The number of non-overlapping occurrences of a non-empty `p` in `h` from
/// position `i` on, found left to right.
pub open spec fn count_from(h: Seq<u8>, p: Seq<u8>, i: int) -> nat
    decreases h.len() - i,
{
    if p.len() == 0 || i < 0 || i + p.len() > h.len() {
        0
    } else if bytes_at(h, p, i) {
        1 + count_from(h, p, i + p.len())
    } else {
        count_from(h, p, i + 1)
    }
}

/// The page estimate of a PDF: the count of `/Type /Page` markers (which also
/// match the page-tree marker `/Type /Pages`) less one for that tree where
/// there are several; none where there is no marker.
pub open spec fn page_count_of(bytes: Seq<u8>) -> Option<nat> {
    let n = count_from(bytes, page_marker(), 0);
    if n > 1 {
        Some((n - 1) as nat)
    } else if n == 1 {
        Some(1)
    } else {
        None
    }
}

fn bytes_at_exec(h: &Vec<u8>, p: &Vec<u8>, i: usize) -> (r: bool)
    ensures
        r == bytes_at(h@, p@, i as int),
{
    if i > h.len() || p.len() > h.len() - i {
        return false;
    }
    let hl = h.len();
    let mut k: usize = 0;
    while k < p.len()
        invariant
            hl == h@.len(),
            i + p@.len() <= h@.len(),
            k <= p@.len(),
            forall|m: int| 0 <= m < k ==> h@[i + m] == p@[m],
        decreases p@.len() - k,
    {
        assert(i + k < hl);
        if h[i + k] != p[k] {
            assert(h@.subrange(i as int, i + p@.len())[k as int] != p@[k as int]);
            return false;
        }
        k = k + 1;
    }
    assert(h@.subrange(i as int, i + p@.len()) =~= p@);
    true
}

/// Estimate the number of pages of a PDF from its bytes.
pub fn count_pages(bytes: &Vec<u8>) -> (r: Option<usize>)
    ensures
        r matches Some(n) ==> page_count_of(bytes@) == Some(n as nat),
        r is None ==> page_count_of(bytes@) is None,
{
    let p: Vec<u8> = vec![47u8, 84u8, 121u8, 112u8, 101u8, 32u8, 47u8, 80u8, 97u8, 103u8, 101u8];
    assert(p@ =~= page_marker());
    let hl = bytes.len();
    let mut i: usize = 0;
    let mut n: usize = 0;
    while i < hl && p.len() <= hl - i
        invariant
            hl == bytes@.len(),
            p@ == page_marker(),
            i <= hl,
            n <= i,
            count_from(bytes@, p@, 0) == n + count_from(bytes@, p@, i as int),
        decreases hl - i,
    {
        if bytes_at_exec(bytes, &p, i) {
            n = n + 1;
            i = i + p.len();
        } else {
            i = i + 1;
        }
    }
    assert(count_from(bytes@, p@, i as int) == 0);
    if n > 1 {
        Some(n - 1)
    } else if n == 1 {
        Some(1)
    } else {
        None
    }
}

/// A text shorter than this many characters marks a PDF as scanned.
pub const SCANNED_BELOW: usize = 20;

/// The text of a PDF.
pub struct ExtractedPdf {
    pub text: String,
    /// Too little text was found: the pages are probably images.
    pub is_scanned: bool,
    pub page_count: Option<usize>,
}

/// The extraction result of a PDF whose text is `raw`.
pub fn pdf_from_text(raw: &str, bytes: &Vec<u8>) -> (r: ExtractedPdf)
    ensures
        r.text@ == trimmed(raw@),
        r.is_scanned == (trimmed(raw@).len() < SCANNED_BELOW),
        r.page_count matches Some(n) ==> page_count_of(bytes@) == Some(n as nat),
        r.page_count is None ==> page_count_of(bytes@) is None,
{
    let t = trim_chars(&chars_of(raw));
    let scanned = t.len() < SCANNED_BELOW;
    ExtractedPdf { text: string_of(&t), is_scanned: scanned, page_count: count_pages(bytes) }
}

/// The pages of a PDF rendered to JPEG images, in page order.
pub struct RenderedPages {
    pub pages: Vec<Vec<u8>>,
}

// ---------------------------------------------------------------------------
// Spreadsheets

/// One sheet of a workbook, each cell already rendered as text.
pub struct SheetRows {
    pub name: String,
    pub rows: Vec<Vec<String>>,
}

/// The texts of the cells of a row.
pub open spec fn cells_of(row: Vec<String>) -> Seq<Seq<char>> {
    row@.map_values(|c: String| c@)
}

/// Every cell of the row is empty.
pub open spec fn row_blank(row: Seq<Seq<char>>) -> bool {
    forall|i: int| 0 <= i < row.len() ==> row[i].len() == 0
}

/// The cells of a row joined by ` | `.
pub open spec fn join_cells(row: Seq<Seq<char>>) -> Seq<char>
    decreases row.len(),
{
    if row.len() == 0 {
        Seq::empty()
    } else if row.len() == 1 {
        row[0]
    } else {
        join_cells(row.drop_last()) + " | "@ + row.last()
    }
}

/// The lines of the rows that are not blank.
pub open spec fn rows_text(rows: Seq<Vec<String>>) -> Seq<char>
    decreases rows.len(),
{
    if rows.len() == 0 {
        Seq::empty()
    } else {
        let last = cells_of(rows.last());
        rows_text(rows.drop_last()) + if row_blank(last) {
            Seq::empty()
        } else {
            join_cells(last).push('\n')
        }
    }
}

/// The number of rows that are not blank.
pub open spec fn rows_kept(rows: Seq<Vec<String>>) -> nat
    decreases rows.len(),
{
    if rows.len() == 0 {
        0
    } else {
        rows_kept(rows.drop_last()) + if row_blank(cells_of(rows.last())) {
            0nat
        } else {
            1nat
        }
    }
}

/// The text of one sheet: a header line with its name, then its rows.
pub open spec fn sheet_text(sh: SheetRows) -> Seq<char> {
    "=== Sheet: "@ + sh.name@ + " ===\n"@ + rows_text(sh.rows@) + "\n"@
}

/// The texts of the sheets, one after another.
pub open spec fn sheets_text(sheets: Seq<SheetRows>) -> Seq<char>
    decreases sheets.len(),
{
    if sheets.len() == 0 {
        Seq::empty()
    } else {
        sheets_text(sheets.drop_last()) + sheet_text(sheets.last())
    }
}

/// The number of rows kept over all sheets.
pub open spec fn sheets_rows(sheets: Seq<SheetRows>) -> nat
    decreases sheets.len(),
{
    if sheets.len() == 0 {
        0
    } else {
        sheets_rows(sheets.drop_last()) + rows_kept(sheets.last().rows@)
    }
}

/// The text of a workbook.
pub struct ExtractedExcel {
    pub text: String,
    pub sheet_count: usize,
    pub total_rows: usize,
}

/// Whether every cell of a row is empty.
fn is_blank_row(row: &Vec<String>) -> (r: bool)
    ensures
        r == row_blank(cells_of(*row)),
{
    let mut i: usize = 0;
    while i < row.len()
        invariant
            i <= row@.len(),
            forall|j: int| 0 <= j < i ==> row@[j]@.len() == 0,
        decreases row@.len() - i,
    {
        if row[i].as_str().unicode_len() > 0 {
            assert(cells_of(*row)[i as int].len() > 0);
            return false;
        }
        i = i + 1;
    }
    true
}

/// Appends the cells of a row joined by ` | `.
fn push_row(out: &mut Vec<char>, row: &Vec<String>)
    ensures
        final(out)@ == old(out)@ + join_cells(cells_of(*row)),
{
    let ghost start = out@;
    let mut i: usize = 0;
    while i < row.len()
        invariant
            i <= row@.len(),
            out@ == start + join_cells(cells_of(*row).subrange(0, i as int)),
        decreases row@.len() - i,
    {
        let ghost cs = cells_of(*row);
        assert(cs.subrange(0, i + 1).drop_last() =~= cs.subrange(0, i as int));
        if i > 0 {
            push_str(out, " | ");
        }
        let c = chars_of(row[i].as_str());
        push_all(out, &c);
        i = i + 1;
        assert(out@ =~= start + join_cells(cs.subrange(0, i as int)));
    }
    assert(cells_of(*row).subrange(0, row@.len() as int) =~= cells_of(*row));
}

/// Render the sheets of a workbook as text: for each sheet a line
/// `=== Sheet: <name> ===`, then each row that has a non-empty cell with its
/// cells joined by ` | `, then a blank line; the whole trimmed.
pub fn render_workbook(sheets: &Vec<SheetRows>) -> (r: ExtractedExcel)
    requires
        sheets_rows(sheets@) <= usize::MAX,
    ensures
        r.text@ == trimmed(sheets_text(sheets@)),
        r.sheet_count == sheets@.len(),
        r.total_rows == sheets_rows(sheets@),
{
    let mut out: Vec<char> = Vec::new();
    let mut total: usize = 0;
    let mut k: usize = 0;
    while k < sheets.len()
        invariant
            k <= sheets@.len(),
            out@ == sheets_text(sheets@.subrange(0, k as int)),
            total == sheets_rows(sheets@.subrange(0, k as int)),
            sheets_rows(sheets@) <= usize::MAX,
        decreases sheets@.len() - k,
    {
        proof {
            assert(sheets@.subrange(0, k + 1).drop_last() =~= sheets@.subrange(0, k as int));
            lemma_sheets_rows_prefix(sheets@, k as int + 1);
        }
        let sh = &sheets[k];
        let ghost before = out@;
        push_str(&mut out, "=== Sheet: ");
        let nm = chars_of(sh.name.as_str());
        push_all(&mut out, &nm);
        push_str(&mut out, " ===\n");
        let ghost head = out@;
        assert(head =~= before + ("=== Sheet: "@ + sh.name@ + " ===\n"@));
        let mut i: usize = 0;
        let mut kept: usize = 0;
        while i < sh.rows.len()
            invariant
                i <= sh.rows@.len(),
                out@ == head + rows_text(sh.rows@.subrange(0, i as int)),
                kept == rows_kept(sh.rows@.subrange(0, i as int)),
                total + rows_kept(sh.rows@) <= usize::MAX,
            decreases sh.rows@.len() - i,
        {
            proof {
                assert(sh.rows@.subrange(0, i + 1).drop_last() =~= sh.rows@.subrange(0, i as int));
                lemma_rows_kept_prefix(sh.rows@, i as int + 1);
            }
            let row = &sh.rows[i];
            if !is_blank_row(row) {
                push_row(&mut out, row);
                out.push('\n');
                kept = kept + 1;
            }
            i = i + 1;
            assert(out@ =~= head + rows_text(sh.rows@.subrange(0, i as int)));
        }
        assert(sh.rows@.subrange(0, sh.rows@.len() as int) =~= sh.rows@);
        assert(out@ == head + rows_text(sh.rows@));
        push_str(&mut out, "\n");
        total = total + kept;
        proof {
            let sub = sheets@.subrange(0, k + 1);
            assert(sub.last() == sheets@[k as int]);
            assert(out@ =~= before + sheet_text(sheets@[k as int]));
            assert(sheets_text(sub) == sheets_text(sub.drop_last()) + sheet_text(sub.last()));
        }
        k = k + 1;
    }
    assert(sheets@.subrange(0, sheets@.len() as int) =~= sheets@);
    ExtractedExcel { text: string_of(&trim_chars(&out)), sheet_count: sheets.len(), total_rows: total }
}

proof fn lemma_rows_kept_prefix(rows: Seq<Vec<String>>, i: int)
    requires
        0 <= i <= rows.len(),
    ensures
        rows_kept(rows.subrange(0, i)) <= rows_kept(rows),
    decreases rows.len(),
{
    if i < rows.len() {
        assert(rows.drop_last().subrange(0, i) =~= rows.subrange(0, i));
        lemma_rows_kept_prefix(rows.drop_last(), i);
    } else {
        assert(rows.subrange(0, i) =~= rows);
    }
}

proof fn lemma_sheets_rows_prefix(sheets: Seq<SheetRows>, k: int)
    requires
        0 <= k <= sheets.len(),
    ensures
        sheets_rows(sheets.subrange(0, k)) <= sheets_rows(sheets),
    decreases sheets.len(),
{
    if k < sheets.len() {
        assert(sheets.drop_last().subrange(0, k) =~= sheets.subrange(0, k));
        lemma_sheets_rows_prefix(sheets.drop_last(), k);
    } else {
        assert(sheets.subrange(0, k) =~= sheets);
    }
}

// ---------------------------------------------------------------------------
// Images

/// The width and height of an image, where the image crate decodes it.
pub uninterp spec fn image_dims_of(bytes: Seq<u8>) -> Option<(u32, u32)>;

/// Relies on `image::load_from_memory` and the decoded image's dimensions.
#[verifier::external_body]
fn image_dimensions(bytes: &Vec<u8>) -> (r: Option<(u32, u32)>)
    ensures
        r == image_dims_of(bytes@),
{
    let img = image::load_from_memory(bytes).ok()?;
    Some((img.width(), img.height()))
}

/// What is known of an image: no text is read from it natively, so it
/// always needs the vision model.
pub struct ExtractedImage {
    pub text: String,
    pub width: u32,
    pub height: u32,
    pub needs_llm_vision: bool,
}

/// Why an image could not be read.
#[derive(Debug, Clone, Copy, PartialEq, Eq, Structural)]
pub enum ImageError {
    NotAnImage,
}

/// Probe an image from its bytes.
pub fn extract_image_text(bytes: &Vec<u8>) -> (r: Result<ExtractedImage, ImageError>)
    ensures
        image_dims_of(bytes@) is None <==> r is Err,
        r matches Ok(i) ==> image_dims_of(bytes@) == Some((i.width, i.height)) && i.text@.len()
            == 0 && i.needs_llm_vision,
{
    match image_dimensions(bytes) {
        Some((w, h)) => Ok(
            ExtractedImage { text: string_of(&Vec::new()), width: w, height: h, needs_llm_vision: true },
        ),
        None => Err(ImageError::NotAnImage),
    }
}

} // verus!
