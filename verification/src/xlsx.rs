//! Spreadsheet attachments: which MIME types are spreadsheets, decoding
//! the base64 payload, and writing the first non-empty sheet's cells as
//! CSV text capped at a number of rows. Opening the workbook and
//! rendering numeric cells (floating point) is the host's part.
use vstd::prelude::*;

use base64::Engine;

use crate::text::{chars_of, decimal, decimal_string, owned, push_char, push_str, str_eq};

verus! {

/// The MIME types read as spreadsheets (OpenXML and legacy binary).
pub open spec fn xlsx_mime(content_type: Seq<char>) -> bool {
    content_type == "application/vnd.openxmlformats-officedocument.spreadsheetml.sheet"@ || content_type
        == "application/vnd.ms-excel"@ || content_type == "application/vnd.ms-excel.sheet.macroenabled.12"@
}

/// Whether the attachment's content type is a spreadsheet.
pub fn is_xlsx_mime(content_type: &str) -> (r: bool)
    ensures
        r == xlsx_mime(content_type@),
{
    str_eq(content_type, "application/vnd.openxmlformats-officedocument.spreadsheetml.sheet") || str_eq(
        content_type,
        "application/vnd.ms-excel",
    ) || str_eq(content_type, "application/vnd.ms-excel.sheet.macroenabled.12")
}

/// Why an attachment could not be converted.
pub enum XlsxError {
    Base64(String),
    Open(String),
    NoSheets,
}

impl XlsxError {
    /// The message shown for the error.
    pub fn message(&self) -> (r: String)
        ensures
            r@ == match self {
                XlsxError::Base64(m) => "XLSX base64 decode failed: "@ + m@,
                XlsxError::Open(m) => "XLSX open failed: "@ + m@,
                XlsxError::NoSheets => "XLSX workbook has no non-empty sheets"@,
            },
    {
        match self {
            XlsxError::Base64(m) => {
                let mut s = owned("XLSX base64 decode failed: ");
                push_str(&mut s, m.as_str());
                s
            },
            XlsxError::Open(m) => {
                let mut s = owned("XLSX open failed: ");
                push_str(&mut s, m.as_str());
                s
            },
            XlsxError::NoSheets => owned("XLSX workbook has no non-empty sheets"),
        }
    }
}

/// What the standard base64 engine decodes `s` to: the bytes, or the
/// decoder's error text.
pub uninterp spec fn base64_standard(s: Seq<char>) -> Result<Seq<u8>, Seq<char>>;

/// `base64::engine::general_purpose::STANDARD.decode(s)`, the error
/// rendered with `to_string`. Trusted to depend on `s` alone; which
/// inputs decode, and to what, is not stated.
#[verifier::external_body]
fn base64_decode(s: &str) -> (r: Result<Vec<u8>, String>)
    ensures
        match r {
            Ok(b) => base64_standard(s@) == Ok::<Seq<u8>, Seq<char>>(b@),
            Err(e) => base64_standard(s@) == Err::<Seq<u8>, Seq<char>>(e@),
        },
{
    base64::engine::general_purpose::STANDARD.decode(s).map_err(|e| e.to_string())
}

/// The attachment's bytes, or the decoding error.
pub fn decode_attachment(base64_data: &str) -> (r: Result<Vec<u8>, XlsxError>)
    ensures
        match base64_standard(base64_data@) {
            Ok(b) => r matches Ok(v) && v@ == b,
            Err(e) => r matches Err(XlsxError::Base64(m)) && m@ == e,
        },
{
    match base64_decode(base64_data) {
        Ok(b) => Ok(b),
        Err(e) => Err(XlsxError::Base64(e)),
    }
}

/// The first sheet (by position) that has a cell.
pub fn first_non_empty(sheet_has_cells: &Vec<bool>) -> (r: Option<usize>)
    ensures
        match r {
            Some(k) => k < sheet_has_cells@.len() && sheet_has_cells@[k as int] && forall|j: int|
                0 <= j < k ==> !sheet_has_cells@[j],
            None => forall|j: int| 0 <= j < sheet_has_cells@.len() ==> !sheet_has_cells@[j],
        },
{
    let mut k: usize = 0;
    while k < sheet_has_cells.len()
        invariant
            k <= sheet_has_cells.len(),
            forall|j: int| 0 <= j < k ==> !sheet_has_cells@[j],
        decreases sheet_has_cells.len() - k,
    {
        if sheet_has_cells[k] {
            return Some(k);
        }
        k = k + 1;
    }
    None
}

/// `s` with each `"` doubled.
pub open spec fn escaped(s: Seq<char>) -> Seq<char>
    decreases s.len(),
{
    if s.len() == 0 {
        Seq::empty()
    } else {
        escaped(s.drop_last()) + if s.last() == '"' {
            seq!['"', '"']
        } else {
            seq![s.last()]
        }
    }
}

/// A cell as CSV: quoted (with quotes doubled) when it holds a comma, a
/// quote or a newline.
pub open spec fn cell_csv(s: Seq<char>) -> Seq<char> {
    if s.contains(',') || s.contains('"') || s.contains('\n') {
        seq!['"'] + escaped(s) + seq!['"']
    } else {
        s
    }
}

/// The first `k` cells, comma-separated.
pub open spec fn cells_csv(cells: Seq<Seq<char>>, k: int) -> Seq<char>
    decreases k,
{
    if k <= 0 {
        Seq::empty()
    } else if k == 1 {
        cell_csv(cells[0])
    } else {
        cells_csv(cells, k - 1) + seq![','] + cell_csv(cells[k - 1])
    }
}

pub open spec fn row_csv(cells: Seq<Seq<char>>) -> Seq<char> {
    cells_csv(cells, cells.len() as int) + seq!['\n']
}

/// The first `k` rows as CSV lines.
pub open spec fn rows_csv(rows: Seq<Seq<Seq<char>>>, k: int) -> Seq<char>
    decreases k,
{
    if k <= 0 {
        Seq::empty()
    } else {
        rows_csv(rows, k - 1) + row_csv(rows[k - 1])
    }
}

/// The CSV text of a sheet: at most `max_rows` rows, then a note when
/// rows were left out.
pub open spec fn sheet_csv(rows: Seq<Seq<Seq<char>>>, max_rows: int) -> Seq<char> {
    if rows.len() > max_rows {
        rows_csv(rows, max_rows) + "[truncated at "@ + decimal(max_rows as nat)
            + " rows — re-upload as CSV if you need the full file]\n"@
    } else {
        rows_csv(rows, rows.len() as int)
    }
}

pub open spec fn row_views(rows: Seq<Vec<String>>) -> Seq<Seq<Seq<char>>> {
    rows.map_values(|r: Vec<String>| r@.map_values(|c: String| c@))
}

fn cell_exec(out: &mut String, cell: &str)
    ensures
        final(out)@ == old(out)@ + cell_csv(cell@),
{
    let v = chars_of(cell);
    let mut special = false;
    let mut i: usize = 0;
    while i < v.len()
        invariant
            v@ == cell@,
            i <= v.len(),
            special == exists|j: int| 0 <= j < i && (v@[j] == ',' || v@[j] == '"' || v@[j] == '\n'),
        decreases v.len() - i,
    {
        if v[i] == ',' || v[i] == '"' || v[i] == '\n' {
            special = true;
        }
        i = i + 1;
    }
    proof {
        if special {
            let j = choose|j: int| 0 <= j < v.len() && (v@[j] == ',' || v@[j] == '"' || v@[j] == '\n');
            if v@[j] == ',' {
                assert(cell@.contains(','));
            } else if v@[j] == '"' {
                assert(cell@.contains('"'));
            } else {
                assert(cell@.contains('\n'));
            }
        }
    }
    if special {
        let ghost base = out@;
        push_char(out, '"');
        let mut k: usize = 0;
        while k < v.len()
            invariant
                v@ == cell@,
                k <= v.len(),
                out@ == base + seq!['"'] + escaped(cell@.take(k as int)),
            decreases v.len() - k,
        {
            if v[k] == '"' {
                push_char(out, '"');
                push_char(out, '"');
            } else {
                push_char(out, v[k]);
            }
            proof {
                assert(cell@.take(k + 1).drop_last() =~= cell@.take(k as int));
            }
            k = k + 1;
        }
        assert(cell@.take(v.len() as int) =~= cell@);
        push_char(out, '"');
    } else {
        push_str(out, cell);
    }
}

/// Writes the sheet's rows as CSV, capped at `max_rows` rows.
pub fn rows_to_csv(rows: &Vec<Vec<String>>, max_rows: usize) -> (r: String)
    ensures
        r@ == sheet_csv(row_views(rows@), max_rows as int),
{
    let ghost rv = row_views(rows@);
    let mut csv = String::new();
    let n = if rows.len() > max_rows {
        max_rows
    } else {
        rows.len()
    };
    let mut r: usize = 0;
    while r < n
        invariant
            rv == row_views(rows@),
            n <= rows.len(),
            r <= n,
            csv@ == rows_csv(rv, r as int),
        decreases n - r,
    {
        let row = &rows[r];
        let ghost cells = rv[r as int];
        assert(cells == row@.map_values(|c: String| c@));
        let mut i: usize = 0;
        while i < row.len()
            invariant
                cells == row@.map_values(|c: String| c@),
                i <= row.len(),
                csv@ == rows_csv(rv, r as int) + cells_csv(cells, i as int),
            decreases row.len() - i,
        {
            if i > 0 {
                push_char(&mut csv, ',');
            }
            cell_exec(&mut csv, row[i].as_str());
            proof {
                assert(cells[i as int] == row@[i as int]@);
            }
            i = i + 1;
        }
        push_char(&mut csv, '\n');
        r = r + 1;
    }
    if rows.len() > max_rows {
        push_str(&mut csv, "[truncated at ");
        push_str(&mut csv, decimal_string(max_rows).as_str());
        push_str(&mut csv, " rows — re-upload as CSV if you need the full file]\n");
    }
    csv
}

} // verus!
