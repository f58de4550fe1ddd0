use vstd::prelude::*;

use crate::error::{ErrorType, SDKError};
use crate::html::{
    cell_text_runs, cells_view, join_rows, joined, rows_view, select_cell_text, selector_ok,
    strings_view,
};
use crate::text::{decimal_of, parse_decimal, Decimal};

verus! {

pub const MYFDU_URL: &'static str = "https://my.fudan.edu.cn/";

pub const COURSE_GRADE_URL: &'static str = "https://my.fudan.edu.cn/list/bks_xx_cj";

/// The rows of the grade table on the records portal.
pub const GRADE_ROWS: &'static str = "#dataTable_BksXxCj>tbody>tr";

/// One grade as the records portal lists it.
#[derive(Debug)]
pub struct GradeData {
    pub id: String,
    pub name: String,
    pub academic_year: String,
    pub semester: String,
    pub credits: Decimal,
    pub grade: String,
}

/// Whether a row's cell texts (id, year, semester, name, credits, grade)
/// describe `g`.
pub open spec fn grade_data_ok(cells: Seq<Seq<char>>, g: GradeData) -> bool {
    &&& cells.len() >= 6
    &&& g.id@ == cells[0] && g.academic_year@ == cells[1] && g.semester@ == cells[2]
    &&& g.name@ == cells[3] && decimal_of(cells[4]) == Some(g.credits) && g.grade@ == cells[5]
}

/// The grade that a row's cells describe.
pub fn parse_grade_data(cells: &Vec<String>) -> (r: Result<GradeData, SDKError>)
    ensures
        r is Ok == (cells@.len() >= 6 && decimal_of(strings_view(cells@)[4]) is Some),
        r matches Ok(g) ==> grade_data_ok(strings_view(cells@), g),
        r matches Err(e) ==> e.kind == ErrorType::ParseError,
{
    if cells.len() < 6 {
        return Err(SDKError::with_type(ErrorType::ParseError, String::from_str("grade row too short")));
    }
    let credits = match parse_decimal(cells[4].as_str()) {
        Some(c) => c,
        None => return Err(SDKError::with_type(ErrorType::ParseError, String::from_str("parse credits error"))),
    };
    Ok(
        GradeData {
            id: cells[0].clone(),
            academic_year: cells[1].clone(),
            semester: cells[2].clone(),
            name: cells[3].clone(),
            credits,
            grade: cells[5].clone(),
        },
    )
}

/// A row whose cell texts describe a grade.
pub open spec fn row_ok(cells: Seq<Seq<char>>) -> bool {
    cells.len() >= 6 && decimal_of(cells[4]) is Some
}

/// The cell texts of each row of the grade page.
pub open spec fn grade_cells(html: Seq<char>) -> Seq<Seq<Seq<char>>> {
    cell_text_runs(html, GRADE_ROWS@, "td"@).map_values(|r: Seq<Seq<Seq<char>>>| joined(r))
}

/// The grades on the records portal's grade page, one per table row, read
/// from the text of each row's cells; a short row or malformed credits is a
/// parse error.
pub fn get_myfdu_course_grade(html: &str) -> (r: Result<Vec<GradeData>, SDKError>)
    ensures
        r is Ok <==> selector_ok(GRADE_ROWS@) && selector_ok("td"@) && forall|k: int|
            0 <= k < grade_cells(html@).len() ==> row_ok(#[trigger] grade_cells(html@)[k]),
        r matches Ok(v) ==> v@.len() == grade_cells(html@).len() && forall|k: int|
            0 <= k < v@.len() ==> grade_data_ok(grade_cells(html@)[k], #[trigger] v@[k]),
        r matches Err(e) ==> e.kind == ErrorType::ParseError,
{
    let rows = match select_cell_text(html, GRADE_ROWS, "td") {
        Some(r) => r,
        None => return Err(SDKError::with_type(ErrorType::ParseError, String::from_str("bad selector"))),
    };
    let ghost cells = grade_cells(html@);
    assert(cells.len() == rows@.len());
    let mut out: Vec<GradeData> = Vec::new();
    let mut i: usize = 0;
    while i < rows.len()
        invariant
            i <= rows@.len() == cells.len(),
            cells == grade_cells(html@),
            cells_view(rows@) == cell_text_runs(html@, GRADE_ROWS@, "td"@),
            out@.len() == i,
            forall|k: int| 0 <= k < i ==> row_ok(#[trigger] cells[k]),
            forall|k: int| 0 <= k < i ==> grade_data_ok(cells[k], #[trigger] out@[k]),
        decreases rows.len() - i,
    {
        let row = join_rows(&rows[i]);
        assert(cells[i as int] == strings_view(row@)) by {
            assert(cells_view(rows@)[i as int] == rows_view(rows@[i as int]@));
        }
        match parse_grade_data(&row) {
            Ok(g) => out.push(g),
            Err(e) => {
                assert(!row_ok(cells[i as int]));
                return Err(e);
            },
        }
        i = i + 1;
    }
    Ok(out)
}

} // verus!
