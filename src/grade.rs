use vstd::prelude::*;

use crate::error::{ErrorType, SDKError};
use crate::html::{rows_view, select_text, selector_ok, strings_view, text_runs};
use crate::text::{
    blank, cap, chars_of, decimal_of, is_blank, parse_decimal, pow10, same_text, Decimal,
};

verus! {

/// The records portal's list of the student's grades.
pub const GRADE_URL: &'static str = "https://my.fudan.edu.cn/list/bks_xx_cj";

/// The academic-affairs portal's ranking table of grade-point averages.
pub const GPA_SEARCH_URL: &'static str = "https://jwfw.fudan.edu.cn/eams/myActualGpa!search.action";

/// The rows of both tables.
pub const TABLE_ROWS: &'static str = "tbody tr";

/// One course's grade. The point is in hundredths (a point of 3.7 is 370);
/// the credits keep every digit of the listed value.
#[derive(Debug)]
pub struct CourseGrade {
    pub code: String,
    pub name: String,
    pub year: String,
    pub semester: String,
    pub credit: Decimal,
    pub grade: String,
    pub point: u64,
}

pub struct GradeView {
    pub code: Seq<char>,
    pub name: Seq<char>,
    pub year: Seq<char>,
    pub semester: Seq<char>,
    pub credit: Decimal,
    pub grade: Seq<char>,
    pub point: nat,
}

impl View for CourseGrade {
    type V = GradeView;

    open spec fn view(&self) -> GradeView {
        GradeView {
            code: self.code@,
            name: self.name@,
            year: self.year@,
            semester: self.semester@,
            credit: self.credit,
            grade: self.grade@,
            point: self.point as nat,
        }
    }
}

pub open spec fn grades_view(v: Seq<CourseGrade>) -> Seq<GradeView> {
    v.map_values(|g: CourseGrade| g@)
}

/// A grade-point summary. The average is `gpa_num / gpa_den` (zero where
/// `gpa_den` is zero); the rank is `ranking` out of `total` students of the
/// same major.
#[derive(Clone, Copy, Debug, PartialEq, Eq, Structural)]
pub struct GPA {
    pub gpa_num: u64,
    pub gpa_den: u64,
    pub ranking: u64,
    pub total: u64,
    pub credits: Decimal,
}

pub open spec fn zero_gpa() -> GPA {
    GPA { gpa_num: 0, gpa_den: 0, ranking: 0, total: 0, credits: Decimal { units: 0, scale: 0 } }
}

/// The point of a letter grade, in hundredths; pass and unknown grades
/// carry none.
pub open spec fn point_of(g: Seq<char>) -> nat {
    if g == "A"@ {
        400
    } else if g == "A-"@ {
        370
    } else if g == "B+"@ {
        330
    } else if g == "B"@ {
        300
    } else if g == "B-"@ {
        270
    } else if g == "C+"@ {
        230
    } else if g == "C"@ {
        200
    } else if g == "C-"@ {
        170
    } else if g == "D+"@ {
        130
    } else if g == "D"@ {
        100
    } else {
        0
    }
}

/// The point of a letter grade, in hundredths.
pub fn grade_to_point(grade: &str) -> (r: u64)
    ensures
        r == point_of(grade@),
{
    if same_text(grade, "A") {
        400
    } else if same_text(grade, "A-") {
        370
    } else if same_text(grade, "B+") {
        330
    } else if same_text(grade, "B") {
        300
    } else if same_text(grade, "B-") {
        270
    } else if same_text(grade, "C+") {
        230
    } else if same_text(grade, "C") {
        200
    } else if same_text(grade, "C-") {
        170
    } else if same_text(grade, "D+") {
        130
    } else if same_text(grade, "D") {
        100
    } else {
        0
    }
}

/// The grade a row of the grade list describes: code, year, semester, name,
/// credits, grade; `None` where a cell is missing or the credits are no
/// decimal number.
pub open spec fn grade_of_row(row: Seq<Seq<char>>) -> Option<GradeView> {
    if row.len() >= 6 && decimal_of(row[4]) is Some {
        Some(
            GradeView {
                code: row[0],
                year: row[1],
                semester: row[2],
                name: row[3],
                credit: decimal_of(row[4])->0,
                grade: row[5],
                point: point_of(row[5]),
            },
        )
    } else {
        None
    }
}

/// One row of the grade list.
pub fn parse_grade_row(cells: &Vec<String>) -> (r: Result<CourseGrade, SDKError>)
    ensures
        r is Ok == grade_of_row(strings_view(cells@)) is Some,
        r matches Ok(g) ==> Some(g@) == grade_of_row(strings_view(cells@)),
        r matches Err(e) ==> e.kind == ErrorType::ParseError,
{
    if cells.len() < 6 {
        return Err(SDKError::with_type(ErrorType::ParseError, String::from_str("grade row too short")));
    }
    let credit = match parse_decimal(cells[4].as_str()) {
        Some(c) => c,
        None => {
            return Err(SDKError::with_type(ErrorType::ParseError, String::from_str("parse credit error")));
        },
    };
    let g = CourseGrade {
        code: cells[0].clone(),
        year: cells[1].clone(),
        semester: cells[2].clone(),
        name: cells[3].clone(),
        credit,
        grade: cells[5].clone(),
        point: grade_to_point(cells[5].as_str()),
    };
    Ok(g)
}

/// Every row of the grade list, or the first malformed one's error.
pub fn parse_grades(rows: &Vec<Vec<String>>) -> (r: Result<Vec<CourseGrade>, SDKError>)
    ensures
        r is Ok == forall|k: int|
            0 <= k < rows@.len() ==> grade_of_row(#[trigger] rows_view(rows@)[k]) is Some,
        r matches Ok(v) ==> v@.len() == rows@.len() && forall|k: int|
            0 <= k < v@.len() ==> Some(#[trigger] v@[k]@) == grade_of_row(rows_view(rows@)[k]),
        r matches Err(e) ==> e.kind == ErrorType::ParseError,
{
    let mut out: Vec<CourseGrade> = Vec::new();
    let mut i: usize = 0;
    while i < rows.len()
        invariant
            i <= rows@.len(),
            out@.len() == i,
            forall|k: int| 0 <= k < i ==> grade_of_row(#[trigger] rows_view(rows@)[k]) is Some,
            forall|k: int|
                0 <= k < i ==> Some(#[trigger] out@[k]@) == grade_of_row(rows_view(rows@)[k]),
        decreases rows.len() - i,
    {
        assert(rows_view(rows@)[i as int] == strings_view(rows@[i as int]@));
        match parse_grade_row(&rows[i]) {
            Ok(g) => out.push(g),
            Err(e) => return Err(e),
        }
        i = i + 1;
    }
    Ok(out)
}

impl CourseGrade {
    /// A copy of this grade.
    pub fn copy(&self) -> (r: CourseGrade)
        ensures
            r@ == self@,
    {
        CourseGrade {
            code: self.code.clone(),
            name: self.name.clone(),
            year: self.year.clone(),
            semester: self.semester.clone(),
            credit: self.credit,
            grade: self.grade.clone(),
            point: self.point,
        }
    }
}

/// How many grades at the front of the list share the first one's year and
/// semester.
pub open spec fn semester_run(gs: Seq<GradeView>, n: int) -> bool {
    0 <= n <= gs.len() && forall|k: int|
        0 <= k < n ==> #[trigger] gs[k].year == gs[0].year && gs[k].semester == gs[0].semester
}

/// The grades of the latest semester: the run at the front of the list (the
/// list comes newest first) that shares the first grade's year and semester.
pub fn grades_of_this_semester(grades: &Vec<CourseGrade>) -> (r: Vec<CourseGrade>)
    ensures
        semester_run(grades_view(grades@), r@.len() as int),
        r@.len() < grades@.len() ==> !(grades@[r@.len() as int].year@ == grades@[0].year@
            && grades@[r@.len() as int].semester@ == grades@[0].semester@),
        forall|k: int| 0 <= k < r@.len() ==> #[trigger] r@[k]@ == grades@[k]@,
{
    let mut out: Vec<CourseGrade> = Vec::new();
    if grades.len() == 0 {
        return out;
    }
    let mut i: usize = 0;
    while i < grades.len()
        invariant
            1 <= grades@.len(),
            i <= grades@.len(),
            out@.len() == i,
            semester_run(grades_view(grades@), i as int),
            forall|k: int| 0 <= k < i ==> #[trigger] out@[k]@ == grades@[k]@,
        decreases grades.len() - i,
    {
        if !(grades[i].year == grades[0].year && grades[i].semester == grades[0].semester) {
            return out;
        }
        out.push(grades[i].copy());
        i = i + 1;
    }
    out
}

pub open spec fn graded(g: GradeView) -> bool {
    g.grade != "P"@
}

/// The largest number of decimal places among the graded courses' credits.
pub open spec fn max_scale(gs: Seq<GradeView>) -> nat
    decreases gs.len(),
{
    if gs.len() == 0 {
        0
    } else if graded(gs.last()) && gs.last().credit.scale > max_scale(gs.drop_last()) {
        gs.last().credit.scale as nat
    } else {
        max_scale(gs.drop_last())
    }
}

pub open spec fn gap(d: nat, s: nat) -> nat {
    if s <= d {
        (d - s) as nat
    } else {
        0
    }
}

/// A course's credits in units of `10^-d`.
pub open spec fn credit_at(g: GradeView, d: nat) -> nat {
    (g.credit.units as nat) * pow10(gap(d, g.credit.scale as nat))
}

/// Sum of point times credits (in units of `10^-d`) over the graded (not
/// pass/fail) courses.
pub open spec fn weighted_points(gs: Seq<GradeView>, d: nat) -> nat
    decreases gs.len(),
{
    if gs.len() == 0 {
        0
    } else {
        weighted_points(gs.drop_last(), d) + if graded(gs.last()) {
            gs.last().point * credit_at(gs.last(), d)
        } else {
            0
        }
    }
}

/// Sum of credits (in units of `10^-d`) over the graded courses.
pub open spec fn graded_credits(gs: Seq<GradeView>, d: nat) -> nat
    decreases gs.len(),
{
    if gs.len() == 0 {
        0
    } else {
        graded_credits(gs.drop_last(), d) + if graded(gs.last()) {
            credit_at(gs.last(), d)
        } else {
            0
        }
    }
}

/// The average recomputed from the grades, at the largest scale of their
/// credits so that no digit is lost; `None` where the sums do not fit in 64
/// bits.
pub open spec fn gpa_of_grades(gs: Seq<GradeView>) -> Option<GPA> {
    let d = max_scale(gs);
    if weighted_points(gs, d) <= u64::MAX && 100 * graded_credits(gs, d) <= u64::MAX {
        Some(
            GPA {
                gpa_num: weighted_points(gs, d) as u64,
                gpa_den: (100 * graded_credits(gs, d)) as u64,
                ranking: 0,
                total: 0,
                credits: Decimal { units: graded_credits(gs, d) as u64, scale: d as u32 },
            },
        )
    } else {
        None
    }
}

proof fn lemma_pow10_pos(n: nat)
    ensures
        pow10(n) >= 1,
    decreases n,
{
    if n > 0 {
        lemma_pow10_pos((n - 1) as nat);
    }
}

proof fn lemma_pow10_grows(i: nat, n: nat)
    requires
        i <= n,
    ensures
        pow10(i) <= pow10(n),
    decreases n - i,
{
    if i < n {
        lemma_pow10_grows(i, (n - 1) as nat);
        lemma_pow10_pos((n - 1) as nat);
    }
}

/// `10^n`, or `2^64` where that is larger.
pub fn pow10_capped(n: u32) -> (r: u128)
    ensures
        r == cap(pow10(n as nat)),
{
    let mut v: u128 = 1;
    let mut i: u32 = 0;
    while i < n && v <= u64::MAX as u128
        invariant
            i <= n,
            v == cap(pow10(i as nat)),
        decreases n - i,
    {
        v = if v * 10 > u64::MAX as u128 {
            u64::MAX as u128 + 1
        } else {
            v * 10
        };
        i = i + 1;
    }
    proof {
        lemma_pow10_grows(i as nat, n as nat);
    }
    v
}

/// `cap(a * x)` from `a` and `b == cap(x)`.
fn mul_capped(a: u64, b: u128, Ghost(x): Ghost<nat>) -> (r: u128)
    requires
        b == cap(x),
    ensures
        r == cap((a as nat) * x),
{
    if a == 0 {
        assert((a as nat) * x == 0) by (nonlinear_arith)
            requires
                a == 0,
        ;
        0
    } else if b > u64::MAX as u128 {
        assert((a as nat) * x >= x) by (nonlinear_arith)
            requires
                a >= 1,
        ;
        u64::MAX as u128 + 1
    } else {
        assert((a as nat) * x <= 0xffff_ffff_ffff_ffff * 0xffff_ffff_ffff_ffff) by (nonlinear_arith)
            requires
                a <= 0xffff_ffff_ffff_ffffu64,
                x <= 0xffff_ffff_ffff_ffff,
        ;
        let p = a as u128 * b;
        if p > u64::MAX as u128 {
            u64::MAX as u128 + 1
        } else {
            p
        }
    }
}

/// The average recomputed from the grades: point times credits summed and
/// divided by the credits, pass/fail courses left out of both.
pub fn get_gpa_from_grades(grades: &Vec<CourseGrade>) -> (r: Result<GPA, SDKError>)
    ensures
        r is Ok == gpa_of_grades(grades_view(grades@)) is Some,
        r matches Ok(g) ==> Some(g) == gpa_of_grades(grades_view(grades@)),
        r matches Err(e) ==> e.kind == ErrorType::OtherError,
{
    let ghost gs = grades_view(grades@);
    let mut d: u32 = 0;
    let mut i: usize = 0;
    while i < grades.len()
        invariant
            gs == grades_view(grades@),
            i <= grades@.len(),
            d as nat == max_scale(gs.subrange(0, i as int)),
        decreases grades.len() - i,
    {
        let ghost next = gs.subrange(0, i + 1);
        assert(next.drop_last() =~= gs.subrange(0, i as int));
        assert(next.last() == grades@[i as int]@);
        if !same_text(grades[i].grade.as_str(), "P") && grades[i].credit.scale > d {
            d = grades[i].credit.scale;
        }
        i = i + 1;
    }
    assert(gs.subrange(0, i as int) =~= gs);
    let ghost dd = d as nat;
    let mut points: u128 = 0;
    let mut credits: u128 = 0;
    let mut i: usize = 0;
    while i < grades.len()
        invariant
            gs == grades_view(grades@),
            i <= grades@.len(),
            dd == max_scale(gs),
            dd == d as nat,
            points == cap(weighted_points(gs.subrange(0, i as int), dd)),
            credits == cap(graded_credits(gs.subrange(0, i as int), dd)),
        decreases grades.len() - i,
    {
        let ghost next = gs.subrange(0, i + 1);
        assert(next.drop_last() =~= gs.subrange(0, i as int));
        assert(next.last() == grades@[i as int]@);
        if !same_text(grades[i].grade.as_str(), "P") {
            let s = grades[i].credit.scale;
            let g: u32 = if s <= d {
                d - s
            } else {
                0
            };
            let pw = pow10_capped(g);
            let units = mul_capped(grades[i].credit.units, pw, Ghost(pow10(g as nat)));
            assert(units == cap(credit_at(gs[i as int], dd)));
            let term = if units > u64::MAX as u128 {
                if grades[i].point == 0 {
                    0
                } else {
                    u64::MAX as u128 + 1
                }
            } else {
                mul_capped(grades[i].point, units, Ghost(credit_at(gs[i as int], dd)))
            };
            proof {
                let x = credit_at(gs[i as int], dd);
                let p = gs[i as int].point;
                if units > u64::MAX {
                    if p == 0 {
                        assert(p * x == 0) by (nonlinear_arith)
                            requires
                                p == 0,
                        ;
                    } else {
                        assert(p * x >= x) by (nonlinear_arith)
                            requires
                                p >= 1,
                        ;
                    }
                }
                assert(term == cap(p * x));
            }
            points = if points + term > u64::MAX as u128 {
                u64::MAX as u128 + 1
            } else {
                points + term
            };
            credits = if credits + units > u64::MAX as u128 {
                u64::MAX as u128 + 1
            } else {
                credits + units
            };
        }
        i = i + 1;
    }
    assert(gs.subrange(0, i as int) =~= gs);
    if points > u64::MAX as u128 || credits > (u64::MAX / 100) as u128 {
        return Err(SDKError::with_type(ErrorType::OtherError, String::from_str("sums out of range")));
    }
    Ok(
        GPA {
            gpa_num: points as u64,
            gpa_den: credits as u64 * 100,
            ranking: 0,
            total: 0,
            credits: Decimal { units: credits as u64, scale: d },
        },
    )
}

/// The cells of a row that hold more than whitespace, in order.
pub open spec fn non_blank(row: Seq<Seq<char>>) -> Seq<Seq<char>>
    decreases row.len(),
{
    if row.len() == 0 {
        row
    } else if blank(row.last()) {
        non_blank(row.drop_last())
    } else {
        non_blank(row.drop_last()).push(row.last())
    }
}

pub open spec fn tables_view(rows: Seq<Seq<Seq<char>>>) -> Seq<Seq<Seq<char>>> {
    rows.map_values(|r: Seq<Seq<char>>| non_blank(r))
}

/// A ranking row whose name cell starts with `*` belongs to another,
/// anonymized, student.
pub open spec fn anonymized(cell: Seq<char>) -> bool {
    cell.len() > 0 && cell[0] == '*'
}

/// The first of the first `n` rows that is not anonymized, or -1.
pub open spec fn own_row(t: Seq<Seq<Seq<char>>>, n: int) -> int
    decreases n,
{
    if n <= 0 {
        -1
    } else if own_row(t, n - 1) != -1 {
        own_row(t, n - 1)
    } else if !anonymized(t[n - 1][0]) {
        n - 1
    } else {
        -1
    }
}

/// Over the first `n` rows: how many share `major`, and the place among
/// them of the last row that is not anonymized (0 where there is none).
pub open spec fn rank_scan(t: Seq<Seq<Seq<char>>>, major: Seq<char>, n: int) -> (nat, nat)
    decreases n,
{
    if n <= 0 {
        (0, 0)
    } else {
        let p = rank_scan(t, major, n - 1);
        if t[n - 1][3] == major {
            (p.0 + 1, if !anonymized(t[n - 1][0]) { p.0 + 1 } else { p.1 })
        } else {
            p
        }
    }
}

/// The summary read from the ranking table (rows with their blank cells
/// dropped; cells: name, .., major in the fourth, average in the sixth,
/// credits in the seventh): the student's own row gives the average and
/// credits, and the rows of the same major give the rank. `None` where a
/// row is short, there is no own row, or its numbers are malformed.
pub open spec fn table_gpa(t: Seq<Seq<Seq<char>>>) -> Option<GPA> {
    let own = own_row(t, t.len() as int);
    if (forall|k: int| 0 <= k < t.len() ==> #[trigger] t[k].len() >= 4) && own != -1
        && t[own].len() >= 7 && decimal_of(t[own][5]) is Some && decimal_of(t[own][6]) is Some
        && pow10((decimal_of(t[own][5])->0).scale as nat) <= u64::MAX {
        let r = rank_scan(t, t[own][3], t.len() as int);
        Some(
            GPA {
                gpa_num: (decimal_of(t[own][5])->0).units,
                gpa_den: pow10((decimal_of(t[own][5])->0).scale as nat) as u64,
                ranking: r.1 as u64,
                total: r.0 as u64,
                credits: decimal_of(t[own][6])->0,
            },
        )
    } else {
        None
    }
}

/// The cells of a row that hold more than whitespace.
pub fn filter_blank(row: &Vec<String>) -> (r: Vec<String>)
    ensures
        strings_view(r@) == non_blank(strings_view(row@)),
{
    let mut out: Vec<String> = Vec::new();
    let mut i: usize = 0;
    while i < row.len()
        invariant
            i <= row@.len(),
            strings_view(out@) == non_blank(strings_view(row@).subrange(0, i as int)),
        decreases row.len() - i,
    {
        let ghost prev = strings_view(out@);
        assert(strings_view(row@).subrange(0, i + 1).drop_last() =~= strings_view(row@).subrange(
            0,
            i as int,
        ));
        assert(strings_view(row@).subrange(0, i + 1).last() == row@[i as int]@);
        if !is_blank(row[i].as_str()) {
            out.push(row[i].clone());
            assert(strings_view(out@) =~= prev.push(row@[i as int]@));
        }
        i = i + 1;
    }
    assert(strings_view(row@).subrange(0, i as int) =~= strings_view(row@));
    out
}

fn starts_with_star(s: &String) -> (r: bool)
    ensures
        r == anonymized(s@),
{
    let t = chars_of(s.as_str());
    t.len() > 0 && t[0] == '*'
}

/// The summary read from the ranking table's rows of text cells.
pub fn get_gpa_from_table(rows: &Vec<Vec<String>>) -> (r: Result<GPA, SDKError>)
    ensures
        r is Ok == table_gpa(tables_view(rows_view(rows@))) is Some,
        r matches Ok(g) ==> Some(g) == table_gpa(tables_view(rows_view(rows@))),
        r matches Err(e) ==> e.kind == ErrorType::ParseError || e.kind == ErrorType::NoneError,
{
    let ghost t = tables_view(rows_view(rows@));
    let mut table: Vec<Vec<String>> = Vec::new();
    let mut i: usize = 0;
    while i < rows.len()
        invariant
            i <= rows@.len(),
            t == tables_view(rows_view(rows@)),
            table@.len() == i,
            forall|k: int| 0 <= k < i ==> #[trigger] strings_view(table@[k]@) == t[k],
        decreases rows.len() - i,
    {
        table.push(filter_blank(&rows[i]));
        i = i + 1;
    }
    assert(forall|k: int| 0 <= k < t.len() ==> #[trigger] rows_view(table@)[k] == t[k]);
    assert(rows_view(table@) =~= t);
    let mut own: Option<usize> = None;
    let mut k: usize = 0;
    while k < table.len()
        invariant
            k <= table@.len() == t.len(),
            rows_view(table@) == t,
            t == tables_view(rows_view(rows@)),
            forall|m: int| 0 <= m < k ==> #[trigger] t[m].len() >= 4,
            match own {
                Some(o) => o < k && own_row(t, k as int) == o,
                None => own_row(t, k as int) == -1,
            },
        decreases table.len() - k,
    {
        if table[k].len() < 4 {
            assert(t[k as int] == strings_view(table@[k as int]@));
            assert(!(forall|m: int| 0 <= m < t.len() ==> #[trigger] t[m].len() >= 4)) by {
                assert(t[k as int].len() < 4);
            }
            return Err(SDKError::with_type(ErrorType::ParseError, String::from_str("short row in gpa table")));
        }
        assert(t[k as int] == strings_view(table@[k as int]@));
        if own.is_none() && !starts_with_star(&table[k][0]) {
            assert(t[k as int][0] == table@[k as int]@[0]@);
            own = Some(k);
        } else {
            proof {
                if own is None {
                    assert(t[k as int][0] == table@[k as int]@[0]@);
                }
            }
        }
        k = k + 1;
    }
    let o = match own {
        Some(o) => o,
        None => {
            return Err(SDKError::with_type(ErrorType::NoneError, String::from_str("own row not found")));
        },
    };
    if table[o].len() < 7 {
        return Err(SDKError::with_type(ErrorType::ParseError, String::from_str("short own row")));
    }
    assert(t[o as int][5] == table@[o as int]@[5]@ && t[o as int][6] == table@[o as int]@[6]@);
    let gpa = match parse_decimal(table[o][5].as_str()) {
        Some(v) => v,
        None => return Err(SDKError::with_type(ErrorType::ParseError, String::from_str("parse gpa error"))),
    };
    let credits = match parse_decimal(table[o][6].as_str()) {
        Some(v) => v,
        None => return Err(SDKError::with_type(ErrorType::ParseError, String::from_str("parse credits error"))),
    };
    let den = pow10_capped(gpa.scale);
    if den > u64::MAX as u128 {
        return Err(SDKError::with_type(ErrorType::ParseError, String::from_str("parse gpa error")));
    }
    let ghost major = t[o as int][3];
    assert(major == table@[o as int]@[3]@);
    let mut total: u64 = 0;
    let mut ranking: u64 = 0;
    let mut j: usize = 0;
    while j < table.len()
        invariant
            j <= table@.len() == t.len(),
            t == tables_view(rows_view(rows@)),
            o < table@.len(),
            table@[o as int]@.len() >= 7,
            rows_view(table@) == t,
            major == table@[o as int]@[3]@,
            forall|m: int| 0 <= m < t.len() ==> #[trigger] t[m].len() >= 4,
            (total as nat, ranking as nat) == rank_scan(t, major, j as int),
            total <= j,
        decreases table.len() - j,
    {
        assert(t[j as int] == strings_view(table@[j as int]@));
        assert(t[j as int].len() >= 4);
        assert(t[j as int][3] == table@[j as int]@[3]@ && t[j as int][0] == table@[j as int]@[0]@);
        if table[j][3] == table[o][3] {
            total = total + 1;
            if !starts_with_star(&table[j][0]) {
                ranking = total;
            }
        }
        j = j + 1;
    }
    Ok(GPA { gpa_num: gpa.units, gpa_den: den as u64, ranking, total, credits })
}

/// The table's summary where there is one, else the recomputed one, else
/// zero.
pub open spec fn gpa_choice(table: Option<GPA>, grades: Option<GPA>) -> GPA {
    match table {
        Some(g) => g,
        None => match grades {
            Some(g) => g,
            None => zero_gpa(),
        },
    }
}

/// The table's summary where it was read, else the recomputed one, else
/// zero.
pub fn choose_gpa(table: Result<GPA, SDKError>, grades: Result<GPA, SDKError>) -> (r: GPA)
    ensures
        r == gpa_choice(
            match table {
                Ok(g) => Some(g),
                Err(_) => None,
            },
            match grades {
                Ok(g) => Some(g),
                Err(_) => None,
            },
        ),
{
    match table {
        Ok(g) => g,
        Err(_) => match grades {
            Ok(g) => g,
            Err(_) => GPA { gpa_num: 0, gpa_den: 0, ranking: 0, total: 0, credits: Decimal { units: 0, scale: 0 } },
        },
    }
}

/// The grade-point summary: from the ranking table's rows where they give
/// one, else recomputed from the grades, else zero.
pub fn get_gpa(table_rows: &Vec<Vec<String>>, grades: &Vec<CourseGrade>) -> (r: GPA)
    ensures
        r == gpa_choice(
            table_gpa(tables_view(rows_view(table_rows@))),
            gpa_of_grades(grades_view(grades@)),
        ),
{
    choose_gpa(get_gpa_from_table(table_rows), get_gpa_from_grades(grades))
}

/// Where the ranking table gives no summary, the result is the one
/// recomputed from the grades: point times credits over credits, with
/// pass/fail courses out of both sums.
pub proof fn lemma_gpa_fallback(table: Seq<Seq<Seq<char>>>, grades: Seq<GradeView>)
    requires
        table_gpa(table) is None,
        gpa_of_grades(grades) is Some,
    ensures
        gpa_choice(table_gpa(table), gpa_of_grades(grades)) == gpa_of_grades(grades)->0,
        gpa_choice(table_gpa(table), gpa_of_grades(grades)).gpa_num == weighted_points(
            grades,
            max_scale(grades),
        ),
        gpa_choice(table_gpa(table), gpa_of_grades(grades)).gpa_den == 100 * graded_credits(
            grades,
            max_scale(grades),
        ),
{
}

/// The grades listed on the records portal's grade page.
pub fn get_all_grades(html: &str) -> (r: Result<Vec<CourseGrade>, SDKError>)
    ensures
        r is Ok ==> selector_ok(TABLE_ROWS@),
        r matches Ok(v) ==> v@.len() == text_runs(html@, TABLE_ROWS@).len() && forall|k: int|
            0 <= k < v@.len() ==> Some(#[trigger] v@[k]@) == grade_of_row(
                text_runs(html@, TABLE_ROWS@)[k],
            ),
        selector_ok(TABLE_ROWS@) && (forall|k: int|
            0 <= k < text_runs(html@, TABLE_ROWS@).len() ==> grade_of_row(
                #[trigger] text_runs(html@, TABLE_ROWS@)[k],
            ) is Some) ==> r is Ok,
        r matches Err(e) ==> e.kind == ErrorType::ParseError,
{
    match select_text(html, TABLE_ROWS) {
        Some(rows) => parse_grades(&rows),
        None => Err(SDKError::with_type(ErrorType::ParseError, String::from_str("bad selector"))),
    }
}

/// The summary read from the ranking table page.
pub fn get_gpa_from_jwfw(html: &str) -> (r: Result<GPA, SDKError>)
    ensures
        r is Ok ==> selector_ok(TABLE_ROWS@),
        r matches Ok(g) ==> Some(g) == table_gpa(tables_view(text_runs(html@, TABLE_ROWS@))),
        selector_ok(TABLE_ROWS@) && table_gpa(tables_view(text_runs(html@, TABLE_ROWS@))) is Some
            ==> r is Ok,
{
    match select_text(html, TABLE_ROWS) {
        Some(rows) => get_gpa_from_table(&rows),
        None => Err(SDKError::with_type(ErrorType::ParseError, String::from_str("bad selector"))),
    }
}

} // verus!
