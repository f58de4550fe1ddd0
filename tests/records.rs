use fdu_sdk::error::ErrorType;
use fdu_sdk::grade::{
    choose_gpa, get_all_grades, get_gpa, get_gpa_from_grades, get_gpa_from_jwfw,
    get_gpa_from_table, grade_to_point, grades_of_this_semester, parse_grades, GPA,
};
use fdu_sdk::myfdu::get_myfdu_course_grade;
use fdu_sdk::text::Decimal;

fn dec(units: u64, scale: u32) -> Decimal {
    Decimal { units, scale }
}

fn zero() -> GPA {
    GPA { gpa_num: 0, gpa_den: 0, ranking: 0, total: 0, credits: dec(0, 0) }
}

fn row(cells: &[&str]) -> Vec<String> {
    cells.iter().map(|c| c.to_string()).collect()
}

fn grade_rows() -> Vec<Vec<String>> {
    vec![
        row(&["COMP130004.03", "2022-2023", "1", "数据结构", "3.0", "A"]),
        row(&["MATH120001.01", "2022-2023", "1", "数学分析", "2", "B+"]),
        row(&["PEDU110001.01", "2021-2022", "2", "体育", "1.0", "P"]),
    ]
}

#[test]
fn letter_grades_to_points() {
    assert_eq!(grade_to_point("A"), 400);
    assert_eq!(grade_to_point("A-"), 370);
    assert_eq!(grade_to_point("B+"), 330);
    assert_eq!(grade_to_point("C-"), 170);
    assert_eq!(grade_to_point("D"), 100);
    assert_eq!(grade_to_point("F"), 0);
    assert_eq!(grade_to_point("P"), 0);
    assert_eq!(grade_to_point("X"), 0);
}

#[test]
fn grade_rows_parse() {
    let gs = parse_grades(&grade_rows()).unwrap();
    assert_eq!(gs.len(), 3);
    assert_eq!(gs[0].code, "COMP130004.03");
    assert_eq!(gs[0].credit, dec(30, 1));
    assert_eq!(gs[0].point, 400);
    assert_eq!(gs[1].credit, dec(2, 0));
    assert_eq!(gs[1].point, 330);
    assert_eq!(gs[2].grade, "P");
}

#[test]
fn grade_row_with_bad_credit_is_parse_error() {
    let e = parse_grades(&vec![row(&["C", "2022", "1", "N", "three", "A"])]).unwrap_err();
    assert_eq!(e.kind, ErrorType::ParseError);
    let e = parse_grades(&vec![row(&["C", "2022", "1"])]).unwrap_err();
    assert_eq!(e.kind, ErrorType::ParseError);
}

#[test]
fn this_semester_is_the_leading_run() {
    let gs = parse_grades(&grade_rows()).unwrap();
    let now = grades_of_this_semester(&gs);
    assert_eq!(now.len(), 2);
    assert_eq!(now[1].name, "数学分析");
    assert!(grades_of_this_semester(&vec![]).is_empty());
}

#[test]
fn gpa_from_grades_leaves_out_pass_fail() {
    let gs = parse_grades(&grade_rows()).unwrap();
    let g = get_gpa_from_grades(&gs).unwrap();
    // credits at one decimal place: 3.0 is 30, 2 is 20
    assert_eq!(g.gpa_num, 400 * 30 + 330 * 20);
    assert_eq!(g.gpa_den, 100 * 50);
    assert_eq!(g.credits, dec(50, 1));
    assert_eq!(g.gpa_num * 100 / g.gpa_den, 372);
}

#[test]
fn gpa_of_no_grades_is_zero() {
    let g = get_gpa_from_grades(&vec![]).unwrap();
    assert_eq!(g, zero());
}

#[test]
fn gpa_from_grades_keeps_every_decimal() {
    let gs = parse_grades(&vec![
        row(&["A1", "2022", "1", "N", "2.25", "A"]),
        row(&["B1", "2022", "1", "M", "1.5", "B"]),
    ])
    .unwrap();
    let g = get_gpa_from_grades(&gs).unwrap();
    assert_eq!(g.credits, dec(375, 2));
    assert_eq!(g.gpa_num, 400 * 225 + 300 * 150);
    assert_eq!(g.gpa_den, 100 * 375);
}

fn ranking_rows() -> Vec<Vec<String>> {
    vec![
        row(&["*1", " ", "x", "y", "计算机", "z", "3.90", "120"]),
        row(&["*2", "x", "y", "经济", "z", "3.85", "100"]),
        row(&["张三", "x", "y", "计算机", "z", "3.80", "118.5"]),
        row(&["*4", "x", "y", "计算机", "z", "3.70", "110"]),
    ]
}

#[test]
fn gpa_from_table_reads_own_row_and_rank() {
    let g = get_gpa_from_table(&ranking_rows()).unwrap();
    assert_eq!(g.gpa_num, 380);
    assert_eq!(g.gpa_den, 100);
    assert_eq!(g.credits, dec(1185, 1));
    assert_eq!(g.ranking, 2);
    assert_eq!(g.total, 3);
}

#[test]
fn gpa_from_table_keeps_three_decimals() {
    let rows = vec![row(&["张三", "x", "y", "计算机", "z", "3.652", "118.25"])];
    let g = get_gpa_from_table(&rows).unwrap();
    assert_eq!(g.gpa_num, 3652);
    assert_eq!(g.gpa_den, 1000);
    assert_eq!(g.credits, dec(11825, 2));
    assert_eq!((g.ranking, g.total), (1, 1));
}

#[test]
fn gpa_from_empty_table_fails() {
    let e = get_gpa_from_table(&vec![]).unwrap_err();
    assert_eq!(e.kind, ErrorType::NoneError);
}

#[test]
fn gpa_falls_back_to_grades_when_table_is_empty() {
    let gs = parse_grades(&grade_rows()).unwrap();
    let g = get_gpa(&vec![], &gs);
    assert_eq!(g, get_gpa_from_grades(&gs).unwrap());
    assert_eq!(g.gpa_num, 18600);
    assert_eq!(g.gpa_den, 5000);
}

#[test]
fn gpa_prefers_table() {
    let gs = parse_grades(&grade_rows()).unwrap();
    let g = get_gpa(&ranking_rows(), &gs);
    assert_eq!(g.gpa_num, 380);
    assert_eq!(g.ranking, 2);
}

#[test]
fn gpa_is_zero_when_both_fail() {
    let a = get_gpa_from_table(&vec![]);
    let b = get_gpa_from_table(&vec![]);
    assert_eq!(choose_gpa(a, b), zero());
}

#[test]
fn grades_from_page() {
    let html = "<table><tbody><tr><td>COMP1</td><td>2022-2023</td><td>1</td><td>数据结构</td><td>3</td><td>A-</td></tr></tbody></table>";
    let gs = get_all_grades(html).unwrap();
    assert_eq!(gs.len(), 1);
    assert_eq!(gs[0].name, "数据结构");
    assert_eq!(gs[0].credit, dec(3, 0));
    assert_eq!(gs[0].point, 370);
}

#[test]
fn gpa_from_ranking_page() {
    let html = "<table><tbody>\
        <tr><td>*1</td><td>计算机</td><td>a</td><td>计算机</td><td>b</td><td>3.9</td><td>120</td></tr>\
        <tr><td>李四</td><td>计算机</td><td>a</td><td>计算机</td><td>b</td><td>3.5</td><td>100</td></tr>\
        </tbody></table>";
    let g = get_gpa_from_jwfw(html).unwrap();
    assert_eq!(g.gpa_num, 35);
    assert_eq!(g.gpa_den, 10);
    assert_eq!(g.ranking, 2);
    assert_eq!(g.total, 2);
    assert_eq!(g.credits, dec(100, 0));
}

#[test]
fn myfdu_grades_from_page() {
    let html = "<table id=\"dataTable_BksXxCj\"><tbody>\
        <tr><td>COMP1</td><td>2022-2023</td><td>1</td><td>数据结构</td><td>3.5</td><td>A</td><td>extra</td></tr>\
        </tbody></table>";
    let gs = get_myfdu_course_grade(html).unwrap();
    assert_eq!(gs.len(), 1);
    assert_eq!(gs[0].id, "COMP1");
    assert_eq!(gs[0].academic_year, "2022-2023");
    assert_eq!(gs[0].credits, dec(35, 1));
    assert_eq!(gs[0].grade, "A");
}

#[test]
fn myfdu_cells_are_read_as_text() {
    let html = "<table id=\"dataTable_BksXxCj\"><tbody>\
        <tr><td>C&amp;1</td><td>2022-2023</td><td>1</td><td><b>名</b>称</td><td>2</td><td>B</td></tr>\
        </tbody></table>";
    let gs = get_myfdu_course_grade(html).unwrap();
    assert_eq!(gs[0].id, "C&1");
    assert_eq!(gs[0].name, "名称");
}

#[test]
fn myfdu_short_row_is_parse_error() {
    let html = "<table id=\"dataTable_BksXxCj\"><tbody><tr><td>C</td><td>2022</td></tr></tbody></table>";
    assert_eq!(get_myfdu_course_grade(html).unwrap_err().kind, ErrorType::ParseError);
}

#[test]
fn grade_page_with_bad_credit_is_parse_error() {
    let html = "<table><tbody><tr><td>C</td><td>2022</td><td>1</td><td>N</td><td>x</td><td>A</td></tr></tbody></table>";
    assert_eq!(get_all_grades(html).unwrap_err().kind, ErrorType::ParseError);
}
