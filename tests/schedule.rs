use fdu_sdk::error::ErrorType;
use fdu_sdk::schedule::{decode_weeks, encode_weeks, parse_course_data};

const TWO_BLOCKS: &str = r#"<script>
activity = new TaskActivity("155165","陈彤兵","42071(COMP130004.03)","数据结构(COMP130004.03)","320","HGX304","01111111111011111000000000000000000000000000000000000");
index =2*unitCount+0;
table0.activities[index][table0.activities[index].length]=activity;
index =2*unitCount+1;
table0.activities[index][table0.activities[index].length]=activity;
index =2*unitCount+2;
table0.activities[index][table0.activities[index].length]=activity;
activity = new TaskActivity("155166","张三","42072(COMP130005.01)","算法(COMP130005.01)","301","H3409","00000000000100000000000000000000000000000000000000000");
index =1*unitCount+7;
table0.activities[index][table0.activities[index].length]=activity;
</script>"#;

#[test]
fn week_mask_decodes_to_marked_weeks() {
    assert_eq!(decode_weeks("0110100").unwrap(), vec![1, 2, 4]);
}

#[test]
fn week_mask_round_trip() {
    let weeks = decode_weeks("0110100").unwrap();
    assert_eq!(encode_weeks(&weeks, 7), "0110100");
}

#[test]
fn empty_week_mask() {
    assert_eq!(decode_weeks("").unwrap(), Vec::<i32>::new());
    assert_eq!(encode_weeks(&vec![], 3), "000");
}

#[test]
fn week_mask_with_other_character_is_parse_error() {
    let e = decode_weeks("01x1").unwrap_err();
    assert_eq!(e.kind, ErrorType::ParseError);
}

#[test]
fn encode_ignores_weeks_beyond_length() {
    assert_eq!(encode_weeks(&vec![0, 5, -1], 3), "100");
}

#[test]
fn two_blocks_give_two_activities_in_order() {
    let r = parse_course_data(TWO_BLOCKS);
    assert_eq!(r.len(), 2);
    let a = r[0].as_ref().unwrap();
    let b = r[1].as_ref().unwrap();
    assert_eq!(a.time().len(), 3);
    assert_eq!(b.time().len(), 1);
    assert_eq!(a.id(), "155165");
    assert_eq!(a.teacher(), "陈彤兵");
    assert_eq!(a.name_with_course_id(), "数据结构(COMP130004.03)");
    assert_eq!(a.classroom(), "HGX304");
    assert_eq!(a.time(), &[(2, 0), (2, 1), (2, 2)]);
    assert_eq!(a.weeks(), &[1, 2, 3, 4, 5, 6, 7, 8, 9, 10, 12, 13, 14, 15, 16]);
    assert_eq!(b.id(), "155166");
    assert_eq!(b.time(), &[(1, 7)]);
    assert_eq!(b.weeks(), &[11]);
}

#[test]
fn block_without_cells_has_no_slots() {
    let html = r#"activity = new TaskActivity("1","T","9(A.1)","N(A.1)","2","R","10");"#;
    let r = parse_course_data(html);
    assert_eq!(r.len(), 1);
    let a = r[0].as_ref().unwrap();
    assert!(a.time().is_empty());
    assert_eq!(a.weeks(), &[0]);
}

#[test]
fn store_statement_may_span_lines() {
    let html = "activity = new TaskActivity(\"1\",\"T\",\"9(A.1)\",\"N(A.1)\",\"2\",\"R\",\"01\");\nindex =3*unitCount+4;\ntable0.activities[index][table0.activities\n[index].length]=activity;";
    let r = parse_course_data(html);
    assert_eq!(r.len(), 1);
    assert_eq!(r[0].as_ref().unwrap().time(), &[(3, 4)]);
}

#[test]
fn malformed_mask_is_error_for_that_block_only() {
    let html = r#"activity = new TaskActivity("1","T","9(A.1)","N(A.1)","2","R","01a");
index =0*unitCount+1;
table0.activities[index][table0.activities[index].length]=activity;
activity = new TaskActivity("2","U","9(B.1)","M(B.1)","2","S","1");
index =4*unitCount+2;
table0.activities[index][table0.activities[index].length]=activity;"#;
    let r = parse_course_data(html);
    assert_eq!(r.len(), 2);
    assert_eq!(r[0].as_ref().unwrap_err().kind, ErrorType::ParseError);
    assert_eq!(r[1].as_ref().unwrap().time(), &[(4, 2)]);
}

#[test]
fn oversized_cell_number_is_error() {
    let html = r#"activity = new TaskActivity("1","T","9(A.1)","N(A.1)","2","R","1");
index =99999999999*unitCount+1;
table0.activities[index][table0.activities[index].length]=activity;"#;
    let r = parse_course_data(html);
    assert_eq!(r.len(), 1);
    assert!(r[0].is_err());
}

#[test]
fn page_without_activities_is_empty() {
    assert!(parse_course_data("<html><body>nothing here</body></html>").is_empty());
}
