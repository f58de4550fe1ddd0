use std::collections::HashMap;

use fdu_sdk::error::ErrorType;
use fdu_sdk::session::{Session, SessionState};
use fdu_sdk::xk::{
    check_election_access, get_id, merge_amounts, normalize_json, operate_course_result,
    operation_form, profile_id_of, split_course_response, AmountInfo, Course, CourseQuery,
    XK_LOGIN_SUCCESS_URL,
};

#[test]
fn test_normalize_json() {
    const COURSE: &str = "[{id:698241,no:'ECON130003.01',name:'国际金融',teachDepartName:'经济学院',code:'ECON130003',credits:3.0,courseId:38081,examTime:'2022-12-27 08:30-10:30 第17周 星期二',examFormName:'闭卷',startWeek:1,endWeek:16,courseTypeId:7,courseTypeName:'专业必修课程',courseTypeCode:'03_01',scheduled:true,hasTextBook:false,period:54,weekHour:3.0,withdrawable:true,textbooks:'',teachers:'郑辉',campusCode:'H',campusName:'邯郸校区',remark:'',arrangeInfo:[{weekDay:2,weekState:'01111111111111111000000000000000000000000000000000000',startUnit:3,endUnit:5,weekStateDigest:'1-16',rooms:'H3208'}]},{id:698246,no:'ECON130004.02',name:'国际贸易',teachDepartName:'经济学院',code:'ECON130004',credits:3.0,courseId:38082,examTime:'2023-01-03 13:00-15:00 第18周 星期二',examFormName:'闭卷',startWeek:1,endWeek:16,courseTypeId:7,courseTypeName:'专业必修课程',courseTypeCode:'03_01',scheduled:true,hasTextBook:false,period:54,weekHour:3.0,withdrawable:true,textbooks:'',teachers:'程大中',campusCode:'H',campusName:'邯郸校区',remark:'',arrangeInfo:[{weekDay:1,weekState:'01111111111111111000000000000000000000000000000000000',startUnit:3,endUnit:5,weekStateDigest:'1-16',rooms:'H5102'}]},{id:698257,no:'ECON130022.01',name:'货币经济学',teachDepartName:'经济学院',code:'ECON130022',credits:3.0,courseId:38100,examTime:'2022-12-29 08:30-10:30 第17周 星期四',examFormName:'闭卷',startWeek:1,endWeek:16,courseTypeId:7,courseTypeName:'专业必修课程',courseTypeCode:'03_01',scheduled:true,hasTextBook:false,period:54,weekHour:3.0,withdrawable:true,textbooks:'',teachers:'田素华',campusCode:'H',campusName:'邯郸校区',remark:'',arrangeInfo:[{weekDay:4,weekState:'01111111111111111000000000000000000000000000000000000',startUnit:3,endUnit:5,weekStateDigest:'1-16',rooms:'HGX509'}]},{id:698251,no:'ECON130010.01',name:'当代中国经济',teachDepartName:'经济学院',code:'ECON130010',credits:3.0,courseId:38088,examTime:'2022-12-28 08:30-10:30 第17周 星期三',examFormName:'闭卷',startWeek:11,endWeek:16,courseTypeId:7,courseTypeName:'专业必修课程',courseTypeCode:'03_01',scheduled:true,hasTextBook:false,period:54,weekHour:3.0,withdrawable:true,textbooks:'',teachers:'陈钊,王永钦,张晏',campusCode:'H',campusName:'邯郸校区',remark:'国家级一流本科课程',arrangeInfo:[{weekDay:3,weekState:'00000011111000000000000000000000000000000000000000000',startUnit:3,endUnit:5,weekStateDigest:'6-10',rooms:'H4305'},{weekDay:3,weekState:'01111100000000000000000000000000000000000000000000000',startUnit:3,endUnit:5,weekStateDigest:'1-5',rooms:'H4305'},{weekDay:3,weekState:'00000000000111111000000000000000000000000000000000000',startUnit:3,endUnit:5,weekStateDigest:'11-16',rooms:'H4305'}]},{id:698260,no:'ECON130042.01',name:'税收学',teachDepartName:'经济学院',code:'ECON130042',credits:3.0,courseId:38120,examTime:'2022-12-28 13:00-15:00 第17周 星期三',examFormName:'闭卷',startWeek:1,endWeek:18,courseTypeId:7,courseTypeName:'专业必修课程',courseTypeCode:'03_01',scheduled:true,hasTextBook:false,period:54,weekHour:3.0,withdrawable:true,textbooks:'',teachers:'余显财',campusCode:'H',campusName:'邯郸校区',remark:'',arrangeInfo:[{weekDay:5,weekState:'01111111111111111000000000000000000000000000000000000',startUnit:3,endUnit:5,weekStateDigest:'1-16',rooms:'H6108'}]},{id:698266,no:'ECON130064.01',name:'博弈论',teachDepartName:'经济学院',code:'ECON130064',credits:3.0,courseId:38142,examTime:'2023-01-05 13:00-15:00 第18周 星期四',examFormName:'闭卷',startWeek:1,endWeek:16,courseTypeId:7,courseTypeName:'专业必修课程',courseTypeCode:'03_01',scheduled:true,hasTextBook:false,period:54,weekHour:3.0,withdrawable:true,textbooks:'',teachers:'朱弘鑫',campusCode:'H',campusName:'邯郸校区',remark:'',arrangeInfo:[{weekDay:4,weekState:'01111111111111111000000000000000000000000000000000000',startUnit:6,endUnit:8,weekStateDigest:'1-16',rooms:'H6212'}]},{id:698275,no:'ECON130128.01',name:'制度经济学',teachDepartName:'经济学院',code:'ECON130128',credits:3.0,courseId:38206,examTime:'2022-12-30 15:30-17:30 第17周 星期五',examFormName:'开卷',startWeek:1,endWeek:16,courseTypeId:12,courseTypeName:'专业选修课程',courseTypeCode:'03_02',scheduled:true,hasTextBook:false,period:54,weekHour:3.0,withdrawable:true,textbooks:'',teachers:'方钦',campusCode:'H',campusName:'邯郸校区',remark:'',arrangeInfo:[{weekDay:5,weekState:'01111111111111111000000000000000000000000000000000000',startUnit:6,endUnit:8,weekStateDigest:'1-16',rooms:'H6306'}]}]";
    const AMOUNT: &str = "{'698241':{sc:70,lc:100},'698246':{sc:89,lc:100},'698257':{sc:74,lc:85},'698251':{sc:85,lc:85},'698260':{sc:39,lc:40},'698266':{sc:93,lc:93},'698275':{sc:32,lc:32}}";
    let course_str = normalize_json(COURSE).unwrap();
    let amount_str = normalize_json(AMOUNT).unwrap();
    println!("{}\n{}", course_str, amount_str);

    let course: serde_json::Value = serde_json::from_str(&course_str).unwrap();
    let amount: HashMap<String, serde_json::Value> = serde_json::from_str(&amount_str).unwrap();
    println!("{:?}", course);
    println!("{:?}", amount);
    assert_eq!(course.as_array().unwrap().len(), 7);
    assert_eq!(course[0]["id"].as_i64(), Some(698241));
    assert_eq!(course[0]["name"].as_str(), Some("国际金融"));
    assert_eq!(amount["698251"]["lc"].as_i64(), Some(85));
}

#[test]
fn normalize_quotes_keys_and_strings() {
    assert_eq!(normalize_json("{id:1,no:'A.01'}").unwrap(), "{\"id\":1,\"no\":\"A.01\"}");
}

fn course(id: i32, no: &str, code: &str, name: &str) -> Course {
    Course {
        id,
        no: no.to_string(),
        code: code.to_string(),
        name: name.to_string(),
        amount: AmountInfo::default(),
    }
}

#[test]
fn id_of_first_matching_course() {
    let courses = vec![
        course(1, "ECON130003.01", "ECON130003", "国际金融"),
        course(2, "HIST119006.01", "HIST119006", "中国史前考古"),
        course(3, "HIST119006.02", "HIST119006", "中国史前考古"),
    ];
    let q = CourseQuery { name: "中国史前考古".to_string(), ..Default::default() };
    assert_eq!(get_id(&q, &courses).unwrap(), 2);
    let q = CourseQuery { no: "ECON130003.01".to_string(), ..Default::default() };
    assert_eq!(get_id(&q, &courses).unwrap(), 1);
    let q = CourseQuery { code: "NONE".to_string(), no: "x".to_string(), name: "y".to_string() };
    assert_eq!(get_id(&q, &courses).unwrap_err().kind, ErrorType::OtherError);
}

#[test]
fn operation_forms() {
    let sel = operation_form(698241, true);
    assert_eq!(
        sel,
        vec![
            ("optype".to_string(), "true".to_string()),
            ("operator0".to_string(), "698241:true:0".to_string()),
        ]
    );
    let drop = operation_form(-7, false);
    assert_eq!(drop[1].1, "-7:false");
    assert_eq!(drop[0].1, "false");
}

#[test]
fn operation_result_pages() {
    assert_eq!(operate_course_result("<div>\n 选课 成功 \n</div><div>x</div>").unwrap(), true);
    assert_eq!(operate_course_result("<div>人数已满</div>").unwrap(), false);
    assert_eq!(operate_course_result("<html><body></body></html>").unwrap_err().kind, ErrorType::ParseError);
}

#[test]
fn course_response_is_split_and_normalized() {
    let text = "var lessonJSONs = [{id:1,no:'A.01'}];\nvar lessonId2Counts = {'1':{sc:3,lc:10}};";
    let (c, a) = split_course_response(200, text).unwrap();
    assert_eq!(c, "[{\"id\":1,\"no\":\"A.01\"}]");
    assert_eq!(a, "{\"1\":{\"sc\":3,\"lc\":10}}");
}

#[test]
fn course_response_with_bad_status_is_network_error() {
    let e = split_course_response(502, "bad gateway").unwrap_err();
    assert_eq!(e.kind, ErrorType::NetworkError);
    assert_eq!(e.message, "status code: 502\ntext: bad gateway");
}

#[test]
fn course_response_without_lists_is_parse_error() {
    assert_eq!(split_course_response(200, "nothing").unwrap_err().kind, ErrorType::ParseError);
}

#[test]
fn amounts_are_merged_by_id() {
    let mut courses = vec![course(698241, "a", "b", "c"), course(5, "d", "e", "f")];
    let amounts = vec![
        ("698241".to_string(), AmountInfo { total: 100, selected: 70 }),
        ("698241".to_string(), AmountInfo { total: 1, selected: 1 }),
    ];
    merge_amounts(&mut courses, &amounts);
    assert_eq!(courses[0].amount, AmountInfo { total: 100, selected: 70 });
    assert_eq!(courses[1].amount, AmountInfo::default());
    assert_eq!(courses[0].no, "a");
}

#[test]
fn election_login_lands_exactly_on_home() {
    let mut s = Session::new();
    s.begin_login("u", "p");
    assert!(s.finish_login_at("https://xk.fudan.edu.cn/xk/home.action", XK_LOGIN_SUCCESS_URL).is_ok());
    assert_eq!(s.state(), SessionState::Authenticated);
}

#[test]
fn election_login_elsewhere_fails() {
    let mut s = Session::new();
    s.begin_login("u", "p");
    let e = s
        .finish_login_at("https://xk.fudan.edu.cn/xk/home.action;jsessionid=1", XK_LOGIN_SUCCESS_URL)
        .unwrap_err();
    assert_eq!(e.kind, ErrorType::LoginError);
    assert_eq!(s.state(), SessionState::Failed);
}

#[test]
fn election_access_needs_status_200() {
    assert!(check_election_access(200).is_ok());
    assert_eq!(check_election_access(302).unwrap_err().kind, ErrorType::LoginError);
}

#[test]
fn profile_id_from_page() {
    let page = r#"<form><input type="hidden" name="electionProfile.id" value="1500"><input type="hidden" value="9"></form>"#;
    assert_eq!(profile_id_of(page).unwrap(), 1500);
    let zero = r#"<input type="hidden" value="0">"#;
    assert_eq!(profile_id_of(zero).unwrap_err().kind, ErrorType::ParseError);
    assert_eq!(profile_id_of("<p>none</p>").unwrap_err().kind, ErrorType::ParseError);
    assert_eq!(profile_id_of(r#"<input type="hidden" value="+42">"#).unwrap(), 42);
    assert_eq!(profile_id_of(r#"<input type="hidden" value="-42">"#).unwrap(), -42);
    assert_eq!(profile_id_of(r#"<input type="hidden" value="-2147483648">"#).unwrap(), i32::MIN);
    assert!(profile_id_of(r#"<input type="hidden" value="2147483648">"#).is_err());
    assert!(profile_id_of(r#"<input type="hidden" value="-">"#).is_err());
}
