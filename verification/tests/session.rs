use jlucourse::state::{
    course_list_reply, login_outcome, session_target, set_batch_target, AppError, AppState, BatchInfo, CourseInfo,
    CourseList,
};

fn batch(code: &str) -> BatchInfo {
    BatchInfo { code: code.to_string(), name: format!("批次{code}") }
}

fn course(name: &str) -> CourseInfo {
    CourseInfo {
        KCM: name.to_string(),
        JXBID: format!("id-{name}"),
        SKJS: "老师".to_string(),
        teaching_class_type: None,
        secret_val: None,
    }
}

fn parse_msg(e: AppError) -> String {
    match e {
        AppError::ParseError(m) => m,
        other => panic!("unexpected {other:?}"),
    }
}

#[test]
fn login_reply_yields_token_or_message() {
    let ok = login_outcome(Some(200), &Some("登录成功".to_string()), &Some("tok".to_string()));
    assert_eq!(ok.unwrap(), "tok");
    let missing = login_outcome(Some(200), &Some("登录成功".to_string()), &None);
    assert_eq!(parse_msg(missing.unwrap_err()), "Invalid token");
    let refused = login_outcome(Some(500), &Some("验证码错误".to_string()), &Some("tok".to_string()));
    assert_eq!(parse_msg(refused.unwrap_err()), "验证码错误");
    let other_msg = login_outcome(Some(200), &Some("ok".to_string()), &Some("tok".to_string()));
    assert_eq!(parse_msg(other_msg.unwrap_err()), "ok");
    let silent = login_outcome(None, &None, &None);
    assert_eq!(parse_msg(silent.unwrap_err()), "登录失败");
}

#[test]
fn set_batch_needs_token_and_index() {
    let mut st = AppState::new();
    assert_eq!(parse_msg(set_batch_target(&st, 0).unwrap_err()), "No token available");
    st.apply_login("t".to_string(), vec![batch("A"), batch("B")]);
    assert_eq!(set_batch_target(&st, 1).unwrap(), ("t".to_string(), "B".to_string()));
    assert_eq!(parse_msg(set_batch_target(&st, 2).unwrap_err()), "Invalid batch index");
}

#[test]
fn finish_set_batch_records_only_accepted_batches() {
    let mut st = AppState::new();
    st.apply_login("t".to_string(), vec![batch("A")]);
    let e = st.finish_set_batch("A".to_string(), Some(500)).unwrap_err();
    assert_eq!(parse_msg(e), "Failed to set batch");
    assert_eq!(st.batch_id, None);
    st.finish_set_batch("A".to_string(), Some(200)).unwrap();
    assert_eq!(st.batch_id, Some("A".to_string()));
}

#[test]
fn session_target_reports_the_missing_part() {
    let mut st = AppState::new();
    assert_eq!(parse_msg(session_target(&st).unwrap_err()), "No token available");
    st.token = Some("t".to_string());
    assert_eq!(parse_msg(session_target(&st).unwrap_err()), "No batch id selected");
    st.batch_id = Some("b".to_string());
    assert_eq!(session_target(&st).unwrap(), ("t".to_string(), "b".to_string()));
}

#[test]
fn course_list_reply_uses_server_or_default_message() {
    assert!(course_list_reply(CourseList::Selected, Some(200), &None).is_ok());
    match course_list_reply(CourseList::Selected, Some(500), &None) {
        Err(AppError::CourseError(m)) => assert_eq!(m, "获取已选课程失败"),
        other => panic!("{other:?}"),
    }
    match course_list_reply(CourseList::Favorite, None, &None) {
        Err(AppError::CourseError(m)) => assert_eq!(m, "获取收藏课程失败"),
        other => panic!("{other:?}"),
    }
    match course_list_reply(CourseList::Favorite, Some(401), &Some("未登录".to_string())) {
        Err(AppError::CourseError(m)) => assert_eq!(m, "未登录"),
        other => panic!("{other:?}"),
    }
}

#[test]
fn resets_forget_what_their_screen_no_longer_shows() {
    let mut st = AppState::new();
    st.apply_login("t".to_string(), vec![batch("A")]);
    st.batch_id = Some("A".to_string());
    st.set_courses(vec![course("高数")], vec![course("线代")]);
    st.should_continue = true;
    st.run_epoch = 4;
    let mut back = st.clone();
    back.reset_for_batch_selection();
    assert_eq!(back.token, Some("t".to_string()));
    assert_eq!(back.batch_list.len(), 1);
    assert_eq!(back.batch_id, None);
    assert!(back.selected_courses.is_empty() && back.favorite_courses.is_empty());
    assert!(!back.should_continue);
    assert_eq!(back.run_epoch, 4);
    st.reset_for_login();
    assert_eq!(st.token, None);
    assert!(st.batch_list.is_empty());
    assert_eq!(st.run_epoch, 4);
}

#[test]
fn session_steps_leave_the_run_status_alone() {
    let mut st = AppState::new();
    st.enrollment_status.is_running = true;
    st.enrollment_status.total_requests = 5;
    st.apply_login("t".to_string(), vec![batch("A")]);
    st.finish_set_batch("A".to_string(), Some(500)).unwrap_err();
    st.finish_set_batch("A".to_string(), Some(200)).unwrap();
    st.set_courses(vec![course("高数")], vec![]);
    assert!(st.enrollment_status.is_running);
    assert_eq!(st.enrollment_status.total_requests, 5);
}
