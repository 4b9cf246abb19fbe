use jlucourse::enroll::{
    begin_enrollment, claim_course, finish_worker, record_reply, reply_decision, status_line, stop_enrollment,
    worker_continues, worker_step, SelectReply, ENROLL_WORKERS,
};
use jlucourse::state::{AppError, AppState, BatchInfo, CourseInfo};

fn course(name: &str) -> CourseInfo {
    CourseInfo {
        KCM: name.to_string(),
        JXBID: format!("id-{name}"),
        SKJS: "老师".to_string(),
        teaching_class_type: Some("XGKC".to_string()),
        secret_val: None,
    }
}

fn logged_in() -> AppState {
    let mut st = AppState::new();
    st.apply_login("tok".to_string(), vec![BatchInfo { code: "B".to_string(), name: "n".to_string() }]);
    st.batch_id = Some("B".to_string());
    st
}

fn answered(code: i64, msg: &str) -> SelectReply {
    SelectReply::Answered { code, msg: msg.to_string() }
}

#[test]
fn no_course_means_nothing_to_do() {
    let mut st = AppState::new();
    assert!(matches!(begin_enrollment(&mut st, &vec![]), Ok(None)));
    assert!(!st.should_continue);
}

#[test]
fn run_needs_a_session() {
    let mut st = AppState::new();
    match begin_enrollment(&mut st, &vec![course("高数")]) {
        Err(AppError::ParseError(m)) => assert_eq!(m, "No token available"),
        other => panic!("{other:?}"),
    }
    st.token = Some("t".to_string());
    match begin_enrollment(&mut st, &vec![course("高数")]) {
        Err(AppError::ParseError(m)) => assert_eq!(m, "No batch id selected"),
        other => panic!("{other:?}"),
    }
    assert!(!st.should_continue && st.run_epoch == 0);
}

#[test]
fn starting_a_run_sets_every_course_waiting() {
    let mut st = logged_in();
    st.enrollment_status.total_requests = 9;
    let run = begin_enrollment(&mut st, &vec![course("高数"), course("线代")]).unwrap().unwrap();
    assert_eq!(run.token, "tok");
    assert_eq!(run.batch_id, "B");
    assert_eq!(run.epoch, 1);
    assert_eq!(run.done, vec![false, false]);
    assert_eq!(run.active, ENROLL_WORKERS);
    assert_eq!(st.run_epoch, 1);
    assert!(st.should_continue && st.enrollment_status.is_running);
    assert_eq!(st.enrollment_status.total_requests, 0);
    assert_eq!(st.enrollment_status.course_statuses, vec!["[高数]等待中".to_string(), "[线代]等待中".to_string()]);
    assert!(worker_continues(&st, 1));
    assert!(!worker_continues(&st, 0));
}

#[test]
fn run_number_wraps_round() {
    let mut st = logged_in();
    st.run_epoch = usize::MAX;
    let run = begin_enrollment(&mut st, &vec![course("高数")]).unwrap().unwrap();
    assert_eq!(run.epoch, 0);
    assert_eq!(st.run_epoch, 0);
}

#[test]
fn workers_share_the_cursor_and_skip_done_courses() {
    let mut st = logged_in();
    let mut run = begin_enrollment(&mut st, &vec![course("a"), course("b"), course("c")]).unwrap().unwrap();
    assert_eq!(claim_course(&mut run), Some(0));
    assert_eq!(claim_course(&mut run), Some(1));
    let d = reply_decision(&answered(200, ""), true);
    record_reply(&mut run, &mut st, 2, "c", &d);
    assert_eq!(claim_course(&mut run), Some(0));
    assert_eq!(run.cursor, 3);
    run.cursor = usize::MAX;
    assert_eq!(claim_course(&mut run), Some(0));
    assert_eq!(run.cursor, 0);
}

#[test]
fn success_stops_only_its_course() {
    let mut st = logged_in();
    let mut run = begin_enrollment(&mut st, &vec![course("高数"), course("线代")]).unwrap().unwrap();
    let d = reply_decision(&answered(200, "ok"), true);
    record_reply(&mut run, &mut st, 0, "高数", &d);
    assert_eq!(run.done, vec![true, false]);
    assert!(st.should_continue);
    assert_eq!(st.enrollment_status.course_statuses, vec!["[高数]选课成功".to_string(), "[线代]等待中".to_string()]);
    // a slower, non-final reply for the same course does not overwrite it
    let late = reply_decision(&SelectReply::RequestFailed, true);
    record_reply(&mut run, &mut st, 0, "高数", &late);
    assert_eq!(st.enrollment_status.course_statuses[0], "[高数]选课成功");
    // a non-final reply for a pending course updates its line
    let wait = reply_decision(&answered(500, "课容量已满"), true);
    record_reply(&mut run, &mut st, 1, "线代", &wait);
    assert_eq!(st.enrollment_status.course_statuses[1], "[线代]等待中");
    let full = reply_decision(&answered(500, "课容量已满"), false);
    record_reply(&mut run, &mut st, 1, "线代", &full);
    assert_eq!(st.enrollment_status.course_statuses[1], "[线代]已满");
    assert_eq!(run.done, vec![true, true]);
    assert_eq!(claim_course(&mut run), None);
}

#[test]
fn logged_out_reply_stops_every_worker() {
    let mut st = logged_in();
    let mut run = begin_enrollment(&mut st, &vec![course("高数"), course("线代")]).unwrap().unwrap();
    let d = reply_decision(&answered(401, ""), true);
    record_reply(&mut run, &mut st, 1, "线代", &d);
    assert!(!st.should_continue);
    assert!(!worker_continues(&st, run.epoch));
    assert_eq!(st.enrollment_status.course_statuses[1], "[线代]未登录");
}

#[test]
fn request_counter_saturates() {
    let mut st = logged_in();
    st.count_request();
    assert_eq!(st.enrollment_status.total_requests, 1);
    st.enrollment_status.total_requests = u64::MAX;
    st.count_request();
    assert_eq!(st.enrollment_status.total_requests, u64::MAX);
}

#[test]
fn last_worker_of_the_current_run_closes_it() {
    let mut st = logged_in();
    let mut run = begin_enrollment(&mut st, &vec![course("高数")]).unwrap().unwrap();
    for _ in 0..ENROLL_WORKERS - 1 {
        finish_worker(&mut run, &mut st);
        assert!(st.enrollment_status.is_running);
    }
    finish_worker(&mut run, &mut st);
    assert_eq!(run.active, 0);
    assert!(!st.enrollment_status.is_running && !st.should_continue);
}

#[test]
fn workers_of_an_old_run_leave_the_new_run_alone() {
    let mut st = logged_in();
    let mut old_run = begin_enrollment(&mut st, &vec![course("高数")]).unwrap().unwrap();
    stop_enrollment(&mut st);
    assert!(!worker_continues(&st, old_run.epoch));
    let new_run = begin_enrollment(&mut st, &vec![course("高数")]).unwrap().unwrap();
    assert!(!worker_continues(&st, old_run.epoch));
    assert!(worker_continues(&st, new_run.epoch));
    for _ in 0..ENROLL_WORKERS {
        finish_worker(&mut old_run, &mut st);
    }
    assert!(st.enrollment_status.is_running && st.should_continue);
}

#[test]
fn status_lines_put_the_course_in_brackets() {
    assert_eq!(status_line("高数", "已选"), "[高数]已选");
    assert_eq!(status_line("", ""), "[]");
}

#[test]
fn reply_to_an_old_run_changes_nothing() {
    let mut st = logged_in();
    let mut old_run = begin_enrollment(&mut st, &vec![course("高数")]).unwrap().unwrap();
    let _new_run = begin_enrollment(&mut st, &vec![course("线代"), course("英语")]).unwrap().unwrap();
    let before_lines = st.enrollment_status.course_statuses.clone();
    let d = reply_decision(&answered(401, ""), true);
    record_reply(&mut old_run, &mut st, 0, "高数", &d);
    assert!(st.should_continue);
    assert_eq!(st.enrollment_status.course_statuses, before_lines);
    assert_eq!(old_run.done, vec![false]);
}

#[test]
fn worker_steps_until_the_run_is_over() {
    let mut st = logged_in();
    let mut run = begin_enrollment(&mut st, &vec![course("高数"), course("线代")]).unwrap().unwrap();
    assert_eq!(worker_step(&mut run, &st), Some(0));
    assert_eq!(worker_step(&mut run, &st), Some(1));
    run.done = vec![true, true];
    let cursor = run.cursor;
    assert_eq!(worker_step(&mut run, &st), None);
    assert_eq!(run.cursor, cursor + 1);
    run.done = vec![false, false];
    stop_enrollment(&mut st);
    let cursor = run.cursor;
    assert_eq!(worker_step(&mut run, &st), None);
    assert_eq!(run.cursor, cursor);
    let mut active = run.active;
    while active > 0 {
        finish_worker(&mut run, &mut st);
        active -= 1;
    }
    assert_eq!(run.active, 0);
    assert!(!st.enrollment_status.is_running && !st.should_continue);
}
