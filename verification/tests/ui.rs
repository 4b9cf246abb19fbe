use jlucourse::console::{
    abandon_enrollment_start, fallback_notice, fallback_target, is_enrolling, login_form_problem,
    manual_select_feedback, manual_select_target, navigate_back, request_enrollment_start, screen_after, Screen,
    ScreenEvent,
};
use jlucourse::enroll::SelectReply;
use jlucourse::state::{AppState, CourseInfo};
use jlucourse::status::split_tag;
use jlucourse::text::{str_contains, str_eq_ignore_ascii_case};
use jlucourse::toast::{show_toast, toast_class, toast_error, toast_info, toast_success, toast_warning, ToastStore, ToastType};

#[test]
fn toasts_are_dismissed_by_id() {
    let mut store = ToastStore::new();
    let a = toast_success(&mut store, "a".to_string());
    let b = toast_error(&mut store, "b".to_string());
    let c = toast_info(&mut store, "c".to_string());
    let d = toast_warning(&mut store, "d".to_string());
    assert_eq!((a, b, c, d), (0, 1, 2, 3));
    store.dismiss(b);
    let left: Vec<(u32, String, ToastType)> =
        store.toasts.iter().map(|t| (t.id, t.message.clone(), t.toast_type)).collect();
    assert_eq!(
        left,
        vec![
            (0, "a".to_string(), ToastType::Success),
            (2, "c".to_string(), ToastType::Info),
            (3, "d".to_string(), ToastType::Warning)
        ]
    );
    store.dismiss(99);
    assert_eq!(store.toasts.len(), 3);
    let e = show_toast(&mut store, "e".to_string(), ToastType::Info);
    assert_eq!(e, 4);
    store.dismiss(e);
    assert_eq!(store.toasts.len(), 3);
}

#[test]
fn toast_ids_wrap_round() {
    let mut store = ToastStore::new();
    store.next_id = u32::MAX;
    assert_eq!(toast_info(&mut store, "x".to_string()), u32::MAX);
    assert_eq!(store.next_id, 0);
}

#[test]
fn toast_classes_follow_the_kind() {
    assert_eq!(toast_class(ToastType::Success), "toast toast--success");
    assert_eq!(toast_class(ToastType::Error), "toast toast--error");
    assert_eq!(toast_class(ToastType::Info), "toast toast--info");
    assert_eq!(toast_class(ToastType::Warning), "toast toast--warning");
}

#[test]
fn login_form_reports_first_empty_field() {
    assert_eq!(login_form_problem("", "", ""), Some("请输入学号"));
    assert_eq!(login_form_problem("1", "", ""), Some("请输入密码"));
    assert_eq!(login_form_problem("1", "2", ""), Some("请输入验证码"));
    assert_eq!(login_form_problem("1", "2", "3"), None);
}

#[test]
fn back_button_moves_one_screen() {
    let mut st = AppState::new();
    st.token = Some("t".to_string());
    st.batch_id = Some("b".to_string());
    let step = navigate_back(&mut st, Screen::Console).unwrap();
    assert_eq!((step.screen, step.status, step.notice), (Screen::Batches, "请重新选择批次", "已返回批次选择"));
    assert_eq!(step.screen.number(), 2);
    assert_eq!(st.token, Some("t".to_string()));
    assert_eq!(st.batch_id, None);
    let step = navigate_back(&mut st, Screen::Batches).unwrap();
    assert_eq!((step.screen, step.status, step.notice), (Screen::Login, "请重新登录", "已返回登录页面"));
    assert_eq!(step.screen.number(), 1);
    assert_eq!(st.token, None);
    assert!(navigate_back(&mut st, Screen::Login).is_none());
}

#[test]
fn manual_selection_needs_a_session() {
    let mut st = AppState::new();
    assert_eq!(manual_select_target(&st), Err("未登录，请先登录"));
    st.token = Some("t".to_string());
    assert_eq!(manual_select_target(&st), Err("请先选择批次"));
    st.batch_id = Some("b".to_string());
    assert_eq!(manual_select_target(&st), Ok(("t".to_string(), "b".to_string())));
}

#[test]
fn manual_selection_reports_by_outcome() {
    let ok = manual_select_feedback("高数", &SelectReply::Answered { code: 200, msg: String::new() });
    assert_eq!(ok, ("[高数]选课成功".to_string(), ToastType::Success));
    let full = manual_select_feedback("高数", &SelectReply::Answered { code: 500, msg: "课容量已满".to_string() });
    assert_eq!(full, ("[高数]等待中".to_string(), ToastType::Info));
    let gone = manual_select_feedback("高数", &SelectReply::Answered { code: 401, msg: String::new() });
    assert_eq!(gone, ("[高数]未登录".to_string(), ToastType::Error));
    let failed = manual_select_feedback("高数", &SelectReply::RequestFailed);
    assert_eq!(failed, ("[高数]请求错误".to_string(), ToastType::Error));
}

#[test]
fn fallback_notice_follows_what_opened() {
    assert_eq!(fallback_notice(true, false).0, ToastType::Info);
    assert_eq!(fallback_notice(false, true).0, ToastType::Warning);
    assert_eq!(fallback_notice(false, false), (ToastType::Error, "无法打开官方网站"));
}

#[test]
fn text_helpers_match_std() {
    assert!(str_contains("获取验证码失败", "失败"));
    assert!(str_contains("abc", ""));
    assert!(!str_contains("ab", "abc"));
    assert!(str_eq_ignore_ascii_case("Keep-ALIVE", "keep-alive"));
    assert!(!str_eq_ignore_ascii_case("Keep-alivé", "keep-alive"));
    for s in ["[A]\u{3000}\t msg ", "[x]", "a]b", "]", " [A]  x", "[A]\u{85}\u{2009}y"] {
        let expected = match s.find(']') {
            Some(i) => (s[..=i].to_string(), s[i + 1..].trim_start().to_string()),
            None => (String::new(), s.to_string()),
        };
        assert_eq!(split_tag(s), expected);
    }
}

#[test]
fn back_button_resets_courses_and_progress() {
    let c = CourseInfo {
        KCM: "高数".to_string(),
        JXBID: "1".to_string(),
        SKJS: "T".to_string(),
        teaching_class_type: None,
        secret_val: None,
    };
    let mut st = AppState::new();
    st.token = Some("t".to_string());
    st.batch_id = Some("b".to_string());
    st.set_courses(vec![c.clone()], vec![c.clone()]);
    st.enrollment_status.is_running = true;
    st.enrollment_status.total_requests = 7;
    st.enrollment_status.course_statuses = vec!["[高数]等待中".to_string()];
    st.run_epoch = 3;
    navigate_back(&mut st, Screen::Console).unwrap();
    assert!(st.selected_courses.is_empty() && st.favorite_courses.is_empty());
    assert!(!st.enrollment_status.is_running);
    assert_eq!(st.enrollment_status.total_requests, 0);
    assert!(st.enrollment_status.course_statuses.is_empty());
    assert_eq!(st.run_epoch, 3);
}

#[test]
fn screens_follow_the_flow() {
    let m = screen_after(Screen::Login, ScreenEvent::LoginSucceeded);
    assert_eq!((m.screen, m.renew_captcha), (Screen::Batches, false));
    let m = screen_after(Screen::Batches, ScreenEvent::BatchChosen);
    assert_eq!((m.screen, m.renew_captcha), (Screen::Console, false));
    assert_eq!(m.screen.number(), 3);
    let mut st = AppState::new();
    assert_eq!(request_enrollment_start(&mut st), Some("暂无收藏课程，请先到选课网站收藏想抢的课程"));
    assert!(!st.enrollment_status.is_running);
    st.favorite_courses = vec![CourseInfo {
        KCM: "高数".to_string(),
        JXBID: "1".to_string(),
        SKJS: "T".to_string(),
        teaching_class_type: None,
        secret_val: None,
    }];
    assert_eq!(request_enrollment_start(&mut st), None);
    assert!(st.enrollment_status.is_running);
    abandon_enrollment_start(&mut st);
    assert!(!st.enrollment_status.is_running);
}

#[test]
fn toast_ids_stay_distinct_after_dismissals() {
    let mut store = ToastStore::new();
    let a = toast_info(&mut store, "a".to_string());
    let b = toast_info(&mut store, "b".to_string());
    store.dismiss(a);
    let c = toast_info(&mut store, "c".to_string());
    let ids: Vec<u32> = store.toasts.iter().map(|t| t.id).collect();
    assert_eq!(ids, vec![b, c]);
    assert!(b < c && c < store.next_id);
}

#[test]
fn failed_login_stays_and_renews_the_captcha() {
    let m = screen_after(Screen::Login, ScreenEvent::LoginFailed);
    assert_eq!((m.screen, m.renew_captcha), (Screen::Login, true));
    let m = screen_after(Screen::Batches, ScreenEvent::BatchFailed);
    assert_eq!((m.screen, m.renew_captcha), (Screen::Batches, false));
    assert_eq!(screen_after(Screen::Console, ScreenEvent::Back).screen, Screen::Batches);
    assert_eq!(screen_after(Screen::Batches, ScreenEvent::Back).screen, Screen::Login);
    assert_eq!(screen_after(Screen::Login, ScreenEvent::Back).screen, Screen::Login);
    assert_eq!(screen_after(Screen::Console, ScreenEvent::LoginSucceeded).screen, Screen::Console);
    assert_eq!(Screen::Login.number(), 1);
}

#[test]
fn enrolling_follows_the_run_flag() {
    let mut st = AppState::new();
    assert!(!is_enrolling(&st));
    st.enrollment_status.is_running = true;
    assert!(is_enrolling(&st));
}

#[test]
fn fallback_needs_a_session() {
    let mut st = AppState::new();
    assert_eq!(fallback_target(&st), Err("请先登录后再使用兜底"));
    st.token = Some("tok".to_string());
    assert_eq!(fallback_target(&st), Ok("tok".to_string()));
}
