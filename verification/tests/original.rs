use jlucourse::enroll::{classify_enroll, next_pending};
use jlucourse::status::{log_kind, split_tag, status_kind};
use jlucourse::upstream::is_allowed_upstream;

#[test]
fn allows_only_https_jlu_host() {
    assert!(is_allowed_upstream(
        "https://icourses.jlu.edu.cn/xsxk/elective/clazz/add"
    ));
    assert!(is_allowed_upstream(
        "https://icourses.jlu.edu.cn/xsxk/auth/login"
    ));

    assert!(!is_allowed_upstream("http://icourses.jlu.edu.cn/x"));
    assert!(!is_allowed_upstream("https://evil.com/"));
    assert!(!is_allowed_upstream(
        "https://icourses.jlu.edu.cn.evil.com/"
    ));
    assert!(!is_allowed_upstream(
        "https://user@icourses.jlu.edu.cn.evil.com/"
    ));
    assert!(!is_allowed_upstream("file:///etc/passwd"));
    assert!(!is_allowed_upstream("not a url"));
}

#[test]
fn next_pending_skips_done_and_wraps() {
    assert_eq!(next_pending(0, &[false, false, false]), Some(0));
    assert_eq!(next_pending(1, &[false, false, false]), Some(1));
    assert_eq!(next_pending(0, &[true, false, true]), Some(1));
    assert_eq!(next_pending(2, &[false, true, true]), Some(0));
    assert_eq!(next_pending(5, &[true, false]), Some(1));
    assert_eq!(next_pending(0, &[true, true]), None);
    assert_eq!(next_pending(0, &[]), None);
}

#[test]
fn classify_enroll_terminal_and_retry_states() {
    let s = classify_enroll(200, "", false);
    assert_eq!((s.label, s.stop_self, s.fatal), ("选课成功", true, false));
    let s = classify_enroll(500, "该课程已在选课结果中", true);
    assert_eq!((s.label, s.stop_self, s.fatal), ("已选", true, false));

    let s = classify_enroll(500, "课容量已满", false);
    assert_eq!((s.label, s.stop_self, s.fatal), ("已满", true, false));
    let s = classify_enroll(500, "课容量已满", true);
    assert_eq!((s.label, s.stop_self, s.fatal), ("等待中", false, false));

    let s = classify_enroll(500, "本轮次选课暂未开始", true);
    assert_eq!((s.label, s.stop_self, s.fatal), ("未开始", false, false));
    let s = classify_enroll(500, "参数校验不通过", true);
    assert_eq!((s.label, s.stop_self, s.fatal), ("参数错误", false, false));
    let s = classify_enroll(500, "天降陨石", true);
    assert_eq!((s.label, s.stop_self, s.fatal), ("失败", false, false));

    let s = classify_enroll(401, "", true);
    assert_eq!((s.label, s.stop_self, s.fatal), ("未登录", true, true));
}

#[test]
fn status_kind_maps_login_states() {
    assert_eq!(status_kind("登录成功！"), "success");
    assert_eq!(status_kind("获取课程成功"), "success");
    assert_eq!(status_kind("登录失败：xxx"), "error");
    assert_eq!(status_kind("获取验证码失败"), "error");
    assert_eq!(status_kind("请输入学号"), "warning");
    assert_eq!(status_kind("请重新登录"), "warning");
    assert_eq!(status_kind("请登录"), "warning");
    assert_eq!(status_kind("正在设置批次..."), "loading");
    assert_eq!(status_kind("获取课程列表"), "loading");
    assert_eq!(status_kind(""), "idle");
}

#[test]
fn log_kind_maps_course_states() {
    assert_eq!(log_kind("[高数]选课成功"), "success");
    assert_eq!(log_kind("[高数]已选"), "success");
    assert_eq!(log_kind("[高数]等待中"), "wait");
    assert_eq!(log_kind("[高数]未开始"), "wait");
    assert_eq!(log_kind("[高数]请求错误"), "error");
    assert_eq!(log_kind("[高数]已满"), "error");
    assert_eq!(log_kind("[高数]未登录"), "error");
    assert_eq!(log_kind("[高数]参数错误"), "error");
    assert_eq!(log_kind("[高数]失败"), "error");
    assert_eq!(log_kind("[高数]进行中"), "info");
}

#[test]
fn split_tag_separates_bracket_prefix() {
    assert_eq!(
        split_tag("[高数]选课成功"),
        ("[高数]".to_string(), "选课成功".to_string())
    );
    assert_eq!(split_tag("[A] msg"), ("[A]".to_string(), "msg".to_string()));
    assert_eq!(split_tag("[空]"), ("[空]".to_string(), String::new()));
    assert_eq!(
        split_tag("no bracket"),
        (String::new(), "no bracket".to_string())
    );
}
