use jlucourse::fallback::official_fallback_script;
use jlucourse::forward::{
    plan_get_request, plan_upstream_request, reply_kind, upstream_reply, GetRejection, HeaderField, ProxyRejection,
    ProxyRequest, ReplyKind,
};
use jlucourse::upstream::{get_upstream_url, upstream_allowed};

fn request(url: &str) -> ProxyRequest {
    ProxyRequest {
        original_url: url.to_string(),
        batch_id: None,
        class_type: None,
        class_id: None,
        secret_val: None,
        params: None,
        loginname: None,
        password: None,
        captcha: None,
        uuid: None,
    }
}

fn pairs(v: &[(&str, &str)]) -> Vec<(String, String)> {
    v.iter().map(|(a, b)| (a.to_string(), b.to_string())).collect()
}

const UA: &str = "Mozilla/5.0 (Windows NT 10.0; Win64; x64) AppleWebKit/537.36 (KHTML, like Gecko) Chrome/139.0.0.0 Safari/537.36";

#[test]
fn allow_list_decides_on_scheme_and_exact_host() {
    let ok = Some(("https".to_string(), Some("icourses.jlu.edu.cn".to_string())));
    assert!(upstream_allowed(&ok));
    assert!(!upstream_allowed(&None));
    assert!(!upstream_allowed(&Some(("https".to_string(), None))));
    assert!(!upstream_allowed(&Some(("http".to_string(), Some("icourses.jlu.edu.cn".to_string())))));
    assert!(!upstream_allowed(&Some(("https".to_string(), Some("icourses.jlu.edu.cn.".to_string())))));
}

#[test]
fn allow_list_normalizes_through_the_parser() {
    // the parser lowercases scheme and host before the comparison
    assert!(jlucourse::upstream::is_allowed_upstream("HTTPS://ICOURSES.JLU.EDU.CN/xsxk"));
    assert!(!jlucourse::upstream::is_allowed_upstream("https://icourses.jlu.edu.cn:8443.evil/"));
}

#[test]
fn get_endpoints_map_to_upstream_urls() {
    assert_eq!(
        get_upstream_url("profile/index.html", "a=1"),
        Some("https://icourses.jlu.edu.cn/xsxk/profile/index.html".to_string())
    );
    assert_eq!(
        get_upstream_url("elective/grablessons", "batchId=7&x=y"),
        Some("https://icourses.jlu.edu.cn/xsxk/elective/grablessons?batchId=7&x=y".to_string())
    );
    assert_eq!(get_upstream_url("elective/user", ""), None);
    assert_eq!(get_upstream_url("", ""), None);
}

#[test]
fn post_to_other_host_is_forbidden() {
    let r = plan_upstream_request(
        &request("https://evil.com/xsxk/elective/user"),
        &HeaderField::Invalid,
        &HeaderField::Absent,
        &HeaderField::Invalid,
    );
    assert_eq!(r.unwrap_err(), ProxyRejection::UpstreamNotAllowed);
}

#[test]
fn invalid_headers_are_rejected_in_order() {
    let req = request("https://icourses.jlu.edu.cn/xsxk/elective/user");
    let r = plan_upstream_request(&req, &HeaderField::Invalid, &HeaderField::Absent, &HeaderField::Invalid);
    assert_eq!(r.unwrap_err(), ProxyRejection::InvalidAuthorization);
    let r = plan_upstream_request(&req, &HeaderField::Absent, &HeaderField::Invalid, &HeaderField::Invalid);
    assert_eq!(r.unwrap_err(), ProxyRejection::InvalidBatchId);
    // an unreadable Connection header only means no keep-alive
    let r = plan_upstream_request(&req, &HeaderField::Absent, &HeaderField::Invalid, &HeaderField::Absent);
    let plan = r.unwrap();
    assert_eq!(plan.headers, pairs(&[("User-Agent", UA), ("Origin", "https://icourses.jlu.edu.cn")]));
}

#[test]
fn login_request_is_form_encoded() {
    let mut req = request("https://icourses.jlu.edu.cn/xsxk/auth/login");
    req.loginname = Some("2023 01".to_string());
    req.password = Some("p&w=d/+é".to_string());
    req.captcha = Some("ab*C".to_string());
    req.uuid = Some("u-1_2.3".to_string());
    req.batch_id = Some("B1".to_string());
    let plan = plan_upstream_request(
        &req,
        &HeaderField::Text("Bearer t".to_string()),
        &HeaderField::Text("Keep-Alive".to_string()),
        &HeaderField::Absent,
    )
    .unwrap();
    assert_eq!(plan.url, "https://icourses.jlu.edu.cn/xsxk/auth/login");
    assert_eq!(
        plan.body,
        Some("loginname=2023+01&password=p%26w%3Dd%2F%2B%C3%A9&captcha=ab*C&uuid=u-1_2.3".to_string())
    );
    assert_eq!(
        plan.headers,
        pairs(&[
            ("User-Agent", UA),
            ("Authorization", "Bearer t"),
            ("Connection", "keep-alive"),
            ("Origin", "https://icourses.jlu.edu.cn"),
            ("Content-Type", "application/x-www-form-urlencoded"),
        ])
    );
    assert!(plan.query.is_empty());
}

#[test]
fn batch_id_goes_into_the_body_only_for_the_user_endpoint() {
    let mut req = request("https://icourses.jlu.edu.cn/xsxk/elective/user");
    req.batch_id = Some("2024-2025-1".to_string());
    let plan = plan_upstream_request(&req, &HeaderField::Absent, &HeaderField::Absent, &HeaderField::Absent).unwrap();
    assert_eq!(plan.body, Some("batchId=2024-2025-1".to_string()));

    let mut req = request("https://icourses.jlu.edu.cn/xsxk/elective/clazz/add");
    req.batch_id = Some("2024-2025-1".to_string());
    let plan = plan_upstream_request(&req, &HeaderField::Absent, &HeaderField::Absent, &HeaderField::Absent).unwrap();
    assert_eq!(plan.body, None);
    assert!(!plan.headers.iter().any(|(n, _)| n == "Content-Type"));
}

#[test]
fn referer_is_set_for_the_class_list_with_a_batch_header() {
    let req = request("https://icourses.jlu.edu.cn/xsxk/sc/clazz/list");
    let plan = plan_upstream_request(
        &req,
        &HeaderField::Absent,
        &HeaderField::Text("close".to_string()),
        &HeaderField::Text("B7".to_string()),
    )
    .unwrap();
    assert_eq!(
        plan.headers,
        pairs(&[
            ("User-Agent", UA),
            ("Origin", "https://icourses.jlu.edu.cn"),
            ("Referer", "https://icourses.jlu.edu.cn/xsxk/profile/index.html?batchId=B7"),
        ])
    );
    let plan = plan_upstream_request(&req, &HeaderField::Absent, &HeaderField::Absent, &HeaderField::Absent).unwrap();
    assert!(!plan.headers.iter().any(|(n, _)| n == "Referer"));
}

#[test]
fn extra_params_override_class_fields() {
    let mut req = request("https://icourses.jlu.edu.cn/xsxk/elective/clazz/add");
    req.class_type = Some("XGKC".to_string());
    req.class_id = Some("C1".to_string());
    req.secret_val = Some("S".to_string());
    req.params = Some(pairs(&[("clazzId", "C2"), ("page", "3")]));
    let plan = plan_upstream_request(&req, &HeaderField::Absent, &HeaderField::Absent, &HeaderField::Absent).unwrap();
    assert_eq!(
        plan.query,
        pairs(&[("clazzType", "XGKC"), ("secretVal", "S"), ("clazzId", "C2"), ("page", "3")])
    );
}

#[test]
fn fallback_script_quotes_the_token() {
    assert_eq!(
        official_fallback_script(&"abc".to_string()),
        "try{window.sessionStorage.setItem('token', \"abc\");}catch(e){}"
    );
    assert_eq!(
        official_fallback_script(&"a\"b\\c\n\u{1}令牌');alert(1);//".to_string()),
        "try{window.sessionStorage.setItem('token', \"a\\\"b\\\\c\\n\\u0001令牌');alert(1);//\");}catch(e){}"
    );
}

#[test]
fn get_requests_check_endpoint_then_authorization() {
    assert_eq!(
        plan_get_request("elective/user", "", &HeaderField::Invalid).unwrap_err(),
        GetRejection::InvalidEndpoint
    );
    assert_eq!(
        plan_get_request("profile/index.html", "", &HeaderField::Invalid).unwrap_err(),
        GetRejection::InvalidAuthorization
    );
    let plan = plan_get_request("elective/grablessons", "x=1", &HeaderField::Text("tok".to_string())).unwrap();
    assert_eq!(plan.url, "https://icourses.jlu.edu.cn/xsxk/elective/grablessons?x=1");
    assert_eq!(plan.authorization, Some("tok".to_string()));
    let plan = plan_get_request("profile/index.html", "", &HeaderField::Absent).unwrap();
    assert_eq!(plan.authorization, None);
}

#[test]
fn repeated_extra_names_keep_their_last_value() {
    let mut req = request("https://icourses.jlu.edu.cn/xsxk/elective/clazz/add");
    req.class_id = Some("C1".to_string());
    req.params = Some(pairs(&[("a", "1"), ("clazzId", "C2"), ("a", "2"), ("b", "3")]));
    let plan = plan_upstream_request(&req, &HeaderField::Absent, &HeaderField::Absent, &HeaderField::Absent).unwrap();
    assert_eq!(plan.query, pairs(&[("clazzId", "C2"), ("a", "2"), ("b", "3")]));
}

#[test]
fn upstream_reply_is_json_only_when_it_parses() {
    assert_eq!(upstream_reply("{\"code\":200,\"msg\":\"ok\"}"), ReplyKind::Json);
    assert_eq!(upstream_reply("[1, 2]"), ReplyKind::Json);
    assert_eq!(upstream_reply("<html>not json</html>"), ReplyKind::Text);
    assert_eq!(upstream_reply(""), ReplyKind::Text);
    assert_eq!(reply_kind(true), ReplyKind::Json);
    assert_eq!(reply_kind(false), ReplyKind::Text);
}
