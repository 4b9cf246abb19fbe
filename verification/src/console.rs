use vstd::prelude::*;

use crate::enroll::{reply_decision, reply_decision_spec, status_line, status_line_spec, SelectReply};
use crate::enroll::same_session;
use crate::state::AppState;
use crate::toast::ToastType;

verus! {

/// The first empty field of the login form, as the prompt to show.
pub open spec fn login_form_problem_spec(username: Seq<char>, password: Seq<char>, captcha: Seq<char>) -> Option<Seq<char>> {
    if username.len() == 0 {
        Some("请输入学号"@)
    } else if password.len() == 0 {
        Some("请输入密码"@)
    } else if captcha.len() == 0 {
        Some("请输入验证码"@)
    } else {
        None
    }
}

/// Checks the login form: the prompt for its first empty field, if any.
pub fn login_form_problem(username: &str, password: &str, captcha: &str) -> (r: Option<&'static str>)
    ensures
        r.deep_view() == login_form_problem_spec(username@, password@, captcha@),
{
    if username.is_empty() {
        Some("请输入学号")
    } else if password.is_empty() {
        Some("请输入密码")
    } else if captcha.is_empty() {
        Some("请输入验证码")
    } else {
        None
    }
}

/// The screens of the app.
#[derive(Debug, Clone, Copy, PartialEq, Eq)]
pub enum Screen {
    /// The login form.
    Login,
    /// The choice of an elective batch.
    Batches,
    /// The enrollment console.
    Console,
}

/// The number of a screen, as the page shows it: 1, 2 or 3.
pub open spec fn screen_number(screen: Screen) -> i32 {
    match screen {
        Screen::Login => 1,
        Screen::Batches => 2,
        Screen::Console => 3,
    }
}

impl Screen {
    /// The screen's number, 1 to 3.
    pub fn number(self) -> (n: i32)
        ensures
            n == screen_number(self),
            1 <= n <= 3,
    {
        match self {
            Screen::Login => 1,
            Screen::Batches => 2,
            Screen::Console => 3,
        }
    }
}

/// What happens on a screen.
#[derive(Debug, Clone, Copy, PartialEq, Eq)]
pub enum ScreenEvent {
    /// The login succeeded.
    LoginSucceeded,
    /// The login failed.
    LoginFailed,
    /// Setting the batch succeeded.
    BatchChosen,
    /// Setting the batch failed.
    BatchFailed,
    /// The back button was pressed.
    Back,
}

/// The screen after an event, and what the login form does.
#[derive(Debug, Clone, Copy, PartialEq, Eq)]
pub struct ScreenMove {
    /// The screen shown next.
    pub screen: Screen,
    /// The captcha field is cleared and a new captcha fetched.
    pub renew_captcha: bool,
}

/// The screen after `event` on `screen`: a successful login leads from the
/// login form to the batches, a successful batch choice from the batches to
/// the console, and back leads from the console to the batches and from
/// the batches to the login form; every other event stays. A failed login
/// renews the captcha, whose old answer is spent.
pub open spec fn screen_after_spec(screen: Screen, event: ScreenEvent) -> ScreenMove {
    match (screen, event) {
        (Screen::Login, ScreenEvent::LoginSucceeded) => ScreenMove { screen: Screen::Batches, renew_captcha: false },
        (Screen::Login, ScreenEvent::LoginFailed) => ScreenMove { screen: Screen::Login, renew_captcha: true },
        (Screen::Batches, ScreenEvent::BatchChosen) => ScreenMove { screen: Screen::Console, renew_captcha: false },
        (Screen::Batches, ScreenEvent::Back) => ScreenMove { screen: Screen::Login, renew_captcha: false },
        (Screen::Console, ScreenEvent::Back) => ScreenMove { screen: Screen::Batches, renew_captcha: false },
        _ => ScreenMove { screen, renew_captcha: false },
    }
}

/// Moves between screens on `event`.
pub fn screen_after(screen: Screen, event: ScreenEvent) -> (m: ScreenMove)
    ensures
        m == screen_after_spec(screen, event),
{
    match (screen, event) {
        (Screen::Login, ScreenEvent::LoginSucceeded) => ScreenMove { screen: Screen::Batches, renew_captcha: false },
        (Screen::Login, ScreenEvent::LoginFailed) => ScreenMove { screen: Screen::Login, renew_captcha: true },
        (Screen::Batches, ScreenEvent::BatchChosen) => ScreenMove { screen: Screen::Console, renew_captcha: false },
        (Screen::Batches, ScreenEvent::Back) => ScreenMove { screen: Screen::Login, renew_captcha: false },
        (Screen::Console, ScreenEvent::Back) => ScreenMove { screen: Screen::Batches, renew_captcha: false },
        _ => ScreenMove { screen, renew_captcha: false },
    }
}

/// The screen changes only along the flow: 1 to 2 on a successful login,
/// 2 to 3 on a successful batch choice, and back from 3 to 2 and from 2 to
/// 1; the screen number stays within 1 to 3.
pub proof fn lemma_screen_moves_only_along_the_flow(screen: Screen, event: ScreenEvent)
    ensures
        1 <= screen_number(screen_after_spec(screen, event).screen) <= 3,
        screen_after_spec(screen, event).screen != screen ==> {
            let next = screen_after_spec(screen, event).screen;
            ||| screen == Screen::Login && event == ScreenEvent::LoginSucceeded && next == Screen::Batches
            ||| screen == Screen::Batches && event == ScreenEvent::BatchChosen && next == Screen::Console
            ||| screen == Screen::Console && event == ScreenEvent::Back && next == Screen::Batches
            ||| screen == Screen::Batches && event == ScreenEvent::Back && next == Screen::Login
        },
        screen_after_spec(screen, event).renew_captcha <==> (screen == Screen::Login && event
            == ScreenEvent::LoginFailed),
{
}

/// The screen reached from `start` through `events`, in order.
pub open spec fn screen_through(start: Screen, events: Seq<ScreenEvent>) -> Screen
    decreases events.len(),
{
    if events.len() == 0 {
        start
    } else {
        screen_after_spec(screen_through(start, events.drop_last()), events.last()).screen
    }
}

/// From the login form, the batches are reached only after a successful
/// login, and the console only after a successful login followed by a
/// successful batch choice.
pub proof fn lemma_console_needs_login_then_batch(events: Seq<ScreenEvent>)
    ensures
        screen_through(Screen::Login, events) != Screen::Login ==> exists|i: int|
            0 <= i < events.len() && #[trigger] events[i] == ScreenEvent::LoginSucceeded,
        screen_through(Screen::Login, events) == Screen::Console ==> exists|i: int, j: int|
            0 <= i < j < events.len() && #[trigger] events[i] == ScreenEvent::LoginSucceeded && #[trigger] events[j]
                == ScreenEvent::BatchChosen,
    decreases events.len(),
{
    if events.len() > 0 {
        let rest = events.drop_last();
        let last = events.len() - 1;
        lemma_console_needs_login_then_batch(rest);
        let prev = screen_through(Screen::Login, rest);
        let now = screen_through(Screen::Login, events);
        if now != Screen::Login {
            if prev != Screen::Login {
                let i = choose|i: int| 0 <= i < rest.len() && #[trigger] rest[i] == ScreenEvent::LoginSucceeded;
                assert(events[i] == rest[i]);
            } else {
                assert(events[last] == ScreenEvent::LoginSucceeded);
            }
        }
        if now == Screen::Console {
            if prev == Screen::Console {
                let (i, j) = choose|i: int, j: int|
                    0 <= i < j < rest.len() && #[trigger] rest[i] == ScreenEvent::LoginSucceeded && #[trigger] rest[j]
                        == ScreenEvent::BatchChosen;
                assert(events[i] == rest[i] && events[j] == rest[j]);
            } else {
                assert(prev == Screen::Batches && events[last] == ScreenEvent::BatchChosen);
                let i = choose|i: int| 0 <= i < rest.len() && #[trigger] rest[i] == ScreenEvent::LoginSucceeded;
                assert(events[i] == rest[i]);
            }
        }
    }
}

/// Where the back button leads and what it says.
#[derive(Debug, Clone, Copy, PartialEq, Eq)]
pub struct BackStep {
    /// The screen shown next.
    pub screen: Screen,
    /// The new status line.
    pub status: &'static str,
    /// The notification shown.
    pub notice: &'static str,
}

/// The back button on `screen`: from the batches to the login form, with
/// the state reset as [`AppState::reset_for_login`] does; from the console
/// to the batches, with the state reset as
/// [`AppState::reset_for_batch_selection`] does; on the login form nothing.
pub fn navigate_back(state: &mut AppState, screen: Screen) -> (r: Option<BackStep>)
    ensures
        r matches Some(b) ==> b.screen == screen_after_spec(screen, ScreenEvent::Back).screen,
        screen == Screen::Batches ==> (r matches Some(b) && b.status@ == "请重新登录"@ && b.notice@
            == "已返回登录页面"@),
        screen == Screen::Batches ==> final(state).token is None && final(state).batch_id is None
            && final(state).batch_list@.len() == 0 && final(state).selected_courses@.len() == 0
            && final(state).favorite_courses@.len() == 0 && final(state).enrollment_status.is_idle()
            && !final(state).should_continue && final(state).run_epoch == old(state).run_epoch,
        screen == Screen::Console ==> (r matches Some(b) && b.status@ == "请重新选择批次"@ && b.notice@
            == "已返回批次选择"@),
        screen == Screen::Console ==> final(state).token == old(state).token && final(state).batch_list
            == old(state).batch_list && final(state).batch_id is None
            && final(state).selected_courses@.len() == 0 && final(state).favorite_courses@.len() == 0
            && final(state).enrollment_status.is_idle() && !final(state).should_continue
            && final(state).run_epoch == old(state).run_epoch,
        screen == Screen::Login ==> r is None && *final(state) == *old(state),
{
    match screen {
        Screen::Batches => {
            state.reset_for_login();
            Some(BackStep { screen: Screen::Login, status: "请重新登录", notice: "已返回登录页面" })
        },
        Screen::Console => {
            state.reset_for_batch_selection();
            Some(BackStep { screen: Screen::Batches, status: "请重新选择批次", notice: "已返回批次选择" })
        },
        Screen::Login => None,
    }
}

/// Whether the console shows a run in progress: the run's own flag.
pub fn is_enrolling(state: &AppState) -> (r: bool)
    ensures
        r == state.enrollment_status.is_running,
{
    state.enrollment_status.is_running
}

/// The token the official site is opened with, or the notice shown when
/// there is no session.
pub fn fallback_target(state: &AppState) -> (r: Result<String, &'static str>)
    ensures
        state.token is None ==> (r matches Err(m) && m@ == "请先登录后再使用兜底"@),
        state.token matches Some(t) ==> (r matches Ok(x) && x@ == t@),
{
    match &state.token {
        None => Err("请先登录后再使用兜底"),
        Some(t) => Ok(t.clone()),
    }
}

/// The token and batch a single manual enrollment uses, or the prompt shown
/// when one is missing.
pub fn manual_select_target(state: &AppState) -> (r: Result<(String, String), &'static str>)
    ensures
        state.token is None ==> (r matches Err(m) && m@ == "未登录，请先登录"@),
        state.token is Some && state.batch_id is None ==> (r matches Err(m) && m@ == "请先选择批次"@),
        state.token is Some && state.batch_id is Some ==> (r matches Ok((t, b)) && t@
            == state.token->0@ && b@ == state.batch_id->0@),
{
    match (&state.token, &state.batch_id) {
        (None, _) => Err("未登录，请先登录"),
        (Some(_), None) => Err("请先选择批次"),
        (Some(t), Some(b)) => Ok((t.clone(), b.clone())),
    }
}

/// The notification kind for a manual attempt's decision: an error when
/// fatal, a success when final, else information.
pub open spec fn manual_notice_type(d: (Seq<char>, bool, bool)) -> ToastType {
    if d.2 {
        ToastType::Error
    } else if d.1 {
        ToastType::Success
    } else {
        ToastType::Info
    }
}

/// What a single manual enrollment of course `name` reports: the status
/// line and the notification kind. A manual attempt keeps trying a full
/// course; a failed request reports an error.
pub fn manual_select_feedback(name: &str, reply: &SelectReply) -> (r: (String, ToastType))
    ensures
        r.0@ == status_line_spec(name@, reply_decision_spec(*reply, true).0),
        reply is RequestFailed ==> r.1 == ToastType::Error,
        reply is Answered ==> r.1 == manual_notice_type(reply_decision_spec(*reply, true)),
{
    let d = reply_decision(reply, true);
    let text = status_line(name, d.label);
    let kind = match reply {
        SelectReply::RequestFailed => ToastType::Error,
        SelectReply::Answered { .. } => {
            if d.fatal {
                ToastType::Error
            } else if d.stop_self {
                ToastType::Success
            } else {
                ToastType::Info
            }
        },
    };
    (text, kind)
}

/// The notification after trying to open the official site: the embedded
/// window when the desktop shell opened it, else the system browser.
pub fn fallback_notice(opened_embedded: bool, browser_opened: bool) -> (r: (ToastType, &'static str))
    ensures
        opened_embedded ==> r.0 == ToastType::Info && r.1@ == "已在内嵌窗口打开官方选课网站（已带入登录态）"@,
        !opened_embedded && browser_opened ==> r.0 == ToastType::Warning && r.1@
            == "未检测到桌面环境：已用系统浏览器打开（需自行登录）"@,
        !opened_embedded && !browser_opened ==> r.0 == ToastType::Error && r.1@ == "无法打开官方网站"@,
{
    if opened_embedded {
        (ToastType::Info, "已在内嵌窗口打开官方选课网站（已带入登录态）")
    } else if browser_opened {
        (ToastType::Warning, "未检测到桌面环境：已用系统浏览器打开（需自行登录）")
    } else {
        (ToastType::Error, "无法打开官方网站")
    }
}

/// The start button: without favourite courses, the warning to show and no
/// change; else the run shows running at once, before its workers start.
pub fn request_enrollment_start(state: &mut AppState) -> (r: Option<&'static str>)
    ensures
        old(state).favorite_courses@.len() == 0 ==> (r matches Some(m) && m@
            == "暂无收藏课程，请先到选课网站收藏想抢的课程"@ && *final(state) == *old(state)),
        old(state).favorite_courses@.len() > 0 ==> r is None && final(state).enrollment_status.is_running
            && final(state).enrollment_status.total_requests == old(state).enrollment_status.total_requests
            && final(state).enrollment_status.course_statuses == old(state).enrollment_status.course_statuses
            && final(state).should_continue == old(state).should_continue
            && final(state).run_epoch == old(state).run_epoch && same_session(*old(state), *final(state)),
{
    if state.favorite_courses.len() == 0 {
        return Some("暂无收藏课程，请先到选课网站收藏想抢的课程");
    }
    state.enrollment_status.is_running = true;
    None
}

/// A run that failed to start shows stopped again.
pub fn abandon_enrollment_start(state: &mut AppState)
    ensures
        !final(state).enrollment_status.is_running,
        final(state).enrollment_status.total_requests == old(state).enrollment_status.total_requests,
        final(state).enrollment_status.course_statuses == old(state).enrollment_status.course_statuses,
        final(state).should_continue == old(state).should_continue,
        final(state).run_epoch == old(state).run_epoch,
        same_session(*old(state), *final(state)),
{
    state.enrollment_status.is_running = false;
}

} // verus!
