use vstd::prelude::*;

use crate::text::str_equal;

verus! {

/// An elective batch the student may enter.
#[derive(Debug, Clone)]
pub struct BatchInfo {
    /// The batch's code, which the server takes as its id.
    pub code: String,
    /// The batch's display name.
    pub name: String,
}

/// A course as the course-selection server lists it.
#[allow(non_snake_case)]
#[derive(Debug, Clone)]
pub struct CourseInfo {
    /// The course name.
    pub KCM: String,
    /// The teaching-class id.
    pub JXBID: String,
    /// The teacher.
    pub SKJS: String,
    /// The teaching-class type, sent with an enrollment request.
    pub teaching_class_type: Option<String>,
    /// The per-class secret, sent with an enrollment request.
    pub secret_val: Option<String>,
}

/// The progress of an enrollment run as the console shows it.
#[derive(Debug, Clone)]
pub struct EnrollmentStatus {
    /// Workers of the current run are still polling.
    pub is_running: bool,
    /// Enrollment requests sent in the current run (saturating).
    pub total_requests: u64,
    /// One "[course]status" line per course of the run.
    pub course_statuses: Vec<String>,
}

impl EnrollmentStatus {
    /// The idle status: not running, no request sent, no line.
    pub fn idle() -> (s: Self)
        ensures
            s.is_idle(),
    {
        EnrollmentStatus { is_running: false, total_requests: 0, course_statuses: Vec::new() }
    }

    /// Not running, no request counted, no status line.
    pub open spec fn is_idle(self) -> bool {
        &&& !self.is_running
        &&& self.total_requests == 0
        &&& self.course_statuses@.len() == 0
    }
}

/// What went wrong in a step of the login / batch / course flow.
#[derive(Debug, Clone)]
pub enum AppError {
    /// A reply or a precondition of the flow was not as expected.
    ParseError(String),
    /// The server refused to list courses.
    CourseError(String),
    /// The request itself failed.
    RequestError(String),
}

/// An [`AppError`] as plain values.
pub enum AppErrorView {
    ParseError(Seq<char>),
    CourseError(Seq<char>),
    RequestError(Seq<char>),
}

impl View for AppError {
    type V = AppErrorView;

    open spec fn view(&self) -> AppErrorView {
        match self {
            AppError::ParseError(m) => AppErrorView::ParseError(m@),
            AppError::CourseError(m) => AppErrorView::CourseError(m@),
            AppError::RequestError(m) => AppErrorView::RequestError(m@),
        }
    }
}

/// A result carrying text, as plain values.
pub open spec fn text_outcome(r: Result<String, AppError>) -> Result<Seq<char>, AppErrorView> {
    match r {
        Ok(t) => Ok(t@),
        Err(e) => Err(e@),
    }
}

/// A result carrying two texts, as plain values.
pub open spec fn pair_outcome(r: Result<(String, String), AppError>) -> Result<(Seq<char>, Seq<char>), AppErrorView> {
    match r {
        Ok((a, b)) => Ok((a@, b@)),
        Err(e) => Err(e@),
    }
}

/// A result carrying nothing, as plain values.
pub open spec fn unit_outcome(r: Result<(), AppError>) -> Result<(), AppErrorView> {
    match r {
        Ok(_) => Ok(()),
        Err(e) => Err(e@),
    }
}

/// The session state of the assistant.
#[derive(Debug, Clone)]
pub struct AppState {
    /// The session token, once logged in.
    pub token: Option<String>,
    /// The chosen batch, once set.
    pub batch_id: Option<String>,
    /// The batches offered at login.
    pub batch_list: Vec<BatchInfo>,
    /// The courses already selected.
    pub selected_courses: Vec<CourseInfo>,
    /// The favourite courses, which a run tries to enroll.
    pub favorite_courses: Vec<CourseInfo>,
    /// The progress of the enrollment run.
    pub enrollment_status: EnrollmentStatus,
    /// Workers keep polling while this holds.
    pub should_continue: bool,
    /// The number of the latest run; it grows (wrapping) at each start.
    pub run_epoch: usize,
}

impl AppState {
    /// The state before login.
    pub fn new() -> (s: Self)
        ensures
            s.token is None,
            s.batch_id is None,
            s.batch_list@.len() == 0,
            s.selected_courses@.len() == 0,
            s.favorite_courses@.len() == 0,
            s.enrollment_status.is_idle(),
            !s.should_continue,
            s.run_epoch == 0,
    {
        AppState {
            token: None,
            batch_id: None,
            batch_list: Vec::new(),
            selected_courses: Vec::new(),
            favorite_courses: Vec::new(),
            enrollment_status: EnrollmentStatus::idle(),
            should_continue: false,
            run_epoch: 0,
        }
    }

    /// Back to the login screen: forgets the session, batches, courses and
    /// progress, and stops the workers; the run number is kept.
    pub fn reset_for_login(&mut self)
        ensures
            final(self).token is None,
            final(self).batch_id is None,
            final(self).batch_list@.len() == 0,
            final(self).selected_courses@.len() == 0,
            final(self).favorite_courses@.len() == 0,
            final(self).enrollment_status.is_idle(),
            !final(self).should_continue,
            final(self).run_epoch == old(self).run_epoch,
    {
        self.token = None;
        self.batch_id = None;
        self.batch_list = Vec::new();
        self.selected_courses = Vec::new();
        self.favorite_courses = Vec::new();
        self.enrollment_status = EnrollmentStatus::idle();
        self.should_continue = false;
    }

    /// Back to the batch screen: forgets the batch, courses and progress and
    /// stops the workers; the session, the batch list and the run number are
    /// kept.
    pub fn reset_for_batch_selection(&mut self)
        ensures
            final(self).token == old(self).token,
            final(self).batch_list == old(self).batch_list,
            final(self).batch_id is None,
            final(self).selected_courses@.len() == 0,
            final(self).favorite_courses@.len() == 0,
            final(self).enrollment_status.is_idle(),
            !final(self).should_continue,
            final(self).run_epoch == old(self).run_epoch,
    {
        self.batch_id = None;
        self.selected_courses = Vec::new();
        self.favorite_courses = Vec::new();
        self.enrollment_status = EnrollmentStatus::idle();
        self.should_continue = false;
    }
}

/// The login reply says that the login succeeded.
pub open spec fn login_accepted(code: Option<i64>, msg: Option<Seq<char>>) -> bool {
    code == Some(200i64) && msg == Some("登录成功"@)
}

/// What a login reply yields: its token when the login succeeded (an error
/// when the token is missing), else the server's message (a default when it
/// has none).
pub open spec fn login_outcome_spec(
    code: Option<i64>,
    msg: Option<Seq<char>>,
    token: Option<Seq<char>>,
) -> Result<Seq<char>, AppErrorView> {
    if login_accepted(code, msg) {
        match token {
            Some(t) => Ok(t),
            None => Err(AppErrorView::ParseError("Invalid token"@)),
        }
    } else {
        match msg {
            Some(m) => Err(AppErrorView::ParseError(m)),
            None => Err(AppErrorView::ParseError("登录失败"@)),
        }
    }
}

/// Judges a login reply by its `code`, its `msg` and its `data.token`, each
/// present when the reply holds it with the expected JSON type.
pub fn login_outcome(code: Option<i64>, msg: &Option<String>, token: &Option<String>) -> (r: Result<String, AppError>)
    ensures
        text_outcome(r) == login_outcome_spec(code, msg.deep_view(), token.deep_view()),
{
    let accepted = match (code, msg) {
        (Some(c), Some(m)) => c == 200 && str_equal(m.as_str(), "登录成功"),
        _ => false,
    };
    if accepted {
        match token {
            Some(t) => Ok(t.clone()),
            None => Err(AppError::ParseError("Invalid token".to_owned())),
        }
    } else {
        match msg {
            Some(m) => Err(AppError::ParseError(m.clone())),
            None => Err(AppError::ParseError("登录失败".to_owned())),
        }
    }
}

impl AppState {
    /// Records a successful login: its token and the batches it offers.
    pub fn apply_login(&mut self, token: String, batch_list: Vec<BatchInfo>)
        ensures
            final(self).token == Some(token),
            final(self).batch_list == batch_list,
            final(self).batch_id == old(self).batch_id,
            final(self).selected_courses == old(self).selected_courses,
            final(self).favorite_courses == old(self).favorite_courses,
            final(self).enrollment_status == old(self).enrollment_status,
            final(self).should_continue == old(self).should_continue,
            final(self).run_epoch == old(self).run_epoch,
    {
        self.token = Some(token);
        self.batch_list = batch_list;
    }
}

/// The token and the code of the batch at `batch_idx`, which setting that
/// batch needs.
pub open spec fn set_batch_target_spec(state: AppState, batch_idx: usize) -> Result<(Seq<char>, Seq<char>), AppErrorView> {
    match state.token {
        None => Err(AppErrorView::ParseError("No token available"@)),
        Some(t) => if batch_idx >= state.batch_list@.len() {
            Err(AppErrorView::ParseError("Invalid batch index"@))
        } else {
            Ok((t@, state.batch_list@[batch_idx as int].code@))
        },
    }
}

/// Picks the token and the batch code for setting the batch at `batch_idx`.
pub fn set_batch_target(state: &AppState, batch_idx: usize) -> (r: Result<(String, String), AppError>)
    ensures
        pair_outcome(r) == set_batch_target_spec(*state, batch_idx),
{
    match &state.token {
        None => Err(AppError::ParseError("No token available".to_owned())),
        Some(t) => {
            if batch_idx >= state.batch_list.len() {
                Err(AppError::ParseError("Invalid batch index".to_owned()))
            } else {
                Ok((t.clone(), state.batch_list[batch_idx].code.clone()))
            }
        },
    }
}

impl AppState {
    /// Records the server's answer to setting the batch `batch_id`: the batch
    /// is chosen when the reply's code is 200, else nothing changes.
    pub fn finish_set_batch(&mut self, batch_id: String, code: Option<i64>) -> (r: Result<(), AppError>)
        ensures
            code == Some(200i64) ==> r is Ok && final(self).batch_id == Some(batch_id),
            code != Some(200i64) ==> unit_outcome(r) == Err::<(), AppErrorView>(
                AppErrorView::ParseError("Failed to set batch"@),
            ) && final(self).batch_id == old(self).batch_id,
            final(self).token == old(self).token,
            final(self).batch_list == old(self).batch_list,
            final(self).selected_courses == old(self).selected_courses,
            final(self).favorite_courses == old(self).favorite_courses,
            final(self).enrollment_status == old(self).enrollment_status,
            final(self).should_continue == old(self).should_continue,
            final(self).run_epoch == old(self).run_epoch,
    {
        match code {
            Some(200) => {
                self.batch_id = Some(batch_id);
                Ok(())
            },
            _ => Err(AppError::ParseError("Failed to set batch".to_owned())),
        }
    }
}

/// The token and batch that listing courses needs.
pub open spec fn session_target_spec(state: AppState) -> Result<(Seq<char>, Seq<char>), AppErrorView> {
    match (state.token, state.batch_id) {
        (None, _) => Err(AppErrorView::ParseError("No token available"@)),
        (Some(_), None) => Err(AppErrorView::ParseError("No batch id selected"@)),
        (Some(t), Some(b)) => Ok((t@, b@)),
    }
}

/// The token and the batch of the session, which listing and enrolling
/// courses need.
pub fn session_target(state: &AppState) -> (r: Result<(String, String), AppError>)
    ensures
        pair_outcome(r) == session_target_spec(*state),
{
    match (&state.token, &state.batch_id) {
        (None, _) => Err(AppError::ParseError("No token available".to_owned())),
        (Some(_), None) => Err(AppError::ParseError("No batch id selected".to_owned())),
        (Some(t), Some(b)) => Ok((t.clone(), b.clone())),
    }
}

/// The two course lists the console shows.
#[derive(Debug, Clone, Copy, PartialEq, Eq)]
pub enum CourseList {
    /// The courses already selected.
    Selected,
    /// The favourite courses.
    Favorite,
}

/// The message when the server refuses a list without saying why.
pub open spec fn course_list_default_msg(list: CourseList) -> Seq<char> {
    match list {
        CourseList::Selected => "获取已选课程失败"@,
        CourseList::Favorite => "获取收藏课程失败"@,
    }
}

/// A course-list reply is usable when its code is 200; else it is a
/// course error with the server's message, or the list's default one.
pub open spec fn course_list_reply_spec(list: CourseList, code: Option<i64>, msg: Option<Seq<char>>) -> Result<(), AppErrorView> {
    if code == Some(200i64) {
        Ok(())
    } else {
        match msg {
            Some(m) => Err(AppErrorView::CourseError(m)),
            None => Err(AppErrorView::CourseError(course_list_default_msg(list))),
        }
    }
}

/// Judges a course-list reply by its `code` and `msg`.
pub fn course_list_reply(list: CourseList, code: Option<i64>, msg: &Option<String>) -> (r: Result<(), AppError>)
    ensures
        unit_outcome(r) == course_list_reply_spec(list, code, msg.deep_view()),
{
    if code == Some(200i64) {
        return Ok(());
    }
    match msg {
        Some(m) => Err(AppError::CourseError(m.clone())),
        None => match list {
            CourseList::Selected => Err(AppError::CourseError("获取已选课程失败".to_owned())),
            CourseList::Favorite => Err(AppError::CourseError("获取收藏课程失败".to_owned())),
        },
    }
}

impl AppState {
    /// Records both course lists.
    pub fn set_courses(&mut self, selected: Vec<CourseInfo>, favorite: Vec<CourseInfo>)
        ensures
            final(self).selected_courses == selected,
            final(self).favorite_courses == favorite,
            final(self).token == old(self).token,
            final(self).batch_id == old(self).batch_id,
            final(self).batch_list == old(self).batch_list,
            final(self).enrollment_status == old(self).enrollment_status,
            final(self).should_continue == old(self).should_continue,
            final(self).run_epoch == old(self).run_epoch,
    {
        self.selected_courses = selected;
        self.favorite_courses = favorite;
    }
}

} // verus!
